//! The menu of the lock screen.
use crate::common::Prompt;
use crate::locker::{App, Dropdown};
use crate::menu::{
    height_of_list, input_view, layout_items, list_height, lists_layouts, shows_input,
    shows_status, status_view, InputView, LayoutItem, ListHeight, StatusView,
};
use crate::text::clone_opt;
use vstd::prelude::*;
use vstd::string::*;

verus! {

broadcast use vstd::string::group_string_axioms;

/// The open menu of keyboard layouts.
#[derive(Debug, PartialEq, Eq)]
pub struct KeyboardView {
    pub items: Vec<LayoutItem>,
    pub height: ListHeight,
}

/// What is shown of a prompt.
#[derive(Debug, PartialEq, Eq)]
pub enum PromptView {
    Nothing,
    /// A message that wants no answer.
    Text(String),
    Input {
        input: InputView,
        /// The field can be typed into.
        editable: bool,
        /// Caps lock is pointed out.
        caps_lock: bool,
        /// An empty line follows.
        blank: bool,
    },
}

/// What is shown of the check of the user's credentials.
#[derive(Debug, PartialEq, Eq)]
pub enum Verdict {
    Authenticating,
    Failed {
        error: String,
        /// An empty line follows.
        blank: bool,
    },
    Blank,
}

/// What the menu of the lock screen shows.
#[derive(Debug, PartialEq, Eq)]
pub struct Menu {
    pub status: StatusView,
    pub keyboard: Option<KeyboardView>,
    /// The height of the space above the user's picture, in pixels.
    pub space_height: u32,
    pub icon: bool,
    pub full_name: String,
    pub prompt: PromptView,
    pub fingerprint_info: Option<String>,
    pub verdict: Verdict,
}

/// What is shown of the prompt. While credentials are checked, nothing can be typed.
pub open spec fn shows_prompt(view: PromptView, app: App, surface: u64) -> bool {
    match app.common.prompt_opt {
        None => view is Nothing,
        Some(Prompt { prompt, secret, value: None }) => view == PromptView::Text(prompt),
        Some(prompt) => match view {
            PromptView::Input { input, editable, caps_lock, blank } => {
                &&& shows_input(input, app.common, surface, prompt)
                &&& editable == !app.authenticating
                &&& caps_lock == (app.common.caps_lock && !app.authenticating)
                &&& blank == (!caps_lock && app.common.error_opt is None)
            },
            _ => false,
        },
    }
}

/// What is shown of the check: that it is going on, or else why it failed.
pub open spec fn shows_verdict(view: Verdict, app: App) -> bool {
    if app.authenticating {
        view is Authenticating
    } else {
        match app.common.error_opt {
            Some(error) => view == (Verdict::Failed { error, blank: !app.common.caps_lock }),
            None => view is Blank,
        }
    }
}

impl App {
    fn prompt_view(&self, surface: u64) -> (view: PromptView)
        ensures
            shows_prompt(view, *self, surface),
    {
        match &self.common.prompt_opt {
            None => PromptView::Nothing,
            Some(prompt) => match &prompt.value {
                None => PromptView::Text(prompt.prompt.clone()),
                Some(value) => {
                    let caps_lock = self.common.caps_lock && !self.authenticating;
                    PromptView::Input {
                        input: input_view(
                            &self.common,
                            surface,
                            &prompt.prompt,
                            prompt.secret,
                            value,
                        ),
                        editable: !self.authenticating,
                        caps_lock,
                        blank: !caps_lock && self.common.error_opt.is_none(),
                    }
                },
            },
        }
    }

    fn verdict(&self) -> (view: Verdict)
        ensures
            shows_verdict(view, *self),
    {
        if self.authenticating {
            return Verdict::Authenticating;
        }
        match &self.common.error_opt {
            Some(error) => Verdict::Failed {
                error: error.clone(),
                blank: !self.common.caps_lock,
            },
            None => Verdict::Blank,
        }
    }

    /// What the menu on a surface shows.
    pub fn menu(&self, surface: u64) -> (menu: Menu)
        ensures
            shows_status(
                menu.status,
                self.common,
                surface,
                self.flags.user_data.shows_military_time(),
            ),
            menu.keyboard is Some <==> self.dropdown_opt is Some,
            menu.keyboard is Some ==> {
                &&& lists_layouts(menu.keyboard->0.items@, self.common.active_layouts@)
                &&& menu.keyboard->0.height == list_height(self.common.active_layouts@.len())
            },
            menu.space_height == (if self.flags.user_data.shows_military_time() {
                63u32
            } else {
                10u32
            }),
            menu.icon == self.flags.user_icon,
            menu.full_name@ == self.flags.user_data.shown_name(),
            shows_prompt(menu.prompt, *self, surface),
            menu.fingerprint_info == self.fingerprint_info_opt,
            shows_verdict(menu.verdict, *self),
    {
        let military_time = self.flags.user_data.military_time();
        let keyboard = match self.dropdown_opt {
            Some(Dropdown::Keyboard) => {
                let items = layout_items(&self.common.active_layouts);
                let height = height_of_list(items.len());
                Some(KeyboardView { items, height })
            },
            None => None,
        };
        let space_height: u32 = if military_time {
            63
        } else {
            10
        };
        Menu {
            status: status_view(&self.common, surface, military_time),
            keyboard,
            space_height,
            icon: self.flags.user_icon,
            full_name: self.flags.user_data.full_name_or_name().to_owned(),
            prompt: self.prompt_view(surface),
            fingerprint_info: clone_opt(&self.fingerprint_info_opt),
            verdict: self.verdict(),
        }
    }
}

/// While credentials are checked, the menu takes no input, and shows neither an error nor a hint
/// about caps lock.
pub proof fn law_no_input_while_checking(app: App, surface: u64, prompt: PromptView, verdict: Verdict)
    requires
        app.authenticating,
        shows_prompt(prompt, app, surface),
        shows_verdict(verdict, app),
    ensures
        prompt matches PromptView::Input { editable, caps_lock, .. } ==> !editable && !caps_lock,
        verdict is Authenticating,
{
}

}
