//! What the menus of the greeter and the lock screen show.
use crate::common::{Common, PowerIcon, Prompt};
use crate::geometry::{menu_width, width_of_menu};
use crate::keyboard::ActiveLayout;
use crate::text::{clone_opt, opt_text};
use crate::time::{hour_cycle, written_date, written_time};
use vstd::prelude::*;
use vstd::string::*;

verus! {

broadcast use {vstd::string::group_string_axioms, vstd::std_specs::hash::group_hash_axioms};

/// The height of an item of a menu, in pixels.
pub const DEFAULT_MENU_ITEM_HEIGHT: u32 = 36;

/// The most items that a menu shows without scrolling.
pub const MAX_ITEMS: usize = 7;

/// How high a list of items is: as high as its items, or fixed and scrolling.
#[derive(Clone, Copy, Debug, PartialEq, Eq, Structural)]
pub enum ListHeight {
    Natural,
    Scrolling(u32),
}

/// How high a list with this many items is.
pub open spec fn list_height(items: nat) -> ListHeight {
    if items > MAX_ITEMS {
        ListHeight::Scrolling((DEFAULT_MENU_ITEM_HEIGHT * 7) as u32)
    } else {
        ListHeight::Natural
    }
}

/// How high a list with this many items is.
pub fn height_of_list(items: usize) -> (height: ListHeight)
    ensures
        height == list_height(items as nat),
{
    if items > MAX_ITEMS {
        ListHeight::Scrolling(DEFAULT_MENU_ITEM_HEIGHT * 7)
    } else {
        ListHeight::Natural
    }
}

/// A keyboard layout in its menu.
#[derive(Debug, PartialEq, Eq)]
pub struct LayoutItem {
    pub label: String,
    /// The layout is in use.
    pub checked: bool,
    /// The place of the layout.
    pub layout: usize,
}

/// An item for every layout; the first layout is in use.
pub open spec fn lists_layouts(items: Seq<LayoutItem>, layouts: Seq<ActiveLayout>) -> bool {
    &&& items.len() == layouts.len()
    &&& forall|i: int|
        0 <= i < items.len() ==> {
            &&& (#[trigger] items[i]).label == layouts[i].description
            &&& items[i].checked == (i == 0)
            &&& items[i].layout == i
        }
}

/// The items of the menu of keyboard layouts.
pub fn layout_items(layouts: &Vec<ActiveLayout>) -> (items: Vec<LayoutItem>)
    ensures
        lists_layouts(items@, layouts@),
{
    let mut items: Vec<LayoutItem> = Vec::new();
    for i in 0..layouts.len()
        invariant
            items@.len() == i,
            forall|j: int|
                0 <= j < i ==> {
                    &&& (#[trigger] items@[j]).label == layouts@[j].description
                    &&& items@[j].checked == (j == 0)
                    &&& items@[j].layout == j
                },
    {
        items.push(
            LayoutItem { label: layouts[i].description.clone(), checked: i == 0, layout: i },
        );
    }
    items
}

/// The clock and the state of the machine.
#[derive(Debug, PartialEq, Eq)]
pub struct StatusView {
    pub date: Option<String>,
    pub time: Option<String>,
    /// The size of the digits of the time, in pixels.
    pub time_size: u32,
    pub network_icon: Option<String>,
    pub power: Option<PowerIcon>,
    /// The width of the menu.
    pub width: u32,
}

/// What is shown of the clock and the machine.
pub open spec fn shows_status(
    view: StatusView,
    common: Common,
    surface: u64,
    military_time: bool,
) -> bool {
    &&& opt_text(view.date) == written_date(common.time.locale@, common.time.now)
    &&& opt_text(view.time) == written_time(
        common.time.locale@,
        common.time.now,
        hour_cycle(military_time),
    )
    &&& view.time_size == (if military_time {
        112u32
    } else {
        75u32
    })
    &&& view.network_icon == common.network_icon_opt
    &&& view.power == common.power_info_opt
    &&& view.width == menu_width(
        if common.window_size@.contains_key(surface) {
            Some(common.window_size@[surface].0)
        } else {
            None
        },
    )
}

/// What is shown of the clock and the machine.
pub fn status_view(common: &Common, surface: u64, military_time: bool) -> (view: StatusView)
    ensures
        shows_status(view, *common, surface, military_time),
{
    let (date, time, time_size) = common.time.date_time_widget(military_time);
    let window_width: Option<u32> = match common.window_size.get(&surface) {
        Some(size) => Some(size.0),
        None => None,
    };
    let power = match &common.power_info_opt {
        Some(power) => Some(PowerIcon { icon: power.icon.clone(), level: power.level }),
        None => None,
    };
    StatusView {
        date,
        time,
        time_size,
        network_icon: clone_opt(&common.network_icon_opt),
        power,
        width: width_of_menu(window_width),
    }
}

/// A text field for the answer to a prompt.
#[derive(Debug, PartialEq, Eq)]
pub struct InputView {
    pub prompt: String,
    pub value: String,
    /// The answer is hidden.
    pub secret: bool,
    /// The name of the field.
    pub id: String,
}

/// The text field for a prompt on a surface.
pub open spec fn shows_input(view: InputView, common: Common, surface: u64, prompt: Prompt) -> bool {
    &&& view.prompt == prompt.prompt
    &&& Some(view.value) == prompt.value
    &&& view.secret == prompt.secret
    &&& match common.text_input(surface) {
        Some(id) => view.id == id,
        None => view.id@ == "text_input"@,
    }
}

/// The text field for a prompt on a surface.
pub fn input_view(common: &Common, surface: u64, prompt: &String, secret: bool, value: &String) -> (view:
    InputView)
    ensures
        shows_input(
            view,
            *common,
            surface,
            (Prompt { prompt: *prompt, secret, value: Some(*value) }),
        ),
{
    let id = match common.find_text_input(surface) {
        Some(id) => id,
        None => "text_input".to_owned(),
    };
    InputView { prompt: prompt.clone(), value: value.clone(), secret, id }
}

}
