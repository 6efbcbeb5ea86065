//! What the program is asked to do, and what it runs as.
use crate::text::str_eq;
use vstd::prelude::*;
use vstd::string::*;

verus! {

broadcast use vstd::string::group_string_axioms;

/// An argument of the program.
#[derive(Debug, PartialEq, Eq)]
pub enum Argument {
    Short(char),
    Long(String),
    Value,
}

/// What the program is asked to do.
#[derive(Clone, Copy, Debug, PartialEq, Eq, Structural)]
pub enum Mode {
    Help,
    Version,
    Run,
}

/// What one argument asks for.
pub open spec fn asked_by(argument: Argument) -> Option<Mode> {
    match argument {
        Argument::Short(c) => if c == 'h' {
            Some(Mode::Help)
        } else if c == 'v' {
            Some(Mode::Version)
        } else {
            None
        },
        Argument::Long(name) => if name@ == "help"@ {
            Some(Mode::Help)
        } else if name@ == "version"@ {
            Some(Mode::Version)
        } else {
            None
        },
        Argument::Value => None,
    }
}

/// What the arguments ask for: the first that asks for something counts.
pub open spec fn asked_for(arguments: Seq<Argument>) -> Mode
    decreases arguments.len(),
{
    if arguments.len() == 0 {
        Mode::Run
    } else {
        match asked_by(arguments[0]) {
            Some(mode) => mode,
            None => asked_for(arguments.drop_first()),
        }
    }
}

fn mode_of(argument: &Argument) -> (mode: Option<Mode>)
    ensures
        mode == asked_by(*argument),
{
    match argument {
        Argument::Short(c) => {
            if *c == 'h' {
                Some(Mode::Help)
            } else if *c == 'v' {
                Some(Mode::Version)
            } else {
                None
            }
        },
        Argument::Long(name) => {
            if str_eq(name.as_str(), "help") {
                Some(Mode::Help)
            } else if str_eq(name.as_str(), "version") {
                Some(Mode::Version)
            } else {
                None
            }
        },
        Argument::Value => None,
    }
}

/// What the arguments ask for.
pub fn choose_mode(arguments: &Vec<Argument>) -> (mode: Mode)
    ensures
        mode == asked_for(arguments@),
{
    let mut i: usize = 0;
    proof {
        assert(arguments@.skip(0) == arguments@);
    }
    while i < arguments.len()
        invariant
            i <= arguments@.len(),
            asked_for(arguments@) == asked_for(arguments@.skip(i as int)),
        decreases arguments@.len() - i,
    {
        if let Some(mode) = mode_of(&arguments[i]) {
            return mode;
        }
        proof {
            assert(arguments@.skip(i as int).drop_first() == arguments@.skip(i as int + 1));
        }
        i = i + 1;
    }
    Mode::Run
}

/// What the program runs as.
#[derive(Clone, Copy, Debug, PartialEq, Eq, Structural)]
pub enum Role {
    Greeter,
    Locker,
}

/// What the program runs as for an account.
pub open spec fn role_of(current_user: Option<String>) -> Option<Role> {
    match current_user {
        Some(name) => Some(
            if name@ == "cosmic-greeter"@ {
                Role::Greeter
            } else {
                Role::Locker
            },
        ),
        None => None,
    }
}

/// What the program runs as: the greeter for the greeter's own account, the lock screen for any
/// other. Without an account it runs as nothing.
pub fn choose_role(current_user: &Option<String>) -> (role: Option<Role>)
    ensures
        role == role_of(*current_user),
{
    match current_user {
        Some(name) => {
            if str_eq(name.as_str(), "cosmic-greeter") {
                Some(Role::Greeter)
            } else {
                Some(Role::Locker)
            }
        },
        None => None,
    }
}

}
