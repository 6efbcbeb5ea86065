//! Whether the machine is set up for the first time.
use crate::text::{contains, occurs};
use vstd::prelude::*;
use vstd::string::*;

verus! {

broadcast use vstd::string::group_string_axioms;

/// The setup was asked for on the command line of the kernel.
pub open spec fn is_requested(cmdline: Option<Seq<char>>) -> bool {
    cmdline is Some && occurs(cmdline->0, "cosmic.initial-setup=1"@)
}

/// Whether the setup was asked for on the command line of the kernel, as far as that can be read.
pub fn kernel_cmdline_enabled(cmdline: &Option<String>) -> (yes: bool)
    ensures
        yes == is_requested(crate::text::opt_text(*cmdline)),
{
    match cmdline {
        Some(cmdline) => contains(cmdline.as_str(), "cosmic.initial-setup=1"),
        None => false,
    }
}

/// Whether the setup runs, as far as that is known.
pub open spec fn setup_runs(cmdline: Option<Seq<char>>, accounts: Option<usize>) -> Option<bool> {
    if is_requested(cmdline) {
        Some(true)
    } else {
        match accounts {
            Some(accounts) => Some(accounts == 0),
            None => None,
        }
    }
}

/// Whether the setup runs: it was asked for, or there are no accounts. Accounts are asked for only
/// where it was not asked for; if they cannot be counted, nothing is known.
pub fn condition_met(cmdline: &Option<String>, accounts: Option<usize>) -> (met: Option<bool>)
    ensures
        met == setup_runs(crate::text::opt_text(*cmdline), accounts),
{
    if kernel_cmdline_enabled(cmdline) {
        return Some(true);
    }
    match accounts {
        Some(accounts) => Some(accounts == 0),
        None => None,
    }
}

}
