//! The icon of the network, where systemd manages it.
use crate::networkmanager::NetworkIcon;
use crate::text::str_eq;
use vstd::prelude::*;
use vstd::string::*;

verus! {

broadcast use vstd::string::group_string_axioms;

/// What kind of link it is.
#[derive(Debug, PartialEq, Eq)]
pub enum LinkType {
    Ether,
    Loopback,
    Wlan,
    Other(String),
}

/// Whether a link is connected.
#[derive(Debug, PartialEq, Eq)]
pub enum OnlineState {
    Partial,
    Offline,
    Online,
    Unknown,
    Other(String),
}

/// A network link.
#[derive(Debug, PartialEq, Eq)]
pub struct Link {
    pub online_state: OnlineState,
    pub link_type: LinkType,
}

/// The machine counts as connected: all links are, or some.
pub open spec fn is_connected(state: Seq<char>) -> bool {
    state == "online"@ || state == "partial"@
}

/// Whether the machine counts as connected.
pub fn connected(state: &str) -> (yes: bool)
    ensures
        yes == is_connected(state@),
{
    str_eq(state, "online") || str_eq(state, "partial")
}

/// Some link of this kind is connected.
pub open spec fn any_online(links: Seq<Link>, wireless: bool) -> bool {
    exists|i: int|
        0 <= i < links.len() && (#[trigger] links[i]).online_state is Online && if wireless {
            links[i].link_type is Wlan
        } else {
            links[i].link_type is Ether
        }
}

/// The icon for the links: that of a wireless one at full strength, or else of a wired one, or else
/// none. Links that could not be read do not count.
pub open spec fn icon_of_links(links: Seq<Link>) -> NetworkIcon {
    if any_online(links, true) {
        NetworkIcon::Wireless(100)
    } else if any_online(links, false) {
        NetworkIcon::Wired
    } else {
        NetworkIcon::Disconnected
    }
}

proof fn lemma_one_more(links: Seq<Link>, n: int, wireless: bool)
    requires
        0 <= n < links.len(),
    ensures
        any_online(links.take(n + 1), wireless) == (any_online(links.take(n), wireless) || (
        links[n].online_state is Online && if wireless {
            links[n].link_type is Wlan
        } else {
            links[n].link_type is Ether
        })),
{
    let before = links.take(n);
    let after = links.take(n + 1);
    assert(after[n] == links[n]);
    if any_online(before, wireless) {
        let i = choose|i: int|
            0 <= i < before.len() && (#[trigger] before[i]).online_state is Online && if wireless {
                before[i].link_type is Wlan
            } else {
                before[i].link_type is Ether
            };
        assert(after[i] == before[i]);
    }
    if any_online(after, wireless) {
        let i = choose|i: int|
            0 <= i < after.len() && (#[trigger] after[i]).online_state is Online && if wireless {
                after[i].link_type is Wlan
            } else {
                after[i].link_type is Ether
            };
        if i < n {
            assert(before[i] == after[i]);
        }
    }
}

/// The icon for the links.
pub fn link_icon(links: &Vec<Link>) -> (icon: NetworkIcon)
    ensures
        icon == icon_of_links(links@),
{
    let mut icon = NetworkIcon::Disconnected;
    for i in 0..links.len()
        invariant
            icon == icon_of_links(links@.take(i as int)),
    {
        proof {
            lemma_one_more(links@, i as int, true);
            lemma_one_more(links@, i as int, false);
        }
        if let OnlineState::Online = links[i].online_state {
            match links[i].link_type {
                LinkType::Ether => {
                    if let NetworkIcon::Disconnected = icon {
                        icon = NetworkIcon::Wired;
                    }
                },
                LinkType::Wlan => {
                    icon = NetworkIcon::Wireless(100);
                },
                _ => {},
            }
        }
    }
    proof {
        assert(links@.take(links@.len() as int) == links@);
    }
    icon
}

/// The name of the icon that is shown for a state and for links, if one is.
pub open spec fn icon_shown(state: Seq<char>, links: Seq<Link>) -> Option<Seq<char>> {
    if is_connected(state) {
        Some(icon_of_links(links).icon_name())
    } else {
        None
    }
}

/// What there is to show when the state of the links has been asked for: nothing as long as the
/// machine is not connected.
pub fn shown_icon(state: &str, links: &Vec<Link>) -> (name: Option<&'static str>)
    ensures
        match name {
            Some(name) => icon_shown(state@, links@) == Some(name@),
            None => icon_shown(state@, links@) is None,
        },
{
    if !connected(state) {
        return None;
    }
    let icon = link_icon(links);
    Some(icon.name())
}

}
