//! Display arrangements, and which of them fits the displays that are connected.
use crate::nesting::{is_light, light_enough};
use crate::text::{chars_of, clone_opt, concat3, opt_text};
use vstd::prelude::*;
use vstd::string::*;

verus! {

broadcast use vstd::string::group_string_axioms;

/// A display.
#[derive(Debug, PartialEq, Eq)]
pub struct Display {
    pub name: String,
    pub make: Option<String>,
    pub model: String,
}

/// An arrangement of displays: the KDL document that describes it, and the displays in it.
#[derive(Debug, PartialEq, Eq)]
pub struct Arrangement {
    pub document: String,
    pub displays: Vec<Display>,
}

/// `text` is a KDL document. Nothing is said of texts that are too heavy to be parsed.
pub uninterp spec fn is_kdl(text: Seq<char>) -> bool;

/// `text` is a single KDL node. Nothing is said of texts that are too heavy to be parsed.
pub uninterp spec fn is_kdl_node(text: Seq<char>) -> bool;

/// A text without a byte order mark at its start.
pub open spec fn unmarked(text: Seq<char>) -> Seq<char> {
    if text.len() > 0 && text[0] == '\u{feff}' {
        text.drop_first()
    } else {
        text
    }
}

/// A document as the children of a node.
pub open spec fn as_children(document: Seq<char>) -> Seq<char> {
    "a {\n"@ + unmarked(document) + "\n}"@
}

/// Asks `kdl::KdlNode::parse` whether it can parse a node that has a document as its children. The
/// answer is claimed to depend on the text alone; and where it is no, the document is none, since
/// the parser reads the children of a node and the nodes of a document in the same way.
///
/// The parser calls itself for every block that is open, and for the stars and slashes of a comment,
/// and it reads a block that is commented out more than once. So it is claimed to come back only
/// from a text that is light enough: for that a stack of two megabytes is sufficient, also where the
/// crate was built without optimisation.
#[verifier::external_body]
fn parses_as_node(text: &str) -> (yes: bool)
    requires
        exists|document: Seq<char>|
            text@ == #[trigger] as_children(document) && is_light(unmarked(document)),
    ensures
        yes == is_kdl_node(text@),
        !yes ==> forall|document: Seq<char>|
            text@ == #[trigger] as_children(document) ==> !is_kdl(document),
{
    kdl::KdlNode::parse(text).is_ok()
}

/// Asks `kdl::KdlDocument::parse` whether it can parse a document. The answer is claimed to depend
/// on the text alone.
///
/// Besides what [`parses_as_node`] says, this parser calls itself for every token that stands where
/// none is expected. So it is claimed to come back only from a text that is light enough and can be
/// parsed as the children of a node.
#[verifier::external_body]
fn parses_as_kdl(text: &str) -> (yes: bool)
    requires
        is_light(unmarked(text@)),
        is_kdl_node(as_children(text@)),
    ensures
        yes == is_kdl(text@),
{
    kdl::KdlDocument::parse(text).is_ok()
}

/// A document can be read: it is light enough, and KDL.
pub open spec fn is_readable(document: Seq<char>) -> bool {
    is_light(unmarked(document)) && is_kdl(document)
}

/// Whether a document can be read.
pub fn can_be_read(document: &str) -> (yes: bool)
    ensures
        yes == is_readable(document@),
{
    let chars = chars_of(document);
    let nodes = if chars.len() > 0 && chars[0] == '\u{feff}' {
        proof {
            assert(document@.subrange(1, document@.len() as int) == unmarked(document@));
        }
        document.substring_char(1, chars.len()).to_owned()
    } else {
        document.to_owned()
    };
    if !light_enough(nodes.as_str()) {
        return false;
    }
    let node = concat3("a {\n", nodes.as_str(), "\n}");
    assert(node@ == as_children(document@));
    parses_as_node(node.as_str()) && parses_as_kdl(document)
}

/// The two are the same display.
pub open spec fn same_display(a: Display, b: Display) -> bool {
    &&& a.name@ == b.name@
    &&& opt_text(a.make) == opt_text(b.make)
    &&& a.model@ == b.model@
}

/// A display is in a list.
pub open spec fn has_display(displays: Seq<Display>, display: Display) -> bool {
    exists|i: int| 0 <= i < displays.len() && same_display(#[trigger] displays[i], display)
}

/// An arrangement fits: it can be read, and it has as many displays as are connected, and every one
/// of these.
pub open spec fn fits(arrangement: Arrangement, connected: Seq<Display>) -> bool {
    &&& is_readable(arrangement.document@)
    &&& arrangement.displays@.len() == connected.len()
    &&& forall|i: int|
        0 <= i < connected.len() ==> has_display(
            arrangement.displays@,
            #[trigger] connected[i],
        )
}

/// The first arrangement that fits is at `found`.
pub open spec fn first_fitting(
    found: Option<usize>,
    arrangements: Seq<Arrangement>,
    connected: Seq<Display>,
) -> bool {
    match found {
        Some(i) => {
            &&& i < arrangements.len()
            &&& fits(arrangements[i as int], connected)
            &&& forall|j: int| 0 <= j < i ==> !fits(#[trigger] arrangements[j], connected)
        },
        None => forall|j: int|
            0 <= j < arrangements.len() ==> !fits(#[trigger] arrangements[j], connected),
    }
}

fn same_text_opt(a: &Option<String>, b: &Option<String>) -> (same: bool)
    ensures
        same == (opt_text(*a) == opt_text(*b)),
{
    match (a, b) {
        (Some(a), Some(b)) => *a == *b,
        (None, None) => true,
        _ => false,
    }
}

fn contains_display(displays: &Vec<Display>, display: &Display) -> (found: bool)
    ensures
        found == has_display(displays@, *display),
{
    for i in 0..displays.len()
        invariant
            forall|j: int| 0 <= j < i ==> !same_display(#[trigger] displays@[j], *display),
    {
        let candidate = &displays[i];
        if candidate.name == display.name && same_text_opt(&candidate.make, &display.make)
            && candidate.model == display.model {
            assert(same_display(displays@[i as int], *display));
            return true;
        }
    }
    false
}

fn fits_connected(arrangement: &Arrangement, connected: &Vec<Display>) -> (yes: bool)
    ensures
        yes == fits(*arrangement, connected@),
{
    if !can_be_read(arrangement.document.as_str()) {
        return false;
    }
    if arrangement.displays.len() != connected.len() {
        return false;
    }
    for i in 0..connected.len()
        invariant
            forall|j: int|
                0 <= j < i ==> has_display(arrangement.displays@, #[trigger] connected@[j]),
    {
        if !contains_display(&arrangement.displays, &connected[i]) {
            assert(!has_display(arrangement.displays@, connected@[i as int]));
            return false;
        }
    }
    true
}

/// The arrangement to apply: the first that fits the displays that are connected.
pub fn choose_arrangement(arrangements: &Vec<Arrangement>, connected: &Vec<Display>) -> (found:
    Option<usize>)
    ensures
        first_fitting(found, arrangements@, connected@),
{
    for i in 0..arrangements.len()
        invariant
            forall|j: int| 0 <= j < i ==> !fits(#[trigger] arrangements@[j], connected@),
    {
        if fits_connected(&arrangements[i], connected) {
            return Some(i);
        }
    }
    None
}

/// A copy of a list of displays.
pub fn copy_displays(displays: &Vec<Display>) -> (copy: Vec<Display>)
    ensures
        copy@ == displays@,
{
    let mut copy: Vec<Display> = Vec::new();
    for i in 0..displays.len()
        invariant
            copy@ == displays@.take(i as int),
    {
        let display = &displays[i];
        copy.push(
            Display {
                name: display.name.clone(),
                make: clone_opt(&display.make),
                model: display.model.clone(),
            },
        );
    }
    copy
}

/// No arrangement that fits has more displays than another that fits: the first is as good as any.
pub proof fn law_fitting_arrangements_are_alike(
    a: Arrangement,
    b: Arrangement,
    connected: Seq<Display>,
)
    requires
        fits(a, connected),
        fits(b, connected),
    ensures
        a.displays@.len() == b.displays@.len(),
{
}

}
