//! Rectangles on the screen: keeping track of them, and putting them in order.
use crate::geometry::{move_to_output, on_output, Placement, Rect};
use crate::order::{insertion_point, lemma_empty, lemma_insert, stably_sorted, total_preorder};
use vstd::prelude::*;

verus! {

/// The last known rectangle of a part of a surface.
#[derive(Clone, Copy, Debug, PartialEq, Eq, Structural)]
pub struct Part {
    pub surface: u64,
    pub tag: u8,
    pub rect: Rect,
}

/// The part of a surface that a dropdown menu covers.
pub const MENU_TAG: u8 = 1;

/// The place of the first entry for a part of a surface, or the length if there is none.
pub open spec fn entry_index(parts: Seq<Part>, surface: u64, tag: u8) -> int
    decreases parts.len(),
{
    if parts.len() == 0 {
        0
    } else if parts[0].surface == surface && parts[0].tag == tag {
        0
    } else {
        1 + entry_index(parts.drop_first(), surface, tag)
    }
}

/// The last known rectangle of a part of a surface.
pub open spec fn seen_rect(parts: Seq<Part>, surface: u64, tag: u8) -> Option<Rect> {
    let i = entry_index(parts, surface, tag);
    if i < parts.len() {
        Some(parts[i].rect)
    } else {
        None
    }
}

/// The entries with a new rectangle for a part of a surface, in its old place if it has one.
pub open spec fn parts_with(parts: Seq<Part>, surface: u64, tag: u8, rect: Rect) -> Seq<
    Part,
> {
    let i = entry_index(parts, surface, tag);
    let entry = Part { surface, tag, rect };
    if i < parts.len() {
        parts.update(i, entry)
    } else {
        parts.push(entry)
    }
}

proof fn lemma_entry_index(parts: Seq<Part>, surface: u64, tag: u8, i: int)
    requires
        0 <= i <= parts.len(),
        forall|j: int|
            0 <= j < i ==> !((#[trigger] parts[j]).surface == surface && parts[j].tag == tag),
        i < parts.len() ==> parts[i].surface == surface && parts[i].tag == tag,
    ensures
        entry_index(parts, surface, tag) == i,
    decreases parts.len(),
{
    if i > 0 {
        assert(!(parts[0].surface == surface && parts[0].tag == tag));
        let rest = parts.drop_first();
        assert forall|j: int| 0 <= j < i - 1 implies !((#[trigger] rest[j]).surface == surface
            && rest[j].tag == tag) by {
            assert(rest[j] == parts[j + 1]);
        }
        lemma_entry_index(rest, surface, tag, i - 1);
    }
}

/// Takes down a new rectangle. Tells whether it differs from the last one.
pub fn note_rect(parts: &mut Vec<Part>, surface: u64, tag: u8, rect: Rect) -> (changed: bool)
    ensures
        final(parts)@ == parts_with(old(parts)@, surface, tag, rect),
        changed == (seen_rect(old(parts)@, surface, tag) != Some(rect)),
{
    let mut i: usize = 0;
    while i < parts.len() && !(parts[i].surface == surface && parts[i].tag == tag)
        invariant
            i <= parts@.len(),
            forall|j: int|
                0 <= j < i ==> !((#[trigger] parts@[j]).surface == surface && parts@[j].tag
                    == tag),
        decreases parts@.len() - i,
    {
        i = i + 1;
    }
    proof {
        lemma_entry_index(parts@, surface, tag, i as int);
    }
    let entry = Part { surface, tag, rect };
    if i < parts.len() {
        let changed = parts[i].rect != rect;
        parts.set(i, entry);
        changed
    } else {
        parts.push(entry);
        true
    }
}

// ---------------------------------------------------------------------------
// What to blur
// ---------------------------------------------------------------------------

/// The part is blurred: it is on the surface, and no hidden menu.
pub open spec fn is_wanted(entry: Part, surface: u64, include_menu: bool) -> bool {
    entry.surface == surface && (entry.tag != MENU_TAG || include_menu)
}

/// The rectangles of a surface that are blurred, in the coordinates of its output.
pub open spec fn wanted_rects(
    parts: Seq<Part>,
    surface: u64,
    include_menu: bool,
    menu: Placement,
) -> Seq<Rect>
    decreases parts.len(),
{
    if parts.len() == 0 {
        Seq::empty()
    } else {
        let before = wanted_rects(parts.drop_last(), surface, include_menu, menu);
        if is_wanted(parts.last(), surface, include_menu) {
            before.push(on_output(parts.last().rect, menu))
        } else {
            before
        }
    }
}

/// One rectangle stands before another, from top to bottom and then from left to right, or is
/// level with it.
pub open spec fn reading_order() -> spec_fn(Rect, Rect) -> bool {
    |a: Rect, b: Rect| a.y < b.y || (a.y == b.y && a.x <= b.x)
}

/// Rectangles with one more put in its place.
pub open spec fn with_rect(rects: Seq<Rect>, rect: Rect) -> Seq<Rect>
    decreases rects.len(),
{
    if rects.len() == 0 || reading_order()(rects.last(), rect) {
        rects.push(rect)
    } else {
        with_rect(rects.drop_last(), rect).push(rects.last())
    }
}

/// The rectangles in order, from top to bottom and then from left to right.
pub open spec fn arranged(rects: Seq<Rect>) -> Seq<Rect>
    decreases rects.len(),
{
    if rects.len() == 0 {
        rects
    } else {
        with_rect(arranged(rects.drop_last()), rects.last())
    }
}

proof fn lemma_with_rect(rects: Seq<Rect>, rect: Rect, i: int)
    requires
        0 <= i <= rects.len(),
        i > 0 ==> reading_order()(rects[i - 1], rect),
        forall|j: int| i <= j < rects.len() ==> !reading_order()(#[trigger] rects[j], rect),
    ensures
        with_rect(rects, rect) == rects.insert(i, rect),
    decreases rects.len(),
{
    if rects.len() > 0 && i < rects.len() {
        assert(!reading_order()(rects[rects.len() - 1], rect));
        let front = rects.drop_last();
        assert forall|j: int| i <= j < front.len() implies !reading_order()(
            #[trigger] front[j],
            rect,
        ) by {
            assert(front[j] == rects[j]);
        }
        lemma_with_rect(front, rect, i);
        assert(front.insert(i, rect).push(rects.last()) == rects.insert(i, rect));
    } else {
        assert(rects.push(rect) == rects.insert(i, rect));
    }
}

/// The rectangles of a surface that are blurred, in order.
pub fn arrange_wanted(
    parts: &Vec<Part>,
    surface: u64,
    include_menu: bool,
    menu: &Placement,
) -> (rects: Vec<Rect>)
    ensures
        rects@ == arranged(wanted_rects(parts@, surface, include_menu, *menu)),
{
    let mut rects: Vec<Rect> = Vec::new();
    for k in 0..parts.len()
        invariant
            rects@ == arranged(
                wanted_rects(parts@.take(k as int), surface, include_menu, *menu),
            ),
    {
        let ghost wanted = wanted_rects(parts@.take(k as int), surface, include_menu, *menu);
        proof {
            assert(parts@.take(k as int + 1).drop_last() == parts@.take(k as int));
            assert(parts@.take(k as int + 1).last() == parts@[k as int]);
        }
        if parts[k].surface == surface && (parts[k].tag != MENU_TAG || include_menu) {
            let rect = move_to_output(&parts[k].rect, menu);
            let mut i: usize = rects.len();
            while i > 0 && !(rects[i - 1].y < rect.y || (rects[i - 1].y == rect.y && rects[i - 1].x
                <= rect.x))
                invariant
                    i <= rects@.len(),
                    forall|j: int|
                        i <= j < rects@.len() ==> !reading_order()(#[trigger] rects@[j], rect),
                decreases i,
            {
                i = i - 1;
            }
            proof {
                lemma_with_rect(rects@, rect, i as int);
                assert(wanted.push(rect).drop_last() == wanted);
            }
            rects.insert(i, rect);
        }
    }
    proof {
        assert(parts@.take(parts@.len() as int) == parts@);
    }
    rects
}

/// Whether two lists hold the same rectangles in the same order.
pub fn same_rects(a: &Vec<Rect>, b: &Vec<Rect>) -> (same: bool)
    ensures
        same == (a@ == b@),
{
    if a.len() != b.len() {
        return false;
    }
    for i in 0..a.len()
        invariant
            a@.len() == b@.len(),
            forall|j: int| 0 <= j < i ==> a@[j] == b@[j],
    {
        if a[i] != b[i] {
            return false;
        }
    }
    proof {
        assert(a@ == b@);
    }
    true
}

/// A copy of a list of rectangles.
pub fn copy_rects(rects: &Vec<Rect>) -> (copy: Vec<Rect>)
    ensures
        copy@ == rects@,
{
    let mut copy: Vec<Rect> = Vec::new();
    for i in 0..rects.len()
        invariant
            copy@ == rects@.take(i as int),
    {
        copy.push(rects[i]);
    }
    copy
}

/// The surfaces with a dropdown menu, each once, in the order in which their menus were first
/// seen.
pub open spec fn menu_surfaces(parts: Seq<Part>) -> Seq<u64>
    decreases parts.len(),
{
    if parts.len() == 0 {
        Seq::empty()
    } else {
        let before = menu_surfaces(parts.drop_last());
        if parts.last().tag == MENU_TAG && !before.contains(parts.last().surface) {
            before.push(parts.last().surface)
        } else {
            before
        }
    }
}

/// The surfaces with a dropdown menu.
pub fn surfaces_with_menu(parts: &Vec<Part>) -> (surfaces: Vec<u64>)
    ensures
        surfaces@ == menu_surfaces(parts@),
{
    let mut surfaces: Vec<u64> = Vec::new();
    for k in 0..parts.len()
        invariant
            surfaces@ == menu_surfaces(parts@.take(k as int)),
    {
        proof {
            assert(parts@.take(k as int + 1).drop_last() == parts@.take(k as int));
            assert(parts@.take(k as int + 1).last() == parts@[k as int]);
        }
        if parts[k].tag == MENU_TAG {
            let surface: u64 = parts[k].surface;
            let mut seen = false;
            for i in 0..surfaces.len()
                invariant
                    seen == surfaces@.take(i as int).contains(surface),
            {
                proof {
                    let so_far = surfaces@.take(i as int);
                    let next = surfaces@.take(i as int + 1);
                    assert(next == so_far.push(surfaces@[i as int]));
                    if so_far.contains(surface) {
                        assert(next[so_far.index_of(surface)] == surface);
                    }
                    if surfaces@[i as int] == surface {
                        assert(next[i as int] == surface);
                    }
                }
                if surfaces[i] == surface {
                    seen = true;
                }
            }
            proof {
                assert(surfaces@.take(surfaces@.len() as int) == surfaces@);
            }
            if !seen {
                surfaces.push(surface);
            }
        }
    }
    proof {
        assert(parts@.take(parts@.len() as int) == parts@);
    }
    surfaces
}

// ---------------------------------------------------------------------------
// Laws
// ---------------------------------------------------------------------------

/// Arranging rectangles sorts them, and leaves level ones in the order in which they came.
pub proof fn law_arranged_is_sorted(rects: Seq<Rect>)
    ensures
        stably_sorted(arranged(rects), rects, reading_order()),
    decreases rects.len(),
{
    if rects.len() == 0 {
        lemma_empty::<Rect>(reading_order());
        assert(rects == Seq::<Rect>::empty());
    } else {
        let front = arranged(rects.drop_last());
        law_arranged_is_sorted(rects.drop_last());
        let rect = rects.last();
        let i = lemma_find_place(front, rect);
        lemma_with_rect(front, rect, i);
        assert(total_preorder(reading_order()));
        assert(insertion_point(front, rect, reading_order(), i)) by {
            assert forall|j: int| 0 <= j < i implies reading_order()(#[trigger] front[j], rect) by {
                if j < i - 1 {
                    assert(reading_order()(front[j], front[i - 1]));
                }
            }
        }
        lemma_insert(front, rects.drop_last(), rect, i, reading_order());
        assert(rects.drop_last().push(rect) == rects);
    }
}

proof fn lemma_find_place(rects: Seq<Rect>, rect: Rect) -> (i: int)
    ensures
        0 <= i <= rects.len(),
        i > 0 ==> reading_order()(rects[i - 1], rect),
        forall|j: int| i <= j < rects.len() ==> !reading_order()(#[trigger] rects[j], rect),
    decreases rects.len(),
{
    if rects.len() == 0 || reading_order()(rects.last(), rect) {
        rects.len() as int
    } else {
        let i = lemma_find_place(rects.drop_last(), rect);
        assert forall|j: int| i <= j < rects.len() implies !reading_order()(
            #[trigger] rects[j],
            rect,
        ) by {
            if j < rects.len() - 1 {
                assert(rects.drop_last()[j] == rects[j]);
            }
        }
        i
    }
}

/// What was taken down last is what is known, and nothing else changes.
pub proof fn law_tracking_is_exact(
    parts: Seq<Part>,
    surface: u64,
    tag: u8,
    rect: Rect,
    other_surface: u64,
    other_tag: u8,
)
    ensures
        seen_rect(parts_with(parts, surface, tag, rect), other_surface, other_tag) == (if (
        other_surface, other_tag) == (surface, tag) {
            Some(rect)
        } else {
            seen_rect(parts, other_surface, other_tag)
        }),
    decreases parts.len(),
{
    let after = parts_with(parts, surface, tag, rect);
    let at = entry_index(parts, surface, tag);
    lemma_first_entry(parts, surface, tag);
    lemma_first_entry(parts, other_surface, other_tag);
    let other = entry_index(parts, other_surface, other_tag);
    if (other_surface, other_tag) == (surface, tag) {
        assert forall|j: int| 0 <= j < at implies !((#[trigger] after[j]).surface == surface
            && after[j].tag == tag) by {
            assert(after[j] == parts[j]);
        }
        lemma_entry_index(after, surface, tag, at);
    } else {
        let end = if other < parts.len() {
            other
        } else {
            after.len() as int
        };
        assert forall|j: int| 0 <= j < end implies !((#[trigger] after[j]).surface
            == other_surface && after[j].tag == other_tag) by {
            if j < parts.len() && j != at {
                assert(after[j] == parts[j]);
            }
        }
        lemma_entry_index(after, other_surface, other_tag, end);
    }
}

proof fn lemma_first_entry(parts: Seq<Part>, surface: u64, tag: u8)
    ensures
        0 <= entry_index(parts, surface, tag) <= parts.len(),
        forall|j: int|
            0 <= j < entry_index(parts, surface, tag) ==> !((#[trigger] parts[j]).surface
                == surface && parts[j].tag == tag),
        entry_index(parts, surface, tag) < parts.len() ==> parts[entry_index(
            parts,
            surface,
            tag,
        )].surface == surface && parts[entry_index(parts, surface, tag)].tag == tag,
    decreases parts.len(),
{
    if parts.len() > 0 && !(parts[0].surface == surface && parts[0].tag == tag) {
        let rest = parts.drop_first();
        lemma_first_entry(rest, surface, tag);
        assert forall|j: int| 0 <= j < entry_index(parts, surface, tag) implies !((
        #[trigger] parts[j]).surface == surface && parts[j].tag == tag) by {
            if j > 0 {
                assert(parts[j] == rest[j - 1]);
            }
        }
    }
}

}
