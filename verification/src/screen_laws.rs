//! What holds of where things are on the screen, of the battery's icon and of keyboard layouts.
use crate::battery::{battery_icon, battery_step, clamped_level};
use crate::geometry::{
    changed_placement, menu_corner, menu_placement, menu_width, on_output, output_size, Placement,
    Rect,
};
use crate::keyboard::{
    brought_to_front, configured, cycled, entry_or_empty, find_layout, find_variant, layout_list,
    recognised, variant_list, KeyboardLayout, KeyboardVariant, LayoutModel,
};
use crate::rects::{arranged, law_arranged_is_sorted, menu_surfaces, wanted_rects, Part};
use crate::text::decimal;
use vstd::prelude::*;

verus! {

// ---------------------------------------------------------------------------
// Menus
// ---------------------------------------------------------------------------

/// The menu is 800 wide, or as wide as an output that is smaller; it stands 32 below the top and
/// reaches down to the bottom.
pub proof fn law_menu_fills_its_place(size: (u32, u32))
    ensures
        size.0 >= 800 ==> menu_placement(size).width == 800,
        size.0 <= 800 ==> menu_placement(size).width == size.0,
        menu_placement(size).left_halves == size.0 - menu_placement(size).width,
        menu_placement(size).top == 32,
        menu_placement(size).top + menu_placement(size).height == size.1,
        size.0 > 800 ==> changed_placement(size) == menu_placement(size),
        size.0 <= 800 ==> changed_placement(size) == (Placement {
            left_halves: 0,
            top: 0,
            width: 1920,
            height: 1080,
        }),
{
}

/// A menu that is moved stays in the middle of its window, up to half a pixel, and never left of it.
pub proof fn law_moved_menu_stays_in_the_middle(width: u32)
    ensures
        menu_corner(width).1 == 32,
        width > 800 ==> 2 * menu_corner(width).0 + 800 <= width <= 2 * menu_corner(width).0 + 801,
        width <= 800 ==> menu_corner(width).0 == 0,
        menu_width(Some(width)) <= width && menu_width(Some(width)) <= 800,
        menu_width(Some(width)) == width || menu_width(Some(width)) == 800,
        menu_width(None) == 800,
{
}

/// An output has the size that it tells, and the usual one until it does.
pub proof fn law_outputs_have_their_size(width: i32, height: i32)
    requires
        width >= 0,
        height >= 0,
    ensures
        output_size(Some((width, height))).0 == width,
        output_size(Some((width, height))).1 == height,
        output_size(None) == (1920u32, 1080u32),
{
}

// ---------------------------------------------------------------------------
// Rectangles
// ---------------------------------------------------------------------------

/// A rectangle keeps its size, and is moved by as much as its menu stands away from the corner of the
/// output, to the nearest whole pixel.
pub proof fn law_rectangles_move_with_their_menu(rect: Rect, menu: Placement)
    requires
        -0x2000_0000 <= rect.x <= 0x2000_0000,
        -0x2000_0000 <= rect.y <= 0x2000_0000,
        -0x2000_0000 <= menu.left_halves <= 0x2000_0000,
        -0x2000_0000 <= menu.top <= 0x2000_0000,
    ensures
        on_output(rect, menu).width == rect.width,
        on_output(rect, menu).height == rect.height,
        on_output(rect, menu).y == rect.y + menu.top,
        menu.left_halves % 2 == 0 ==> 2 * on_output(rect, menu).x == 2 * rect.x + menu.left_halves,
        -1 <= 2 * on_output(rect, menu).x - (2 * rect.x + menu.left_halves) <= 1,
{
}

/// Which parts of a surface are blurred is decided for each part by itself: those on the surface, and
/// of these the dropdown menu only where it is wanted; in the order in which they were seen.
pub proof fn law_parts_are_wanted_one_by_one(
    before: Seq<Part>,
    part: Part,
    after: Seq<Part>,
    surface: u64,
    include_menu: bool,
    menu: Placement,
)
    ensures
        wanted_rects(before + seq![part] + after, surface, include_menu, menu) == wanted_rects(
            before,
            surface,
            include_menu,
            menu,
        ) + (if part.surface == surface && (part.tag != 1 || include_menu) {
            seq![on_output(part.rect, menu)]
        } else {
            Seq::empty()
        }) + wanted_rects(after, surface, include_menu, menu),
        wanted_rects(Seq::empty(), surface, include_menu, menu).len() == 0,
    decreases after.len(),
{
    let whole = before + seq![part] + after;
    if after.len() == 0 {
        assert(whole.drop_last() == before);
        assert(whole.last() == part);
        assert(wanted_rects(after, surface, include_menu, menu) == Seq::<Rect>::empty());
    } else {
        let less = after.drop_last();
        law_parts_are_wanted_one_by_one(before, part, less, surface, include_menu, menu);
        assert(whole.drop_last() == before + seq![part] + less);
        assert(whole.last() == after.last());
    }
}

/// The rectangles are told from top to bottom and from left to right, every one of them as often as it
/// is there.
pub proof fn law_rectangles_are_told_in_reading_order(rects: Seq<Rect>)
    ensures
        forall|i: int, j: int|
            0 <= i < j < arranged(rects).len() ==> {
                let (a, b) = (#[trigger] arranged(rects)[i], #[trigger] arranged(rects)[j]);
                a.y < b.y || (a.y == b.y && a.x <= b.x)
            },
        arranged(rects).to_multiset() == rects.to_multiset(),
{
    law_arranged_is_sorted(rects);
}

/// Every surface that a dropdown menu was seen on is listed, once, and no other.
pub proof fn law_surfaces_with_a_menu_are_listed_once(parts: Seq<Part>)
    ensures
        menu_surfaces(parts).no_duplicates(),
        forall|surface: u64| #[trigger]
            menu_surfaces(parts).contains(surface) <==> exists|i: int|
                0 <= i < parts.len() && (#[trigger] parts[i]).tag == 1 && parts[i].surface == surface,
    decreases parts.len(),
{
    if parts.len() > 0 {
        let less = parts.drop_last();
        law_surfaces_with_a_menu_are_listed_once(less);
        let before = menu_surfaces(less);
        let after = menu_surfaces(parts);
        let last = parts[parts.len() - 1];
        assert forall|surface: u64| #[trigger] after.contains(surface) <==> exists|i: int|
            0 <= i < parts.len() && (#[trigger] parts[i]).tag == 1 && parts[i].surface == surface by {
            if before.contains(surface) {
                let i = choose|i: int|
                    0 <= i < less.len() && (#[trigger] less[i]).tag == 1 && less[i].surface
                        == surface;
                assert(parts[i].tag == 1 && parts[i].surface == surface);
                let k = choose|k: int| 0 <= k < before.len() && before[k] == surface;
                assert(after[k] == surface);
            }
            if after.contains(surface) && !before.contains(surface) {
                let k = choose|k: int| 0 <= k < after.len() && after[k] == surface;
                assert(k == before.len());
                assert(parts[parts.len() - 1].tag == 1);
            }
            if exists|i: int|
                0 <= i < parts.len() && (#[trigger] parts[i]).tag == 1 && parts[i].surface
                    == surface {
                let i = choose|i: int|
                    0 <= i < parts.len() && (#[trigger] parts[i]).tag == 1 && parts[i].surface
                        == surface;
                if i < less.len() {
                    assert(less[i].tag == 1 && less[i].surface == surface);
                    assert(before.contains(surface));
                } else if !before.contains(surface) {
                    assert(after[before.len() as int] == surface);
                }
            }
        }
    }
}

// ---------------------------------------------------------------------------
// Battery
// ---------------------------------------------------------------------------

/// The icon says how full the battery is, whether its charge is limited, and whether it is charging;
/// and a battery that is charged to a limit never has the two highest icons.
pub proof fn law_icon_says_what_the_battery_does(level: i64, on_battery: bool, limited: bool)
    ensures
        battery_icon(level, on_battery, limited) == "cosmic-applet-battery-level-"@ + decimal(
            battery_step(level, limited),
        ) + (match (limited, on_battery) {
            (false, true) => "-"@ + ""@ + ""@ + "symbolic"@,
            (false, false) => "-"@ + ""@ + "charging-"@ + "symbolic"@,
            (true, true) => "-"@ + "limited-"@ + ""@ + "symbolic"@,
            (true, false) => "-"@ + "limited-"@ + "charging-"@ + "symbolic"@,
        }),
        limited ==> battery_step(level, limited) <= 80,
        0 <= clamped_level(level) <= 100,
        0 <= level <= 100 ==> clamped_level(level) == level,
        level < 0 ==> clamped_level(level) == 0,
        level > 100 ==> clamped_level(level) == 100,
{
    let icon = battery_icon(level, on_battery, limited);
    let (a, b) = ("cosmic-applet-battery-level-"@, decimal(battery_step(level, limited)));
    let l = if limited {
        "limited-"@
    } else {
        ""@
    };
    let c = if on_battery {
        ""@
    } else {
        "charging-"@
    };
    assert(icon == a + b + "-"@ + l + c + "symbolic"@);
    assert(icon == a + b + ("-"@ + l + c + "symbolic"@));
}

/// Up to which level each icon is shown, on a battery that is charged all the way.
pub proof fn law_icons_change_at_their_levels(level: i64)
    requires
        0 <= level <= 100,
    ensures
        ({
            let step = battery_step(level, false);
            &&& step == 100 <==> 96 <= level
            &&& step == 90 <==> 81 <= level <= 95
            &&& step == 80 <==> 66 <= level <= 80
            &&& step == 50 <==> 36 <= level <= 65
            &&& step == 35 <==> 21 <= level <= 35
            &&& step == 20 <==> 15 <= level <= 20
            &&& step == 10 <==> 10 <= level <= 14
            &&& step == 5 <==> 6 <= level <= 9
            &&& step == 0 <==> level <= 5
        }),
        battery_step(level, true) == (if level > 65 {
            80
        } else {
            battery_step(level, false)
        }),
{
}

// ---------------------------------------------------------------------------
// Keyboard layouts
// ---------------------------------------------------------------------------

/// The first variant of this name, at `i`, is described so.
pub open spec fn is_first_variant(
    variants: Seq<KeyboardVariant>,
    i: int,
    name: Seq<char>,
    description: Seq<char>,
) -> bool {
    &&& 0 <= i < variants.len()
    &&& variants[i].name@ == name
    &&& variants[i].description@ == description
    &&& forall|j: int| 0 <= j < i ==> (#[trigger] variants[j]).name@ != name
}

/// A variant is found by its name, the first of it, and not found only where there is none.
pub proof fn law_variants_are_found_by_name(variants: Seq<KeyboardVariant>, name: Seq<char>)
    ensures
        match find_variant(variants, name) {
            Some(description) => exists|i: int| #[trigger]
                is_first_variant(variants, i, name, description),
            None => forall|i: int|
                0 <= i < variants.len() ==> (#[trigger] variants[i]).name@ != name,
        },
    decreases variants.len(),
{
    if variants.len() == 0 {
        assert(find_variant(variants, name) is None);
    } else if variants[0].name@ == name {
        assert(is_first_variant(variants, 0, name, variants[0].description@));
        assert(find_variant(variants, name) == Some(variants[0].description@));
        assert(is_first_variant(variants, 0, name, find_variant(variants, name)->0));
        assert(exists|i: int| #[trigger] is_first_variant(variants, i, name, find_variant(variants, name)->0));
    } else {
        let rest = variants.drop_first();
        law_variants_are_found_by_name(rest, name);
        assert(find_variant(variants, name) == find_variant(rest, name));
        if find_variant(rest, name) is Some {
            let description = find_variant(rest, name)->0;
            let i = choose|i: int| #[trigger] is_first_variant(rest, i, name, description);
            let at = i + 1;
            assert forall|j: int| 0 <= j < at implies (#[trigger] variants[j]).name@ != name by {
                if j > 0 {
                    assert(rest[j - 1] == variants[j]);
                }
            }
            assert(variants[at] == rest[i]);
            assert(is_first_variant(variants, at, name, description));
            assert(exists|i: int| #[trigger] is_first_variant(variants, i, name, find_variant(variants, name)->0));
        } else {
            assert forall|i: int| 0 <= i < variants.len() implies (#[trigger] variants[i]).name@
                != name by {
                if i > 0 {
                    assert(rest[i - 1] == variants[i]);
                }
            }
        }
    }
}

/// A known layout has this name, and goes by this description: its own without a variant, and that of
/// the variant otherwise.
pub open spec fn is_called(
    known: KeyboardLayout,
    layout: Seq<char>,
    variant: Seq<char>,
    description: Seq<char>,
) -> bool {
    &&& known.name@ == layout
    &&& if variant.len() == 0 {
        known.description@ == description
    } else {
        known.variants is Some && exists|i: int| #[trigger]
            is_first_variant(known.variants->0@, i, variant, description)
    }
}

/// A layout is recognised where a known one has its name and its variant, and goes by the description
/// that this one has; it is not recognised only where there is none.
pub proof fn law_layouts_are_recognised_by_name(
    known: Seq<KeyboardLayout>,
    layout: Seq<char>,
    variant: Seq<char>,
)
    ensures
        match find_layout(known, layout, variant) {
            Some(description) => exists|i: int|
                0 <= i < known.len() && is_called(
                    #[trigger] known[i],
                    layout,
                    variant,
                    description,
                ),
            None => forall|i: int, description: Seq<char>|
                0 <= i < known.len() ==> !#[trigger] is_called(
                    known[i],
                    layout,
                    variant,
                    description,
                ),
        },
    decreases known.len(),
{
    if known.len() > 0 {
        let rest = known.drop_first();
        if known[0].variants is Some {
            law_variants_are_found_by_name(known[0].variants->0@, variant);
        }
        law_layouts_are_recognised_by_name(rest, layout, variant);
        match crate::keyboard::describe(known[0], layout, variant) {
            Some(description) => {
                assert(is_called(known[0], layout, variant, description));
            },
            None => {
                match find_layout(rest, layout, variant) {
                    Some(description) => {
                        let i = choose|i: int|
                            0 <= i < rest.len() && is_called(
                                #[trigger] rest[i],
                                layout,
                                variant,
                                description,
                            );
                        assert(is_called(known[i + 1], layout, variant, description));
                    },
                    None => {
                        assert forall|i: int, description: Seq<char>|
                            0 <= i < known.len() implies !#[trigger] is_called(
                            known[i],
                            layout,
                            variant,
                            description,
                        ) by {
                            if i > 0 {
                                assert(rest[i - 1] == known[i]);
                                assert(!is_called(rest[i - 1], layout, variant, description));
                            }
                        }
                    },
                }
            },
        }
    }
}

/// `active` are the entries at the places `from`, in their order, each with its variant, and these are
/// all that are recognised.
pub open spec fn lists_all_recognised(
    active: Seq<LayoutModel>,
    known: Seq<KeyboardLayout>,
    names: Seq<Seq<char>>,
    variants: Seq<Seq<char>>,
    from: Seq<int>,
) -> bool {
    &&& from.len() == active.len()
    &&& forall|k: int|
        0 <= k < from.len() ==> {
            let i = #[trigger] from[k];
            &&& 0 <= i < names.len()
            &&& active[k].layout == names[i]
            &&& i < variants.len() ==> active[k].variant == variants[i]
            &&& i >= variants.len() ==> active[k].variant.len() == 0
            &&& find_layout(known, active[k].layout, active[k].variant) == Some(
                active[k].description,
            )
        }
    &&& forall|j: int, k: int| 0 <= j < k < from.len() ==> #[trigger] from[j] < #[trigger] from[k]
    &&& forall|i: int|
        0 <= i < names.len() && find_layout(
            known,
            #[trigger] names[i],
            entry_or_empty(variants, i),
        ) is Some ==> from.contains(i)
}

proof fn lemma_lists_all_recognised(
    known: Seq<KeyboardLayout>,
    names: Seq<Seq<char>>,
    variants: Seq<Seq<char>>,
) -> (from: Seq<int>)
    ensures
        lists_all_recognised(recognised(known, names, variants), known, names, variants, from),
    decreases names.len(),
{
    if names.len() == 0 {
        Seq::empty()
    } else {
        let less = names.drop_last();
        let last = names.len() - 1;
        let before = recognised(known, less, variants);
        let after = recognised(known, names, variants);
        let from = lemma_lists_all_recognised(known, less, variants);
        let found = find_layout(known, names.last(), entry_or_empty(variants, last)) is Some;
        let out = if found {
            from.push(last)
        } else {
            from
        };
        assert forall|k: int| 0 <= k < out.len() implies {
            let i = #[trigger] out[k];
            &&& 0 <= i < names.len()
            &&& after[k].layout == names[i]
            &&& i < variants.len() ==> after[k].variant == variants[i]
            &&& i >= variants.len() ==> after[k].variant.len() == 0
            &&& find_layout(known, after[k].layout, after[k].variant) == Some(after[k].description)
        } by {
            if k < from.len() {
                assert(from[k] < less.len());
                assert(less[from[k]] == names[from[k]]);
                assert(after[k] == before[k]);
            }
        }
        assert forall|j: int, k: int| 0 <= j < k < out.len() implies #[trigger] out[j]
            < #[trigger] out[k] by {
            assert(from[j] < less.len());
            if k < from.len() {
                assert(from[j] < from[k]);
            }
        }
        assert forall|i: int|
            0 <= i < names.len() && find_layout(
                known,
                #[trigger] names[i],
                entry_or_empty(variants, i),
            ) is Some implies out.contains(i) by {
            if i < last {
                assert(less[i] == names[i]);
                assert(from.contains(i));
                let k = choose|k: int| 0 <= k < from.len() && from[k] == i;
                assert(out[k] == i);
            } else {
                assert(out[from.len() as int] == i);
            }
        }
        out
    }
}

/// Of the layouts that settings name all known ones are offered, in their order, each with the variant
/// at its place in the other list; nothing else is.
pub proof fn law_all_known_layouts_are_offered(
    known: Seq<KeyboardLayout>,
    layout: Seq<char>,
    variant: Seq<char>,
)
    ensures
        exists|from: Seq<int>| #[trigger]
            lists_all_recognised(
                configured(known, layout, variant),
                known,
                crate::text::split_terminated(layout, ','),
                crate::text::split_terminated(variant, ','),
                from,
            ),
{
    let names = crate::text::split_terminated(layout, ',');
    let variants = crate::text::split_terminated(variant, ',');
    let from = lemma_lists_all_recognised(known, names, variants);
    assert(lists_all_recognised(
        configured(known, layout, variant),
        known,
        names,
        variants,
        from,
    ));
}

/// A list with one more layout is the list from before, a comma, and the name or the variant of that
/// layout; a single one stands alone.
pub proof fn law_lists_grow_by_one(active: Seq<LayoutModel>, more: LayoutModel)
    ensures
        active.len() > 0 ==> layout_list(active.push(more)) == layout_list(active) + seq![','] + more.layout,
        active.len() > 0 ==> variant_list(active.push(more)) == variant_list(active) + seq![',']
            + more.variant,
        layout_list(seq![more]) == more.layout,
        variant_list(seq![more]) == more.variant,
        layout_list(Seq::empty()).len() == 0,
        variant_list(Seq::empty()).len() == 0,
{
    let l = |a: LayoutModel| a.layout;
    let v = |a: LayoutModel| a.variant;
    assert(active.push(more).map_values(l).drop_last() == active.map_values(l));
    assert(active.push(more).map_values(v).drop_last() == active.map_values(v));
    if active.len() > 0 {
        let (p, q) = (layout_list(active), variant_list(active));
        assert(p.push(',') + more.layout == p + seq![','] + more.layout);
        assert(q.push(',') + more.variant == q + seq![','] + more.variant);
    }
}

/// Switching on brings every layout one place nearer to the front, and the first one to the end.
pub proof fn law_cycling_moves_every_layout<A>(s: Seq<A>)
    ensures
        cycled(s).len() == s.len(),
        forall|i: int| 0 <= i < s.len() - 1 ==> #[trigger] cycled(s)[i] == s[i + 1],
        s.len() > 0 ==> cycled(s).last() == s[0],
{
}

/// Choosing a layout exchanges it with the first, and leaves all others in their places.
pub proof fn law_choosing_moves_two_layouts<A>(s: Seq<A>, i: int, j: int)
    requires
        0 <= i < s.len(),
        0 <= j < s.len(),
    ensures
        brought_to_front(s, i).len() == s.len(),
        brought_to_front(s, i)[0] == s[i],
        brought_to_front(s, i)[i] == s[0],
        j != 0 && j != i ==> brought_to_front(s, i)[j] == s[j],
{
    let first = s.update(0, s[i]);
    assert(first[j] == if j == 0 {
        s[i]
    } else {
        s[j]
    });
    assert(first[0] == s[i]);
}

}
