//! Keyboard layouts: which of the configured ones are known, and how a choice is written back.
use crate::text::{
    clone_opt, join, law_join_split, law_split_join, opt_text, split, split_terminated,
    split_terminator, texts,
};
use vstd::prelude::*;
use vstd::string::*;

verus! {

broadcast use vstd::string::group_string_axioms;

/// The keyboard settings of the compositor. `layout` and `variant` are parallel lists with commas
/// between their entries.
#[derive(Debug, PartialEq, Eq)]
pub struct XkbConfig {
    pub rules: String,
    pub model: String,
    pub layout: String,
    pub variant: String,
    pub options: Option<String>,
    /// The settings besides these, such as how fast keys repeat, in the notation of the
    /// compositor's settings.
    pub rest: String,
}

impl XkbConfig {
    /// A copy of the settings.
    pub fn copy(&self) -> (copy: XkbConfig)
        ensures
            copy == *self,
    {
        XkbConfig {
            rules: self.rules.clone(),
            model: self.model.clone(),
            layout: self.layout.clone(),
            variant: self.variant.clone(),
            options: clone_opt(&self.options),
            rest: self.rest.clone(),
        }
    }
}

/// A variant of a keyboard layout that the system knows.
#[derive(Debug, PartialEq, Eq)]
pub struct KeyboardVariant {
    pub name: String,
    pub description: String,
}

/// A keyboard layout that the system knows.
#[derive(Debug, PartialEq, Eq)]
pub struct KeyboardLayout {
    pub name: String,
    pub description: String,
    pub variants: Option<Vec<KeyboardVariant>>,
}

/// All keyboard layouts that the system knows.
#[derive(Debug, PartialEq, Eq)]
pub struct KeyboardLayouts {
    pub layouts: Vec<KeyboardLayout>,
}

/// A keyboard layout that the user can switch to.
#[derive(Debug, PartialEq, Eq)]
pub struct ActiveLayout {
    pub layout: String,
    pub description: String,
    pub variant: String,
}

/// What an [`ActiveLayout`] says.
pub struct LayoutModel {
    pub layout: Seq<char>,
    pub description: Seq<char>,
    pub variant: Seq<char>,
}

impl View for ActiveLayout {
    type V = LayoutModel;

    open spec fn view(&self) -> LayoutModel {
        LayoutModel {
            layout: self.layout@,
            description: self.description@,
            variant: self.variant@,
        }
    }
}

/// What a list of layouts says.
pub open spec fn models(active: Seq<ActiveLayout>) -> Seq<LayoutModel> {
    active.map_values(|a: ActiveLayout| a@)
}

// ---------------------------------------------------------------------------
// Recognising configured layouts
// ---------------------------------------------------------------------------

/// The description of the first variant with this name.
pub open spec fn find_variant(variants: Seq<KeyboardVariant>, name: Seq<char>) -> Option<Seq<char>>
    decreases variants.len(),
{
    if variants.len() == 0 {
        None
    } else if variants[0].name@ == name {
        Some(variants[0].description@)
    } else {
        find_variant(variants.drop_first(), name)
    }
}

/// What `known` calls the pair, if it is this layout: without a variant the layout's own
/// description, otherwise that of the variant.
pub open spec fn describe(known: KeyboardLayout, layout: Seq<char>, variant: Seq<char>) -> Option<
    Seq<char>,
> {
    if known.name@ != layout {
        None
    } else if variant.len() == 0 {
        Some(known.description@)
    } else {
        match known.variants {
            Some(variants) => find_variant(variants@, variant),
            None => None,
        }
    }
}

/// The description of the first known layout that has this name and variant.
pub open spec fn find_layout(
    known: Seq<KeyboardLayout>,
    layout: Seq<char>,
    variant: Seq<char>,
) -> Option<Seq<char>>
    decreases known.len(),
{
    if known.len() == 0 {
        None
    } else {
        match describe(known[0], layout, variant) {
            Some(description) => Some(description),
            None => find_layout(known.drop_first(), layout, variant),
        }
    }
}

/// Entry `i` of a list that goes on with empty entries.
pub open spec fn entry_or_empty(list: Seq<Seq<char>>, i: int) -> Seq<char> {
    if i < list.len() {
        list[i]
    } else {
        Seq::empty()
    }
}

/// The known layouts among `names`, in order, each with the variant at its place.
pub open spec fn recognised(
    known: Seq<KeyboardLayout>,
    names: Seq<Seq<char>>,
    variants: Seq<Seq<char>>,
) -> Seq<LayoutModel>
    decreases names.len(),
{
    if names.len() == 0 {
        Seq::empty()
    } else {
        let before = recognised(known, names.drop_last(), variants);
        let layout = names.last();
        let variant = entry_or_empty(variants, names.len() - 1);
        match find_layout(known, layout, variant) {
            Some(description) => before.push(LayoutModel { layout, description, variant }),
            None => before,
        }
    }
}

/// The layouts that a pair of comma-separated lists asks for and that are known.
pub open spec fn configured(
    known: Seq<KeyboardLayout>,
    layout: Seq<char>,
    variant: Seq<char>,
) -> Seq<LayoutModel> {
    recognised(known, split_terminated(layout, ','), split_terminated(variant, ','))
}

fn variant_description(variants: &Vec<KeyboardVariant>, name: &String) -> (found: Option<String>)
    ensures
        opt_text(found) == find_variant(variants@, name@),
{
    let mut i: usize = 0;
    proof {
        assert(variants@.skip(0) == variants@);
    }
    while i < variants.len()
        invariant
            i <= variants@.len(),
            find_variant(variants@, name@) == find_variant(variants@.skip(i as int), name@),
        decreases variants@.len() - i,
    {
        if variants[i].name == *name {
            return Some(variants[i].description.clone());
        }
        proof {
            assert(variants@.skip(i as int).drop_first() == variants@.skip(i as int + 1));
        }
        i = i + 1;
    }
    None
}

fn describe_layout(known: &KeyboardLayout, layout: &String, variant: &String) -> (found: Option<
    String,
>)
    ensures
        opt_text(found) == describe(*known, layout@, variant@),
{
    if known.name != *layout {
        return None;
    }
    if variant.as_str().is_empty() {
        return Some(known.description.clone());
    }
    match &known.variants {
        Some(variants) => variant_description(variants, variant),
        None => None,
    }
}

fn layout_description(known: &Vec<KeyboardLayout>, layout: &String, variant: &String) -> (found:
    Option<String>)
    ensures
        opt_text(found) == find_layout(known@, layout@, variant@),
{
    let mut i: usize = 0;
    proof {
        assert(known@.skip(0) == known@);
    }
    while i < known.len()
        invariant
            i <= known@.len(),
            find_layout(known@, layout@, variant@) == find_layout(
                known@.skip(i as int),
                layout@,
                variant@,
            ),
        decreases known@.len() - i,
    {
        match describe_layout(&known[i], layout, variant) {
            Some(description) => {
                return Some(description);
            },
            None => {},
        }
        proof {
            assert(known@.skip(i as int).drop_first() == known@.skip(i as int + 1));
        }
        i = i + 1;
    }
    None
}

/// The layouts that the settings ask for and that are known.
pub fn configured_layouts(known: &KeyboardLayouts, config: &XkbConfig) -> (active: Vec<ActiveLayout>)
    ensures
        models(active@) == configured(known.layouts@, config.layout@, config.variant@),
{
    let names = split_terminator(config.layout.as_str(), ',');
    let variants = split_terminator(config.variant.as_str(), ',');
    let mut active: Vec<ActiveLayout> = Vec::new();
    for i in 0..names.len()
        invariant
            models(active@) == recognised(
                known.layouts@,
                texts(names@).take(i as int),
                texts(variants@),
            ),
    {
        let layout = names[i].clone();
        let variant = if i < variants.len() {
            variants[i].clone()
        } else {
            String::new()
        };
        let ghost before = active@;
        proof {
            assert(texts(names@).take(i as int + 1).drop_last() == texts(names@).take(i as int));
            assert(texts(names@).take(i as int + 1).last() == layout@);
            assert(variant@ == entry_or_empty(texts(variants@), i as int));
        }
        match layout_description(&known.layouts, &layout, &variant) {
            Some(description) => {
                let next = ActiveLayout { layout, description, variant };
                active.push(next);
                proof {
                    assert(models(active@) == models(before).push(next@));
                }
            },
            None => {},
        }
    }
    proof {
        assert(texts(names@).take(names@.len() as int) == texts(names@));
    }
    active
}

// ---------------------------------------------------------------------------
// Writing the active layouts back
// ---------------------------------------------------------------------------

/// The names of the layouts, with commas between them.
pub open spec fn layout_list(active: Seq<LayoutModel>) -> Seq<char> {
    join(active.map_values(|a: LayoutModel| a.layout), ',')
}

/// The variants of the layouts, with commas between them.
pub open spec fn variant_list(active: Seq<LayoutModel>) -> Seq<char> {
    join(active.map_values(|a: LayoutModel| a.variant), ',')
}

/// The settings with their layouts replaced by the active ones.
pub fn build_xkb_config(active: &Vec<ActiveLayout>, config: &XkbConfig) -> (built: XkbConfig)
    ensures
        built == (XkbConfig { layout: built.layout, variant: built.variant, ..*config }),
        built.layout@ == layout_list(models(active@)),
        built.variant@ == variant_list(models(active@)),
{
    let mut layout = String::new();
    let mut variant = String::new();
    let ghost ls = models(active@).map_values(|a: LayoutModel| a.layout);
    let ghost vs = models(active@).map_values(|a: LayoutModel| a.variant);
    proof {
        reveal_strlit(",");
    }
    for i in 0..active.len()
        invariant
            ls == models(active@).map_values(|a: LayoutModel| a.layout),
            vs == models(active@).map_values(|a: LayoutModel| a.variant),
            ","@ == seq![','],
            layout@ == join(ls.take(i as int), ','),
            variant@ == join(vs.take(i as int), ','),
    {
        let ghost l0 = layout@;
        let ghost v0 = variant@;
        if i > 0 {
            layout.append(",");
            variant.append(",");
        }
        layout.append(active[i].layout.as_str());
        variant.append(active[i].variant.as_str());
        proof {
            assert(ls.take(i as int + 1).drop_last() == ls.take(i as int));
            assert(vs.take(i as int + 1).drop_last() == vs.take(i as int));
            assert(ls.take(i as int + 1).last() == active@[i as int].layout@);
            assert(vs.take(i as int + 1).last() == active@[i as int].variant@);
            if i > 0 {
                assert(l0 + seq![','] == l0.push(','));
                assert(v0 + seq![','] == v0.push(','));
            } else {
                assert(l0 + active@[0].layout@ == active@[0].layout@);
                assert(v0 + active@[0].variant@ == active@[0].variant@);
            }
        }
    }
    proof {
        assert(ls.take(active@.len() as int) == ls);
        assert(vs.take(active@.len() as int) == vs);
    }
    XkbConfig {
        rules: config.rules.clone(),
        model: config.model.clone(),
        layout,
        variant,
        options: clone_opt(&config.options),
        rest: config.rest.clone(),
    }
}

// ---------------------------------------------------------------------------
// Choosing
// ---------------------------------------------------------------------------

/// `s` with its first item and item `i` exchanged.
pub open spec fn brought_to_front<A>(s: Seq<A>, i: int) -> Seq<A> {
    s.update(0, s[i]).update(i, s[0])
}

/// Exchanges the first layout and layout `i`.
pub fn bring_to_front(active: &mut Vec<ActiveLayout>, i: usize)
    requires
        i < old(active)@.len(),
    ensures
        final(active)@ == brought_to_front(old(active)@, i as int),
{
    let ghost before = active@;
    if i > 0 {
        let chosen = active.remove(i);
        let first = active.remove(0);
        active.insert(0, chosen);
        active.insert(i, first);
    }
    proof {
        assert(active@ == brought_to_front(before, i as int));
    }
}

/// `s` with its first item moved to the end.
pub open spec fn cycled<A>(s: Seq<A>) -> Seq<A> {
    if s.len() == 0 {
        s
    } else {
        s.drop_first().push(s[0])
    }
}

/// Moves the first layout to the end, so that the next one comes to the front.
pub fn cycle_layouts(active: &mut Vec<ActiveLayout>)
    ensures
        final(active)@ == cycled(old(active)@),
{
    if active.len() > 0 {
        let ghost before = active@;
        let first = active.remove(0);
        active.push(first);
        proof {
            assert(active@ == cycled(before));
        }
    }
}

// ---------------------------------------------------------------------------
// Laws
// ---------------------------------------------------------------------------

/// A layout as the settings can name it: known under its description, with a name, and without a
/// comma in either part.
pub open spec fn nameable(known: Seq<KeyboardLayout>, a: LayoutModel) -> bool {
    &&& find_layout(known, a.layout, a.variant) == Some(a.description)
    &&& a.layout.len() > 0
    &&& !a.layout.contains(',')
    &&& !a.variant.contains(',')
}

/// Every layout in the list is [`nameable`].
pub open spec fn all_nameable(known: Seq<KeyboardLayout>, active: Seq<LayoutModel>) -> bool {
    forall|i: int| 0 <= i < active.len() ==> nameable(known, #[trigger] active[i])
}

proof fn lemma_unnamed_unknown(known: Seq<KeyboardLayout>, variant: Seq<char>)
    requires
        forall|i: int| 0 <= i < known.len() ==> (#[trigger] known[i]).name@.len() > 0,
    ensures
        find_layout(known, Seq::empty(), variant) is None,
    decreases known.len(),
{
    if known.len() > 0 {
        assert(known[0].name@.len() > 0);
        let rest = known.drop_first();
        assert forall|i: int| 0 <= i < rest.len() implies (#[trigger] rest[i]).name@.len() > 0 by {
            assert(rest[i] == known[i + 1]);
        }
        lemma_unnamed_unknown(rest, variant);
    }
}

proof fn lemma_recognised_nameable(
    known: Seq<KeyboardLayout>,
    names: Seq<Seq<char>>,
    variants: Seq<Seq<char>>,
)
    requires
        forall|i: int| 0 <= i < known.len() ==> (#[trigger] known[i]).name@.len() > 0,
        forall|i: int| 0 <= i < names.len() ==> !#[trigger] names[i].contains(','),
        forall|i: int| 0 <= i < variants.len() ==> !#[trigger] variants[i].contains(','),
    ensures
        all_nameable(known, recognised(known, names, variants)),
    decreases names.len(),
{
    if names.len() > 0 {
        let front = names.drop_last();
        assert forall|i: int| 0 <= i < front.len() implies !#[trigger] front[i].contains(',') by {
            assert(front[i] == names[i]);
        }
        lemma_recognised_nameable(known, front, variants);
        let variant = entry_or_empty(variants, names.len() - 1);
        assert(!names[names.len() - 1].contains(','));
        if names.last().len() == 0 {
            assert(names.last() == Seq::<char>::empty());
            lemma_unnamed_unknown(known, variant);
        }
    }
}

/// What is recognised in any settings is [`nameable`], as long as every known layout has a name.
pub proof fn law_configured_are_nameable(
    known: Seq<KeyboardLayout>,
    layout: Seq<char>,
    variant: Seq<char>,
)
    requires
        forall|i: int| 0 <= i < known.len() ==> (#[trigger] known[i]).name@.len() > 0,
    ensures
        all_nameable(known, configured(known, layout, variant)),
{
    law_join_split(layout, ',');
    law_join_split(variant, ',');
    let names = split_terminated(layout, ',');
    let variants = split_terminated(variant, ',');
    assert forall|i: int| 0 <= i < names.len() implies !#[trigger] names[i].contains(',') by {
        assert(names[i] == split(layout, ',')[i]);
    }
    assert forall|i: int| 0 <= i < variants.len() implies !#[trigger] variants[i].contains(',') by {
        assert(variants[i] == split(variant, ',')[i]);
    }
    lemma_recognised_nameable(known, names, variants);
}

proof fn lemma_recognised_all(
    known: Seq<KeyboardLayout>,
    active: Seq<LayoutModel>,
    names: Seq<Seq<char>>,
    variants: Seq<Seq<char>>,
)
    requires
        all_nameable(known, active),
        names == active.map_values(|a: LayoutModel| a.layout),
        forall|i: int|
            0 <= i < active.len() ==> #[trigger] entry_or_empty(variants, i) == active[i].variant,
    ensures
        recognised(known, names, variants) == active,
    decreases active.len(),
{
    if active.len() > 0 {
        let front = active.drop_last();
        assert forall|i: int| 0 <= i < front.len() implies nameable(known, #[trigger] front[i]) by {
            assert(front[i] == active[i]);
        }
        assert forall|i: int| 0 <= i < front.len() implies #[trigger] entry_or_empty(variants, i)
            == front[i].variant by {
            assert(front[i] == active[i]);
        }
        assert(names.drop_last() == front.map_values(|a: LayoutModel| a.layout));
        lemma_recognised_all(known, front, names.drop_last(), variants);
        let n = active.len() - 1;
        assert(nameable(known, active[n]));
        assert(entry_or_empty(variants, n) == active[n].variant);
        assert(front.push(active[n]) == active);
    }
}

/// Reading back what was written gives the active layouts back, in their order.
pub proof fn law_layouts_round_trip(known: Seq<KeyboardLayout>, active: Seq<LayoutModel>)
    requires
        all_nameable(known, active),
    ensures
        configured(known, layout_list(active), variant_list(active)) == active,
{
    let names = active.map_values(|a: LayoutModel| a.layout);
    let variants = active.map_values(|a: LayoutModel| a.variant);
    if active.len() == 0 {
        assert(split(Seq::<char>::empty(), ',') == seq![Seq::<char>::empty()]);
        assert(split_terminated(layout_list(active), ',').len() == 0);
        assert(active == Seq::<LayoutModel>::empty());
    } else {
        assert forall|i: int| 0 <= i < names.len() implies !#[trigger] names[i].contains(',') by {
            assert(nameable(known, active[i]));
        }
        assert forall|i: int| 0 <= i < variants.len() implies !#[trigger] variants[i].contains(
            ',',
        ) by {
            assert(nameable(known, active[i]));
        }
        law_split_join(names, ',');
        law_split_join(variants, ',');
        assert(nameable(known, active[active.len() - 1]));
        assert(split_terminated(layout_list(active), ',') == names);
        let read = split_terminated(variant_list(active), ',');
        assert forall|i: int| 0 <= i < active.len() implies #[trigger] entry_or_empty(read, i)
            == active[i].variant by {
            assert(variants[i] == active[i].variant);
            if i >= read.len() {
                assert(variants.last() == Seq::<char>::empty());
            }
        }
        lemma_recognised_all(known, active, names, read);
    }
}

/// As many variants are written as layouts: the two lists stay parallel.
pub proof fn law_lists_stay_parallel(known: Seq<KeyboardLayout>, active: Seq<LayoutModel>)
    requires
        all_nameable(known, active),
        active.len() > 0,
    ensures
        split(layout_list(active), ',').len() == active.len(),
        split(variant_list(active), ',').len() == active.len(),
        layout_list(active).len() > 0,
{
    let names = active.map_values(|a: LayoutModel| a.layout);
    let variants = active.map_values(|a: LayoutModel| a.variant);
    assert forall|i: int| 0 <= i < names.len() implies !#[trigger] names[i].contains(',') by {
        assert(nameable(known, active[i]));
    }
    assert forall|i: int| 0 <= i < variants.len() implies !#[trigger] variants[i].contains(',') by {
        assert(nameable(known, active[i]));
    }
    law_split_join(names, ',');
    law_split_join(variants, ',');
    assert(nameable(known, active[active.len() - 1]));
    assert(names.last().len() > 0);
}

/// Bringing a layout to the front and again the same place restores the order.
pub proof fn law_bring_to_front_undoes_itself<A>(s: Seq<A>, i: int)
    requires
        0 <= i < s.len(),
    ensures
        brought_to_front(brought_to_front(s, i), i) == s,
        brought_to_front(s, i)[0] == s[i],
        brought_to_front(s, i).to_multiset() == s.to_multiset(),
{
    broadcast use vstd::seq_lib::group_to_multiset_ensures;

    assert(brought_to_front(brought_to_front(s, i), i) == s);
    assert(brought_to_front(s, i).to_multiset() =~= s.to_multiset());
}

proof fn lemma_brought_to_front_item<A>(s: Seq<A>, i: int, j: int)
    requires
        0 <= i < s.len(),
        0 <= j < s.len(),
    ensures
        brought_to_front(s, i)[j] == (if j == i {
            s[0]
        } else if j == 0 {
            s[i]
        } else {
            s[j]
        }),
{
    let first = s.update(0, s[i]);
    assert(first[j] == if j == 0 {
        s[i]
    } else {
        s[j]
    });
    assert(first.update(i, s[0])[j] == if j == i {
        s[0]
    } else {
        first[j]
    });
}

/// Choosing a layout keeps the list [`nameable`].
pub proof fn law_choosing_keeps_nameable(
    known: Seq<KeyboardLayout>,
    active: Seq<LayoutModel>,
    i: int,
)
    requires
        all_nameable(known, active),
        0 <= i < active.len(),
    ensures
        all_nameable(known, brought_to_front(active, i)),
        all_nameable(known, cycled(active)),
{
    assert(nameable(known, active[i]));
    assert(nameable(known, active[0]));
    let swapped = brought_to_front(active, i);
    assert forall|j: int| 0 <= j < swapped.len() implies nameable(known, #[trigger] swapped[j]) by {
        assert(nameable(known, active[j]));
        lemma_brought_to_front_item(active, i, j);
    }
    let moved = cycled(active);
    assert forall|j: int| 0 <= j < moved.len() implies nameable(known, #[trigger] moved[j]) by {
        if j + 1 < active.len() {
            assert(moved[j] == active[j + 1]);
        }
    }
}

/// `s` cycled `n` times.
pub open spec fn cycled_times<A>(s: Seq<A>, n: nat) -> Seq<A>
    decreases n,
{
    if n == 0 {
        s
    } else {
        cycled(cycled_times(s, (n - 1) as nat))
    }
}

proof fn lemma_cycled_times<A>(s: Seq<A>, n: nat)
    requires
        n <= s.len(),
    ensures
        cycled_times(s, n) == s.skip(n as int) + s.take(n as int),
    decreases n,
{
    if n == 0 {
        assert(s.skip(0) + s.take(0) == s);
    } else {
        let m = (n - 1) as nat;
        lemma_cycled_times(s, m);
        let t = s.skip(m as int) + s.take(m as int);
        assert(cycled(t) == s.skip(n as int) + s.take(n as int));
    }
}

/// Cycling once through all layouts comes back to where it started.
pub proof fn law_cycling_through_returns<A>(s: Seq<A>)
    ensures
        cycled_times(s, s.len()) == s,
{
    lemma_cycled_times(s, s.len());
    assert(s.skip(s.len() as int) + s.take(s.len() as int) == s);
}

}
