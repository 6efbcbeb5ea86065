//! Strings as sequences of characters: splitting, joining, searching, ordering and printing.
use vstd::prelude::*;
use vstd::string::*;

verus! {

broadcast use vstd::string::group_string_axioms;

/// The contents of a list of strings.
pub open spec fn texts(list: Seq<String>) -> Seq<Seq<char>> {
    list.map_values(|s: String| s@)
}

/// The contents of an optional string.
pub open spec fn opt_text(s: Option<String>) -> Option<Seq<char>> {
    match s {
        Some(s) => Some(s@),
        None => None,
    }
}

/// The characters of `text`.
pub fn chars_of(text: &str) -> (chars: Vec<char>)
    ensures
        chars@ == text@,
{
    let mut chars: Vec<char> = Vec::new();
    for c in it: text.chars()
        invariant
            it.seq() == text@,
            chars@ == text@.take(it.index()),
    {
        chars.push(c);
    }
    chars
}

/// Whether two strings hold the same characters.
pub fn str_eq(a: &str, b: &str) -> (same: bool)
    ensures
        same == (a@ == b@),
{
    a.to_owned() == b.to_owned()
}

/// A copy of an optional string.
pub fn clone_opt(s: &Option<String>) -> (copy: Option<String>)
    ensures
        copy == *s,
{
    match s {
        Some(s) => Some(s.clone()),
        None => None,
    }
}

/// A copy of a list of strings.
pub fn clone_list(list: &Vec<String>) -> (copy: Vec<String>)
    ensures
        copy@ == list@,
{
    let mut copy: Vec<String> = Vec::new();
    for i in 0..list.len()
        invariant
            copy@ == list@.take(i as int),
    {
        copy.push(list[i].clone());
    }
    copy
}

// ---------------------------------------------------------------------------
// Splitting
// ---------------------------------------------------------------------------

/// The pieces of `s` between occurrences of `sep`, in order. There is always at least one.
pub open spec fn split(s: Seq<char>, sep: char) -> Seq<Seq<char>>
    decreases s.len(),
{
    if s.len() == 0 {
        seq![s]
    } else {
        let before = split(s.drop_last(), sep);
        if s.last() == sep {
            before.push(Seq::empty())
        } else {
            before.drop_last().push(before.last().push(s.last()))
        }
    }
}

/// The pieces of `s` between occurrences of `sep`, without the last one if it is empty.
pub open spec fn split_terminated(s: Seq<char>, sep: char) -> Seq<Seq<char>> {
    let pieces = split(s, sep);
    if pieces.last().len() == 0 {
        pieces.drop_last()
    } else {
        pieces
    }
}

pub proof fn lemma_split_nonempty(s: Seq<char>, sep: char)
    ensures
        split(s, sep).len() >= 1,
    decreases s.len(),
{
    if s.len() > 0 {
        lemma_split_nonempty(s.drop_last(), sep);
    }
}

/// Splits `text` on every occurrence of `sep`.
pub fn split_on(text: &str, sep: char) -> (pieces: Vec<String>)
    ensures
        texts(pieces@) == split(text@, sep),
        pieces@.len() >= 1,
{
    let chars = chars_of(text);
    let mut pieces: Vec<String> = Vec::new();
    let mut start: usize = 0;
    proof {
        assert(text@.take(0) == Seq::<char>::empty());
        assert(text@.subrange(0, 0) == Seq::<char>::empty());
    }
    for i in 0..chars.len()
        invariant
            chars@ == text@,
            start <= i <= chars@.len(),
            split(text@.take(i as int), sep) == texts(pieces@).push(
                text@.subrange(start as int, i as int),
            ),
    {
        proof {
            assert(text@.take(i as int + 1).drop_last() == text@.take(i as int));
        }
        if chars[i] == sep {
            let ghost before = pieces@;
            let piece = text.substring_char(start, i).to_owned();
            pieces.push(piece);
            start = i + 1;
            proof {
                assert(texts(pieces@) == texts(before).push(piece@));
                assert(text@.subrange(start as int, i as int + 1) == Seq::<char>::empty());
            }
        } else {
            proof {
                assert(text@.subrange(start as int, i as int + 1) == text@.subrange(
                    start as int,
                    i as int,
                ).push(text@[i as int]));
                assert(texts(pieces@).push(text@.subrange(start as int, i as int)).drop_last()
                    == texts(pieces@));
            }
        }
    }
    let ghost before = pieces@;
    let last = text.substring_char(start, chars.len()).to_owned();
    pieces.push(last);
    proof {
        assert(text@.take(chars@.len() as int) == text@);
        assert(texts(pieces@) == texts(before).push(last@));
    }
    pieces
}

/// Splits `text` on every occurrence of `sep`; a trailing separator ends the last piece.
pub fn split_terminator(text: &str, sep: char) -> (pieces: Vec<String>)
    ensures
        texts(pieces@) == split_terminated(text@, sep),
{
    let mut pieces = split_on(text, sep);
    let ghost all = pieces@;
    let n = pieces.len();
    if pieces[n - 1].as_str().is_empty() {
        let _ = pieces.pop();
        proof {
            assert(texts(pieces@) == texts(all).drop_last());
        }
    }
    pieces
}

/// The part of `text` before the first `sep`, or all of it.
pub fn first_piece(text: &str, sep: char) -> (piece: String)
    ensures
        piece@ == split(text@, sep)[0],
{
    let pieces = split_on(text, sep);
    proof {
        assert(texts(pieces@)[0] == pieces@[0]@);
    }
    pieces[0].clone()
}

// ---------------------------------------------------------------------------
// Joining
// ---------------------------------------------------------------------------

/// `parts` one after another with `sep` between neighbours.
pub open spec fn join(parts: Seq<Seq<char>>, sep: char) -> Seq<char>
    decreases parts.len(),
{
    if parts.len() == 0 {
        Seq::empty()
    } else if parts.len() == 1 {
        parts[0]
    } else {
        join(parts.drop_last(), sep).push(sep) + parts.last()
    }
}

/// Appending characters other than `sep` only lengthens the last piece.
proof fn lemma_split_append(s: Seq<char>, sep: char, tail: Seq<char>)
    requires
        !tail.contains(sep),
    ensures
        split(s + tail, sep) == split(s, sep).drop_last().push(split(s, sep).last() + tail),
    decreases tail.len(),
{
    lemma_split_nonempty(s, sep);
    let pieces = split(s, sep);
    if tail.len() == 0 {
        assert(s + tail == s);
        assert(pieces.last() + tail == pieces.last());
        assert(pieces.drop_last().push(pieces.last()) == pieces);
    } else {
        let front = tail.drop_last();
        assert forall|c: char| front.contains(c) implies tail.contains(c) by {
            let i = choose|i: int| 0 <= i < front.len() && front[i] == c;
            assert(tail[i] == c);
        }
        lemma_split_append(s, sep, front);
        assert((s + tail).drop_last() == s + front);
        assert(tail.contains(tail.last()));
        let grown = pieces.drop_last().push(pieces.last() + front);
        assert(grown.drop_last() == pieces.drop_last());
        assert((pieces.last() + front).push(tail.last()) == pieces.last() + tail);
    }
}

/// Splitting what was joined gives the parts back, as long as no part holds the separator.
pub proof fn law_split_join(parts: Seq<Seq<char>>, sep: char)
    requires
        parts.len() >= 1,
        forall|i: int| 0 <= i < parts.len() ==> !#[trigger] parts[i].contains(sep),
    ensures
        split(join(parts, sep), sep) == parts,
    decreases parts.len(),
{
    if parts.len() == 1 {
        let none = Seq::<char>::empty();
        lemma_split_append(none, sep, parts[0]);
        assert(none + parts[0] == parts[0]);
        assert(split(none, sep) == seq![none]);
        assert(split(none, sep).drop_last().push(split(none, sep).last() + parts[0]) == parts);
    } else {
        let front = parts.drop_last();
        assert forall|i: int| 0 <= i < front.len() implies !#[trigger] front[i].contains(sep) by {
            assert(front[i] == parts[i]);
        }
        law_split_join(front, sep);
        let head = join(front, sep).push(sep);
        assert(head.drop_last() == join(front, sep));
        assert(split(head, sep) == front.push(Seq::empty()));
        lemma_split_append(head, sep, parts.last());
        assert(split(head, sep).drop_last() == front);
        assert(Seq::<char>::empty() + parts.last() == parts.last());
        assert(front.push(parts.last()) == parts);
    }
}

/// Joining the pieces of a string gives the string back.
pub proof fn law_join_split(s: Seq<char>, sep: char)
    ensures
        join(split(s, sep), sep) == s,
        forall|i: int|
            0 <= i < split(s, sep).len() ==> !#[trigger] split(s, sep)[i].contains(sep),
    decreases s.len(),
{
    if s.len() == 0 {
        assert(s == Seq::<char>::empty());
    } else {
        let front = s.drop_last();
        law_join_split(front, sep);
        lemma_split_nonempty(front, sep);
        let before = split(front, sep);
        let pieces = split(s, sep);
        assert(front.push(s.last()) == s);
        if s.last() == sep {
            assert(pieces.drop_last() == before);
            assert(join(before, sep).push(sep) + Seq::<char>::empty() == s);
        } else {
            assert(pieces.drop_last() == before.drop_last());
            let grown = before.last().push(s.last());
            assert forall|c: char| grown.contains(c) implies before.last().contains(c) || c
                == s.last() by {
                let i = choose|i: int| 0 <= i < grown.len() && grown[i] == c;
                if i < before.last().len() {
                    assert(before.last()[i] == c);
                }
            }
            if before.len() == 1 {
                assert(pieces == seq![grown]);
            } else {
                assert(join(before.drop_last(), sep).push(sep) + grown == (join(
                    before.drop_last(),
                    sep,
                ).push(sep) + before.last()).push(s.last()));
            }
        }
    }
}

// ---------------------------------------------------------------------------
// Searching and replacing
// ---------------------------------------------------------------------------

/// `needle` stands in `s` at position `at`.
pub open spec fn occurs_at(s: Seq<char>, needle: Seq<char>, at: int) -> bool {
    &&& 0 <= at
    &&& at + needle.len() <= s.len()
    &&& s.subrange(at, at + needle.len()) == needle
}

/// `needle` stands somewhere in `s`.
pub open spec fn occurs(s: Seq<char>, needle: Seq<char>) -> bool {
    exists|at: int| occurs_at(s, needle, at)
}

fn matches_at(s: &Vec<char>, needle: &Vec<char>, at: usize) -> (found: bool)
    requires
        at + needle@.len() <= s@.len(),
    ensures
        found == occurs_at(s@, needle@, at as int),
{
    for k in 0..needle.len()
        invariant
            at + needle.len() <= s.len(),
            forall|j: int| 0 <= j < k ==> s@[at + j] == needle@[j],
    {
        if s[at + k] != needle[k] {
            proof {
                let window = s@.subrange(at as int, at + needle@.len());
                assert(window[k as int] == s@[at + k]);
            }
            return false;
        }
    }
    proof {
        assert(s@.subrange(at as int, at + needle@.len()) == needle@);
    }
    true
}

/// Whether `needle` stands somewhere in `text`.
pub fn contains(text: &str, needle: &str) -> (found: bool)
    ensures
        found == occurs(text@, needle@),
{
    let s = chars_of(text);
    let n = chars_of(needle);
    if n.len() > s.len() {
        return false;
    }
    let last = s.len() - n.len();
    for at in 0..last
        invariant
            s@ == text@,
            n@ == needle@,
            last == s@.len() - n@.len(),
            forall|j: int| 0 <= j < at ==> !occurs_at(s@, n@, j),
    {
        if matches_at(&s, &n, at) {
            return true;
        }
    }
    matches_at(&s, &n, last)
}

/// Whether `c` is one of the characters of `text`.
pub fn contains_char(text: &str, c: char) -> (found: bool)
    ensures
        found == text@.contains(c),
{
    let s = chars_of(text);
    for i in 0..s.len()
        invariant
            s@ == text@,
            forall|j: int| 0 <= j < i ==> s@[j] != c,
    {
        if s[i] == c {
            return true;
        }
    }
    false
}

/// `s` with every `from` turned into `to`.
pub open spec fn replaced(s: Seq<char>, from: char, to: char) -> Seq<char> {
    s.map_values(|c: char| if c == from { to } else { c })
}

/// `text` with every underscore turned into a hyphen.
pub fn hyphenated(text: &str) -> (out: String)
    ensures
        out@ == replaced(text@, '_', '-'),
{
    let chars = chars_of(text);
    let mut out = String::new();
    proof {
        reveal_strlit("-");
    }
    for i in 0..chars.len()
        invariant
            chars@ == text@,
            "-"@ == seq!['-'],
            out@ == replaced(text@.take(i as int), '_', '-'),
    {
        proof {
            assert(text@.take(i as int + 1) == text@.take(i as int).push(text@[i as int]));
        }
        if chars[i] == '_' {
            out.append("-");
        } else {
            let one = text.substring_char(i, i + 1);
            proof {
                assert(one@ == seq![text@[i as int]]);
            }
            out.append(one);
        }
        proof {
            assert(out@ == replaced(text@.take(i as int + 1), '_', '-'));
        }
    }
    proof {
        assert(text@.take(chars@.len() as int) == text@);
    }
    out
}

// ---------------------------------------------------------------------------
// Ordering
// ---------------------------------------------------------------------------

/// Dictionary order by code point, which for strings is also the order of their bytes.
pub open spec fn text_le(a: Seq<char>, b: Seq<char>) -> bool
    decreases a.len(),
{
    if a.len() == 0 {
        true
    } else if b.len() == 0 {
        false
    } else if a[0] == b[0] {
        text_le(a.drop_first(), b.drop_first())
    } else {
        (a[0] as int) < (b[0] as int)
    }
}

pub proof fn lemma_text_le_total(a: Seq<char>, b: Seq<char>)
    ensures
        text_le(a, b) || text_le(b, a),
        text_le(a, b) && text_le(b, a) ==> a == b,
    decreases a.len(),
{
    if a.len() > 0 && b.len() > 0 && a[0] == b[0] {
        lemma_text_le_total(a.drop_first(), b.drop_first());
        if text_le(a, b) && text_le(b, a) {
            assert(a == seq![a[0]] + a.drop_first());
            assert(b == seq![b[0]] + b.drop_first());
        }
    }
}

pub proof fn lemma_text_le_transitive(a: Seq<char>, b: Seq<char>, c: Seq<char>)
    requires
        text_le(a, b),
        text_le(b, c),
    ensures
        text_le(a, c),
    decreases a.len(),
{
    if a.len() > 0 && a[0] == b[0] && b[0] == c[0] {
        lemma_text_le_transitive(a.drop_first(), b.drop_first(), c.drop_first());
    }
}

fn code_below(p: char, q: char) -> (below: bool)
    ensures
        below == ((p as int) < (q as int)),
{
    (p as u32) < (q as u32)
}

/// Whether `a` comes before `b` in dictionary order, or equals it.
pub fn text_at_most(a: &str, b: &str) -> (le: bool)
    ensures
        le == text_le(a@, b@),
{
    let x = chars_of(a);
    let y = chars_of(b);
    let mut i: usize = 0;
    proof {
        assert(x@.skip(0) == x@);
        assert(y@.skip(0) == y@);
    }
    while i < x.len()
        invariant
            x@ == a@,
            y@ == b@,
            i <= x@.len(),
            i <= y@.len(),
            text_le(a@, b@) == text_le(x@.skip(i as int), y@.skip(i as int)),
        decreases x@.len() - i,
    {
        if i >= y.len() {
            return false;
        }
        let p: char = x[i];
        let q: char = y[i];
        if p != q {
            return code_below(p, q);
        }
        proof {
            assert(x@.skip(i as int).drop_first() == x@.skip(i as int + 1));
            assert(y@.skip(i as int).drop_first() == y@.skip(i as int + 1));
        }
        i = i + 1;
    }
    true
}

// ---------------------------------------------------------------------------
// Printing numbers
// ---------------------------------------------------------------------------

/// The decimal notation of `n`, without leading zeros.
pub open spec fn decimal(n: nat) -> Seq<char>
    decreases n,
{
    let digit = (48 + n % 10) as char;
    if n < 10 {
        seq![digit]
    } else {
        decimal(n / 10).push(digit)
    }
}

fn digit_text(d: usize) -> (digit: &'static str)
    requires
        d < 10,
    ensures
        digit@ == seq![(48 + d) as char],
{
    proof {
        reveal_strlit("0");
        reveal_strlit("1");
        reveal_strlit("2");
        reveal_strlit("3");
        reveal_strlit("4");
        reveal_strlit("5");
        reveal_strlit("6");
        reveal_strlit("7");
        reveal_strlit("8");
        reveal_strlit("9");
    }
    if d == 0 {
        "0"
    } else if d == 1 {
        "1"
    } else if d == 2 {
        "2"
    } else if d == 3 {
        "3"
    } else if d == 4 {
        "4"
    } else if d == 5 {
        "5"
    } else if d == 6 {
        "6"
    } else if d == 7 {
        "7"
    } else if d == 8 {
        "8"
    } else {
        "9"
    }
}

/// The decimal notation of `n`.
pub fn decimal_text(n: usize) -> (out: String)
    ensures
        out@ == decimal(n as nat),
    decreases n,
{
    if n < 10 {
        digit_text(n).to_owned()
    } else {
        let mut out = decimal_text(n / 10);
        let digit = digit_text(n % 10);
        proof {
            assert(out@ + digit@ == out@.push(digit@[0]));
        }
        out.append(digit);
        out
    }
}

/// The hexadecimal digit for a number below 16, in lower case.
pub open spec fn hex_digit(d: nat) -> char {
    if d < 10 {
        (48 + d) as char
    } else {
        (87 + d) as char
    }
}

/// The hexadecimal notation of `n`, in lower case, without leading zeros.
pub open spec fn hexadecimal(n: nat) -> Seq<char>
    decreases n,
{
    if n < 16 {
        seq![hex_digit(n)]
    } else {
        hexadecimal(n / 16).push(hex_digit(n % 16))
    }
}

fn hex_digit_text(d: u64) -> (digit: &'static str)
    requires
        d < 16,
    ensures
        digit@ == seq![hex_digit(d as nat)],
{
    proof {
        reveal_strlit("a");
        reveal_strlit("b");
        reveal_strlit("c");
        reveal_strlit("d");
        reveal_strlit("e");
        reveal_strlit("f");
    }
    if d < 10 {
        digit_text(d as usize)
    } else if d == 10 {
        "a"
    } else if d == 11 {
        "b"
    } else if d == 12 {
        "c"
    } else if d == 13 {
        "d"
    } else if d == 14 {
        "e"
    } else {
        "f"
    }
}

/// The hexadecimal notation of `n`.
pub fn hex_text(n: u64) -> (out: String)
    ensures
        out@ == hexadecimal(n as nat),
    decreases n,
{
    if n < 16 {
        hex_digit_text(n).to_owned()
    } else {
        let mut out = hex_text(n / 16);
        let digit = hex_digit_text(n % 16);
        proof {
            assert(out@ + digit@ == out@.push(digit@[0]));
        }
        out.append(digit);
        out
    }
}

/// Appends `tail` to `text`.
pub fn concat2(text: &str, tail: &str) -> (out: String)
    ensures
        out@ == text@ + tail@,
{
    let mut out = text.to_owned();
    out.append(tail);
    out
}

/// `a`, `b` and `c` one after another.
pub fn concat3(a: &str, b: &str, c: &str) -> (out: String)
    ensures
        out@ == a@ + b@ + c@,
{
    let mut out = a.to_owned();
    out.append(b);
    out.append(c);
    out
}

/// How many bytes the UTF-8 form of `s` takes.
pub open spec fn byte_len(s: Seq<char>) -> nat {
    vstd::utf8::encode_utf8(s).len()
}

/// How many bytes `text` takes.
pub fn byte_length(text: &str) -> (n: usize)
    ensures
        n == byte_len(text@),
{
    text.as_bytes().len()
}

}
