//! What texts hold after they were taken apart, put together or compared.
use crate::text::{decimal, hexadecimal, split, split_terminated, text_le};
use vstd::prelude::*;

verus! {

/// `piece` is what stands in `s` before the first `sep`, or all of `s` where there is none.
pub open spec fn is_first_piece(piece: Seq<char>, s: Seq<char>, sep: char) -> bool {
    &&& piece.len() <= s.len()
    &&& s.take(piece.len() as int) == piece
    &&& !piece.contains(sep)
    &&& piece.len() < s.len() ==> s[piece.len() as int] == sep
}

/// The first piece of a text ends before the first separator.
pub proof fn law_first_piece_ends_at_the_separator(s: Seq<char>, sep: char)
    ensures
        split(s, sep).len() >= 1,
        is_first_piece(split(s, sep)[0], s, sep),
    decreases s.len(),
{
    if s.len() > 0 {
        let less = s.drop_last();
        law_first_piece_ends_at_the_separator(less, sep);
        let before = split(less, sep);
        let piece = before[0];
        let now = split(s, sep)[0];
        assert(less.take(piece.len() as int) == s.take(piece.len() as int));
        if s.last() != sep && before.len() == 1 {
            lemma_one_piece(less, sep);
            assert(piece == less);
            assert(now == piece.push(s.last()));
            assert(now == s);
            assert forall|i: int| 0 <= i < now.len() implies now[i] != sep by {
                if i < piece.len() {
                    assert(piece.contains(piece[i]));
                }
            }
            assert(s.take(now.len() as int) == now);
        } else {
            assert(now == piece);
            if before.len() > 1 {
                lemma_more_pieces(less, sep);
            }
        }
    } else {
        assert(split(s, sep)[0] == s);
        assert(s.take(0) == s);
    }
}

/// A text without separators is its own first piece, and stays the first piece when a separator and
/// anything else are put behind it.
pub proof fn law_the_first_piece_stays(first: Seq<char>, rest: Seq<char>, sep: char)
    requires
        !first.contains(sep),
    ensures
        split(first, sep)[0] == first,
        split(first + seq![sep] + rest, sep)[0] == first,
{
    law_first_piece_ends_at_the_separator(first, sep);
    let one = split(first, sep)[0];
    if one.len() < first.len() {
        assert(first.contains(first[one.len() as int]));
    }
    assert(first.take(first.len() as int) == first);
    let whole = first + seq![sep] + rest;
    law_first_piece_ends_at_the_separator(whole, sep);
    let piece = split(whole, sep)[0];
    if piece.len() < first.len() {
        assert(whole[piece.len() as int] == first[piece.len() as int]);
        assert(first.contains(first[piece.len() as int]));
    } else if piece.len() > first.len() {
        assert(piece[first.len() as int] == whole[first.len() as int]);
        assert(piece.contains(piece[first.len() as int]));
    }
    assert(whole.take(first.len() as int) == first);
}

proof fn lemma_one_piece(s: Seq<char>, sep: char)
    requires
        split(s, sep).len() == 1,
    ensures
        split(s, sep)[0] == s,
    decreases s.len(),
{
    if s.len() > 0 {
        crate::text::lemma_split_nonempty(s.drop_last(), sep);
        lemma_one_piece(s.drop_last(), sep);
        assert(s.drop_last().push(s.last()) == s);
    }
}

proof fn lemma_more_pieces(s: Seq<char>, sep: char)
    requires
        split(s, sep).len() > 1,
    ensures
        split(s, sep)[0].len() < s.len(),
    decreases s.len(),
{
    let less = s.drop_last();
    crate::text::lemma_split_nonempty(less, sep);
    if split(less, sep).len() > 1 {
        lemma_more_pieces(less, sep);
    } else {
        lemma_one_piece(less, sep);
    }
}

/// No piece of a text holds the separator, and there is one piece more than there are separators.
pub proof fn law_pieces_hold_no_separator(s: Seq<char>, sep: char)
    ensures
        forall|i: int| 0 <= i < split(s, sep).len() ==> !(#[trigger] split(s, sep)[i]).contains(sep),
        split(s, sep).len() == s.filter(|c: char| c == sep).len() + 1,
    decreases s.len(),
{
    reveal(Seq::filter);
    if s.len() > 0 {
        let less = s.drop_last();
        law_pieces_hold_no_separator(less, sep);
        let before = split(less, sep);
        let after = split(s, sep);
        assert forall|i: int| 0 <= i < after.len() implies !(#[trigger] after[i]).contains(sep) by {
            if s.last() == sep {
                if i < before.len() {
                    assert(after[i] == before[i]);
                }
            } else if i < before.len() - 1 {
                assert(after[i] == before[i]);
            } else {
                let tail = before[before.len() - 1];
                assert(after[i] == tail.push(s.last()));
                assert forall|k: int| 0 <= k < after[i].len() implies after[i][k] != sep by {
                    if k < tail.len() {
                        assert(tail.contains(tail[k]));
                    }
                }
            }
        }
    } else {
        assert(split(s, sep)[0] == s);
    }
}

/// One text stands before another exactly where it is a part of its start, or has the smaller
/// character at the first place where they differ.
pub proof fn law_texts_are_in_lexical_order(a: Seq<char>, b: Seq<char>)
    ensures
        text_le(a, b) <==> {
            ||| a.len() <= b.len() && b.take(a.len() as int) == a
            ||| exists|k: int|
                0 <= k < a.len() && k < b.len() && a.take(k) == b.take(k) && #[trigger] a[k] < b[k]
        },
    decreases a.len(),
{
    if a.len() > 0 && b.len() > 0 && a[0] == b[0] {
        let (s, t) = (a.drop_first(), b.drop_first());
        law_texts_are_in_lexical_order(s, t);
        if a.len() <= b.len() {
            if t.take(s.len() as int) == s {
                assert forall|i: int| 0 <= i < a.len() implies b.take(a.len() as int)[i] == a[i] by {
                    if i > 0 {
                        assert(t.take(s.len() as int)[i - 1] == s[i - 1]);
                    }
                }
                assert(b.take(a.len() as int) == a);
            }
            if b.take(a.len() as int) == a {
                assert forall|i: int| 0 <= i < s.len() implies t.take(s.len() as int)[i] == s[i] by {
                    assert(b.take(a.len() as int)[i + 1] == a[i + 1]);
                }
                assert(t.take(s.len() as int) == s);
            }
        }
        assert forall|k: int|
            0 <= k < s.len() && k < t.len() && s.take(k) == t.take(k) && #[trigger] s[k] < t[k] implies
            a.take(k + 1) == b.take(k + 1) && a[k + 1] < b[k + 1] by {
            let (p, q) = (a.take(k + 1), b.take(k + 1));
            assert forall|i: int| 0 <= i < p.len() implies p[i] == q[i] by {
                if i > 0 {
                    assert(s.take(k)[i - 1] == t.take(k)[i - 1]);
                }
            }
        }
        assert forall|k: int|
            0 <= k < a.len() && k < b.len() && a.take(k) == b.take(k) && #[trigger] a[k]
                < b[k] implies k >= 1 && s.take(k - 1) == t.take(k - 1) && s[k - 1] < t[k - 1] by {
            let (p, q) = (s.take(k - 1), t.take(k - 1));
            assert forall|i: int| 0 <= i < p.len() implies p[i] == q[i] by {
                assert(a.take(k)[i + 1] == b.take(k)[i + 1]);
            }
            assert(s.take(k - 1) == t.take(k - 1));
        }
    } else if a.len() > 0 && b.len() > 0 {
        if a[0] < b[0] {
            assert(a.take(0) == b.take(0));
        } else {
            if a.len() <= b.len() {
                assert(b.take(a.len() as int)[0] == b[0]);
            }
            assert forall|k: int|
                0 <= k < a.len() && k < b.len() && a.take(k) == b.take(k) implies !(#[trigger] a[k]
                < b[k]) by {
                if k > 0 {
                    assert(a.take(k)[0] == b.take(k)[0]);
                }
            }
        }
    } else if a.len() == 0 {
        assert(b.take(0) == a);
    }
}

/// A text ends in a separator, or is empty: then nothing follows it, and no piece is made of that.
/// Otherwise all pieces count.
pub proof fn law_a_trailing_separator_makes_no_piece(s: Seq<char>, sep: char)
    requires
        s.len() == 0 || s.last() != sep,
    ensures
        split_terminated(s.push(sep), sep) == split(s, sep),
        s.len() > 0 ==> split_terminated(s, sep) == split(s, sep),
        s.len() == 0 ==> split_terminated(s, sep).len() == 0,
{
    assert(s.push(sep).drop_last() == s);
    crate::text::lemma_split_nonempty(s, sep);
    assert(split(s.push(sep), sep).drop_last() == split(s, sep));
    if s.len() > 0 {
        crate::text::lemma_split_nonempty(s.drop_last(), sep);
    }
}

/// What a numeral stands for, where a digit counts its place among `0` to `9` and `a` to `f`.
pub open spec fn numeral_value(s: Seq<char>, base: int) -> int {
    s.fold_left(
        0,
        |value: int, c: char|
            value * base + (if c <= '9' {
                c as int - '0' as int
            } else {
                c as int - 'a' as int + 10
            }),
    )
}

/// A number is written in the digits `0` to `9`, without zeros in front, and stands for itself.
pub proof fn law_decimals_stand_for_the_number(n: nat)
    ensures
        decimal(n).len() >= 1,
        forall|i: int| 0 <= i < decimal(n).len() ==> '0' <= #[trigger] decimal(n)[i] <= '9',
        decimal(n).len() > 1 ==> decimal(n)[0] != '0',
        numeral_value(decimal(n), 10) == n,
    decreases n,
{
    if n >= 10 {
        law_decimals_stand_for_the_number(n / 10);
        if n >= 100 {
            law_decimals_stand_for_the_number(n / 10 / 10);
            assert(decimal(n / 10).len() > 1);
        }
        assert(decimal(n).drop_last() == decimal(n / 10));
        assert(decimal(n).last() as int == 48 + n % 10);
        assert(decimal(n)[0] == decimal(n / 10)[0]);
        if n / 10 < 10 {
            assert(decimal(n / 10)[0] as int == 48 + n / 10);
        }
        assert forall|i: int| 0 <= i < decimal(n).len() implies '0' <= #[trigger] decimal(n)[i]
            <= '9' by {
            if i < decimal(n / 10).len() {
                assert(decimal(n)[i] == decimal(n / 10)[i]);
            }
        }
    } else {
        assert(decimal(n)[0] as int == 48 + n);
        assert(decimal(n).drop_last() == Seq::<char>::empty());
        reveal_with_fuel(Seq::fold_left, 2);
    }
}

/// A number is written in the digits `0` to `9` and `a` to `f`, and stands for itself; so two numbers
/// are never written alike.
pub proof fn law_hexadecimals_stand_for_the_number(n: nat)
    ensures
        forall|i: int|
            0 <= i < hexadecimal(n).len() ==> '0' <= #[trigger] hexadecimal(n)[i] <= '9' || 'a'
                <= hexadecimal(n)[i] <= 'f',
        numeral_value(hexadecimal(n), 16) == n,
    decreases n,
{
    if n >= 16 {
        law_hexadecimals_stand_for_the_number(n / 16);
        assert(hexadecimal(n).drop_last() == hexadecimal(n / 16));
        assert forall|i: int| 0 <= i < hexadecimal(n).len() implies '0'
            <= #[trigger] hexadecimal(n)[i] <= '9' || 'a' <= hexadecimal(n)[i] <= 'f' by {
            if i < hexadecimal(n / 16).len() {
                assert(hexadecimal(n)[i] == hexadecimal(n / 16)[i]);
            }
        }
    } else {
        assert(hexadecimal(n).drop_last() == Seq::<char>::empty());
        reveal_with_fuel(Seq::fold_left, 2);
    }
}

}
