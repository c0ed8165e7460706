//! What holds of texts that are split, joined, trimmed and replaced in.
use vstd::prelude::*;

use crate::text::{
    after, ascii_lower, before, find_from, halves, has_infix, has_prefix, is_space, joined,
    lemma_find_from, lemma_pieces_nonempty, occurs_at, padded, pieces, replaced, trimmed,
    trimmed_end, trimmed_start,
};

verus! {

proof fn lemma_joined_first(first: Seq<char>, rest: Seq<Seq<char>>, sep: Seq<char>)
    requires
        rest.len() > 0,
    ensures
        joined(seq![first] + rest, sep) == first + sep + joined(rest, sep),
    decreases rest.len(),
{
    let all = seq![first] + rest;
    assert(all.drop_last() =~= seq![first] + rest.drop_last());
    assert(all.last() == rest.last());
    if rest.len() == 1 {
        assert(all.drop_last() =~= seq![first]);
        assert(joined(all.drop_last(), sep) == first);
    } else {
        lemma_joined_first(first, rest.drop_last(), sep);
        assert(joined(all, sep) =~= first + sep + joined(rest, sep));
    }
}

/// The pieces of a text, put together again with what they were split at, are the text; and no
/// piece holds what the text was split at.
pub proof fn law_pieces_make_the_text(s: Seq<char>, c: char)
    ensures
        joined(pieces(s, c), seq![c]) == s,
        forall|i: int| 0 <= i < pieces(s, c).len() ==> !(#[trigger] pieces(s, c)[i]).contains(c),
    decreases s.len(),
{
    lemma_find_from(s, c, 0);
    let i = find_from(s, c, 0);
    if i >= s.len() {
        assert(pieces(s, c) == seq![s]);
        assert(!s.contains(c));
    } else {
        let first = before(s, i);
        let rest = pieces(after(s, i + 1), c);
        law_pieces_make_the_text(after(s, i + 1), c);
        lemma_pieces_nonempty(after(s, i + 1), c);
        lemma_joined_first(first, rest, seq![c]);
        assert(first + seq![c] + after(s, i + 1) =~= s);
        let all = pieces(s, c);
        assert forall|k: int| 0 <= k < all.len() implies !(#[trigger] all[k]).contains(c) by {
            if k == 0 {
                assert(all[0] == first);
                if first.contains(c) {
                    let j = choose|j: int| 0 <= j < first.len() && first[j] == c;
                    assert(s[j] == c);
                }
            } else {
                assert(all[k] == rest[k - 1]);
            }
        }
    }
}

/// The two sides of a text, with what it was split at between them, are the text, and the first
/// side does not hold it. A text that does not hold it has no sides.
pub proof fn law_halves_make_the_text(s: Seq<char>, c: char)
    ensures
        halves(s, c) matches Some((a, b)) ==> a + seq![c] + b == s && !a.contains(c),
        halves(s, c) is None <==> !s.contains(c),
{
    lemma_find_from(s, c, 0);
    let i = find_from(s, c, 0);
    if i < s.len() {
        let a = before(s, i);
        assert(a + seq![c] + after(s, i + 1) =~= s);
        assert(s[i] == c);
        if a.contains(c) {
            let j = choose|j: int| 0 <= j < a.len() && a[j] == c;
            assert(s[j] == c);
        }
    }
}

proof fn lemma_start(s: Seq<char>)
    ensures
        trimmed_start(s).len() <= s.len(),
        trimmed_start(s) == s.skip(s.len() - trimmed_start(s).len()),
        trimmed_start(s).len() > 0 ==> !is_space(trimmed_start(s)[0]),
        forall|i: int| 0 <= i < s.len() - trimmed_start(s).len() ==> is_space(#[trigger] s[i]),
    decreases s.len(),
{
    if s.len() > 0 && is_space(s[0]) {
        let t = after(s, 1);
        lemma_start(t);
        let r = trimmed_start(s);
        assert(r =~= s.skip(s.len() - r.len()));
        assert forall|i: int| 0 <= i < s.len() - r.len() implies is_space(#[trigger] s[i]) by {
            if i > 0 {
                assert(s[i] == t[i - 1]);
            }
        }
    } else {
        assert(s.skip(0) =~= s);
    }
}

proof fn lemma_end(s: Seq<char>)
    ensures
        trimmed_end(s).len() <= s.len(),
        trimmed_end(s) == s.take(trimmed_end(s).len() as int),
        trimmed_end(s).len() > 0 ==> !is_space(trimmed_end(s).last()),
        forall|i: int| trimmed_end(s).len() <= i < s.len() ==> is_space(#[trigger] s[i]),
    decreases s.len(),
{
    if s.len() > 0 && is_space(s.last()) {
        let t = s.drop_last();
        lemma_end(t);
        let r = trimmed_end(s);
        assert(r =~= s.take(r.len() as int));
        assert forall|i: int| r.len() <= i < s.len() implies is_space(#[trigger] s[i]) by {
            if i < t.len() {
                assert(s[i] == t[i]);
            }
        }
    } else {
        assert(s.take(s.len() as int) =~= s);
    }
}

/// A trimmed text is the part of the text that is left once all white space at both ends is gone:
/// it neither starts nor ends with any, and nothing else went.
pub proof fn law_trimming_takes_white_space_alone(s: Seq<char>)
    ensures
        trimmed(s).len() > 0 ==> !is_space(trimmed(s)[0]) && !is_space(trimmed(s).last()),
        has_infix(s, trimmed(s)),
        trimmed(s).len() == 0 <==> forall|i: int| 0 <= i < s.len() ==> is_space(#[trigger] s[i]),
{
    let t = trimmed_start(s);
    lemma_start(s);
    lemma_end(t);
    let r = trimmed(s);
    let at = s.len() - t.len();
    assert(s.subrange(at, at + r.len()) =~= r);
    assert(occurs_at(s, r, at));
    if r.len() == 0 {
        assert forall|i: int| 0 <= i < s.len() implies is_space(#[trigger] s[i]) by {
            if i >= at {
                assert(s[i] == t[i - at]);
            }
        }
    } else {
        assert(r[0] == t[0]);
        assert(s[at] == t[0]);
    }
}

proof fn lemma_absent(s: Seq<char>, from: Seq<char>)
    requires
        s.len() > 0,
        !has_infix(s, from),
    ensures
        !has_prefix(s, from),
        !has_infix(after(s, 1), from),
{
    if has_prefix(s, from) {
        assert(occurs_at(s, from, 0));
    }
    if has_infix(after(s, 1), from) {
        let i = choose|i: int| #[trigger] occurs_at(after(s, 1), from, i);
        assert(s.subrange(i + 1, i + 1 + from.len()) =~= after(s, 1).subrange(i, i + from.len()));
        assert(occurs_at(s, from, i + 1));
    }
}

/// A text without what is to be replaced stays as it is.
pub proof fn law_nothing_to_replace(s: Seq<char>, from: Seq<char>, to: Seq<char>)
    requires
        !has_infix(s, from),
    ensures
        replaced(s, from, to) == s,
    decreases s.len(),
{
    if s.len() > 0 && from.len() > 0 {
        lemma_absent(s, from);
        law_nothing_to_replace(after(s, 1), from, to);
        assert(seq![s[0]] + after(s, 1) =~= s);
    }
}

/// What is replaced at the start of a text gives way to what replaces it, and so on behind it.
pub proof fn law_every_occurrence_is_replaced(
    s: Seq<char>,
    from: Seq<char>,
    to: Seq<char>,
)
    requires
        from.len() > 0,
    ensures
        replaced(from + s, from, to) == to + replaced(s, from, to),
        s.len() > 0 && !has_prefix(s, from) ==> replaced(s, from, to) == seq![s[0]] + replaced(
            after(s, 1),
            from,
            to,
        ),
{
    let t = from + s;
    assert(t.subrange(0, from.len() as int) =~= from);
    assert(after(t, from.len() as int) =~= s);
}

/// A padded text starts with the text and is as wide as it has to be.
pub proof fn law_padding_adds_spaces_alone(s: Seq<char>, width: nat)
    ensures
        has_prefix(padded(s, width), s),
        padded(s, width).len() >= width,
        padded(s, width).len() >= s.len(),
        s.len() >= width ==> padded(s, width) == s,
        forall|i: int| s.len() <= i < padded(s, width).len() ==> #[trigger] padded(s, width)[i] == ' ',
{
    assert(padded(s, width).subrange(0, s.len() as int) =~= s);
}

/// Letters in upper case become those in lower case, and everything else stays.
pub proof fn law_lower_case(s: Seq<char>, i: int)
    requires
        0 <= i < s.len(),
    ensures
        ascii_lower(s).len() == s.len(),
        'A' <= s[i] && s[i] <= 'Z' ==> ascii_lower(s)[i] as u32 == s[i] as u32 + 32,
        !('A' <= s[i] && s[i] <= 'Z') ==> ascii_lower(s)[i] == s[i],
{
}

} // verus!
