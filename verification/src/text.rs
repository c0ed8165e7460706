//! Strings as sequences of characters: the operations that the rest of the
//! library is built from, each with an exact description of its result.
use vstd::prelude::*;
use vstd::string::*;
use vstd::utf8::encode_utf8;

verus! {

/// `String::push` appends one character at the end.
pub assume_specification[ String::push ](s: &mut String, ch: char)
    ensures
        final(s)@ == old(s)@.push(ch),
;

/// `==` on `str` holds exactly when both hold the same characters.
#[verifier::external_body]
pub(crate) fn str_equal(a: &str, b: &str) -> (r: bool)
    ensures
        r == (a@ == b@),
{
    a == b
}

/// What `str::to_lowercase` makes of a text.
pub uninterp spec fn lowercase(s: Seq<char>) -> Seq<char>;

/// The text holds ASCII characters only.
pub open spec fn ascii(s: Seq<char>) -> bool {
    forall|i: int| 0 <= i < s.len() ==> (#[trigger] s[i] as u32) < 128
}

/// `str::to_lowercase` goes by Unicode; on ASCII text it changes the letters from A
/// to Z and nothing else.
#[verifier::external_body]
pub(crate) fn to_lowercase(s: &str) -> (r: String)
    ensures
        r@ == lowercase(s@),
        ascii(s@) ==> r@ == ascii_lower(s@),
{
    s.to_lowercase()
}

// ---------------------------------------------------------------------------
// What the operations mean
// ---------------------------------------------------------------------------
/// The sequence starts with `p`.
pub open spec fn has_prefix(s: Seq<char>, p: Seq<char>) -> bool {
    p.len() <= s.len() && s.subrange(0, p.len() as int) == p
}

/// The sequence ends with `p`.
pub open spec fn has_suffix(s: Seq<char>, p: Seq<char>) -> bool {
    p.len() <= s.len() && s.subrange(s.len() - p.len(), s.len() as int) == p
}

/// `p` stands in `s` at position `i`.
pub open spec fn occurs_at(s: Seq<char>, p: Seq<char>, i: int) -> bool {
    0 <= i && i + p.len() <= s.len() && s.subrange(i, i + p.len()) == p
}

/// `p` stands somewhere in `s`.
pub open spec fn has_infix(s: Seq<char>, p: Seq<char>) -> bool {
    exists|i: int| #[trigger] occurs_at(s, p, i)
}

/// What follows the first `n` characters.
pub open spec fn after(s: Seq<char>, n: int) -> Seq<char> {
    s.subrange(n, s.len() as int)
}

/// The first `n` characters.
pub open spec fn before(s: Seq<char>, n: int) -> Seq<char> {
    s.subrange(0, n)
}

/// What is left of `s` without the prefix `p`, where it has that prefix.
pub open spec fn without_prefix(s: Seq<char>, p: Seq<char>) -> Option<Seq<char>> {
    if has_prefix(s, p) {
        Some(after(s, p.len() as int))
    } else {
        None
    }
}

/// What is left of `s` without the suffix `p`, where it has that suffix.
pub open spec fn without_suffix(s: Seq<char>, p: Seq<char>) -> Option<Seq<char>> {
    if has_suffix(s, p) {
        Some(before(s, s.len() - p.len()))
    } else {
        None
    }
}

/// The position of the first `c` at or behind `from`; the length where there is none.
pub open spec fn find_from(s: Seq<char>, c: char, from: int) -> int
    decreases s.len() - from,
{
    if from < 0 || from >= s.len() {
        s.len() as int
    } else if s[from] == c {
        from
    } else {
        find_from(s, c, from + 1)
    }
}

/// The pieces between the occurrences of `c`: one more than there are occurrences.
pub open spec fn pieces(s: Seq<char>, c: char) -> Seq<Seq<char>>
    decreases s.len(),
    via pieces_decreases
{
    let i = find_from(s, c, 0);
    if i >= s.len() {
        seq![s]
    } else {
        seq![before(s, i)] + pieces(after(s, i + 1), c)
    }
}

#[via_fn]
proof fn pieces_decreases(s: Seq<char>, c: char) {
    lemma_find_from(s, c, 0);
}

/// The two sides of the first `c`.
pub open spec fn halves(s: Seq<char>, c: char) -> Option<(Seq<char>, Seq<char>)> {
    let i = find_from(s, c, 0);
    if i >= s.len() {
        None
    } else {
        Some((before(s, i), after(s, i + 1)))
    }
}

/// The parts one after the other, with `sep` between each two.
pub open spec fn joined(parts: Seq<Seq<char>>, sep: Seq<char>) -> Seq<char>
    decreases parts.len(),
{
    if parts.len() == 0 {
        Seq::empty()
    } else if parts.len() == 1 {
        parts[0]
    } else {
        joined(parts.drop_last(), sep) + sep + parts.last()
    }
}

/// `s` with every occurrence of `from`, taken from the left, turned into `to`.
pub open spec fn replaced(s: Seq<char>, from: Seq<char>, to: Seq<char>) -> Seq<char>
    decreases s.len(),
{
    if s.len() == 0 || from.len() == 0 {
        s
    } else if has_prefix(s, from) {
        to + replaced(after(s, from.len() as int), from, to)
    } else {
        seq![s[0]] + replaced(after(s, 1), from, to)
    }
}

/// The characters with Unicode's `White_Space` property.
pub open spec fn is_space(c: char) -> bool {
    let n = c as u32;
    ||| 0x9 <= n <= 0xd
    ||| n == 0x20
    ||| n == 0x85
    ||| n == 0xa0
    ||| n == 0x1680
    ||| 0x2000 <= n <= 0x200a
    ||| n == 0x2028
    ||| n == 0x2029
    ||| n == 0x202f
    ||| n == 0x205f
    ||| n == 0x3000
}

/// `s` without the white space at its start.
pub open spec fn trimmed_start(s: Seq<char>) -> Seq<char>
    decreases s.len(),
{
    if s.len() > 0 && is_space(s[0]) {
        trimmed_start(after(s, 1))
    } else {
        s
    }
}

/// `s` without the white space at its end.
pub open spec fn trimmed_end(s: Seq<char>) -> Seq<char>
    decreases s.len(),
{
    if s.len() > 0 && is_space(s.last()) {
        trimmed_end(s.drop_last())
    } else {
        s
    }
}

/// `s` without the white space around it.
pub open spec fn trimmed(s: Seq<char>) -> Seq<char> {
    trimmed_end(trimmed_start(s))
}

pub open spec fn is_upper(c: char) -> bool {
    'A' <= c && c <= 'Z'
}

pub open spec fn is_lower(c: char) -> bool {
    'a' <= c && c <= 'z'
}

pub open spec fn is_digit(c: char) -> bool {
    '0' <= c && c <= '9'
}

pub open spec fn is_alphanumeric(c: char) -> bool {
    is_upper(c) || is_lower(c) || is_digit(c)
}

/// The lower case of an ASCII letter; every other character as it is.
pub open spec fn lower_char(c: char) -> char {
    if is_upper(c) {
        ((c as u8) + 32) as u8 as char
    } else {
        c
    }
}

/// `s` with its ASCII letters in lower case.
pub open spec fn ascii_lower(s: Seq<char>) -> Seq<char> {
    s.map_values(|c: char| lower_char(c))
}

/// `a` stands before `b` in the order of their characters.
pub open spec fn precedes(a: Seq<char>, b: Seq<char>) -> bool
    decreases a.len(),
{
    if b.len() == 0 {
        false
    } else if a.len() == 0 {
        true
    } else if a[0] == b[0] {
        precedes(after(a, 1), after(b, 1))
    } else {
        a[0] < b[0]
    }
}

pub open spec fn digit(d: int) -> char {
    (('0' as u8) + d) as u8 as char
}

/// The decimal digits of `n`.
pub open spec fn decimal(n: nat) -> Seq<char>
    decreases n,
{
    if n < 10 {
        seq![digit(n as int)]
    } else {
        decimal(n / 10).push(digit((n % 10) as int))
    }
}

/// The decimal digits of `n`, with a sign in front where it is negative.
pub open spec fn signed_decimal(n: int) -> Seq<char> {
    if n < 0 {
        seq!['-'] + decimal((-n) as nat)
    } else {
        decimal(n as nat)
    }
}

/// What the strings of a list hold.
pub open spec fn views(v: Seq<String>) -> Seq<Seq<char>> {
    v.map_values(|s: String| s@)
}

/// What the string slices of a list hold.
pub open spec fn str_views(v: Seq<&str>) -> Seq<Seq<char>> {
    v.map_values(|s: &str| s@)
}

// ---------------------------------------------------------------------------
// Facts about them
// ---------------------------------------------------------------------------
pub proof fn lemma_find_from(s: Seq<char>, c: char, from: int)
    requires
        0 <= from <= s.len(),
    ensures
        from <= find_from(s, c, from) <= s.len(),
        find_from(s, c, from) < s.len() ==> s[find_from(s, c, from)] == c,
        forall|i: int| from <= i < find_from(s, c, from) ==> s[i] != c,
    decreases s.len() - from,
{
    if from < s.len() && s[from] != c {
        lemma_find_from(s, c, from + 1);
    }
}

/// The first occurrence is the only position with the character and none before it.
pub proof fn lemma_find_from_unique(s: Seq<char>, c: char, from: int, at: int)
    requires
        0 <= from <= at <= s.len(),
        forall|i: int| from <= i < at ==> s[i] != c,
        at < s.len() ==> s[at] == c,
    ensures
        find_from(s, c, from) == at,
    decreases at - from,
{
    if from < at {
        lemma_find_from_unique(s, c, from + 1, at);
    }
}

pub proof fn lemma_find_from_shift(s: Seq<char>, c: char, k: int)
    requires
        0 <= k <= s.len(),
    ensures
        find_from(after(s, k), c, 0) + k == find_from(s, c, k),
{
    let t = after(s, k);
    lemma_find_from(s, c, k);
    let at = find_from(s, c, k) - k;
    assert forall|i: int| 0 <= i < at implies t[i] != c by {
        assert(t[i] == s[i + k]);
    }
    lemma_find_from_unique(t, c, 0, at);
}

pub proof fn lemma_pieces_nonempty(s: Seq<char>, c: char)
    ensures
        pieces(s, c).len() >= 1,
    decreases s.len(),
{
    lemma_find_from(s, c, 0);
    if find_from(s, c, 0) < s.len() {
        lemma_pieces_nonempty(after(s, find_from(s, c, 0) + 1), c);
    }
}

proof fn lemma_after_after(s: Seq<char>, a: int, b: int)
    requires
        0 <= a,
        0 <= b,
        a + b <= s.len(),
    ensures
        after(after(s, a), b) == after(s, a + b),
{
    assert(after(after(s, a), b) =~= after(s, a + b));
}

pub proof fn lemma_views_push(v: Seq<String>, s: String)
    ensures
        views(v.push(s)) == views(v).push(s@),
{
    assert(views(v.push(s)) =~= views(v).push(s@));
}

pub proof fn lemma_str_views_push(v: Seq<&str>, s: &str)
    ensures
        str_views(v.push(s)) == str_views(v).push(s@),
{
    assert(str_views(v.push(s)) =~= str_views(v).push(s@));
}

proof fn lemma_precedes_at(a: Seq<char>, b: Seq<char>, i: int)
    requires
        0 <= i <= a.len(),
        i <= b.len(),
        a.subrange(0, i) == b.subrange(0, i),
    ensures
        precedes(a, b) == precedes(after(a, i), after(b, i)),
    decreases i,
{
    if i == 0 {
        assert(after(a, 0) =~= a);
        assert(after(b, 0) =~= b);
    } else {
        assert(a[0] == a.subrange(0, i)[0]);
        assert(b[0] == b.subrange(0, i)[0]);
        let a1 = after(a, 1);
        let b1 = after(b, 1);
        assert(a1.subrange(0, i - 1) =~= a.subrange(0, i).subrange(1, i));
        assert(b1.subrange(0, i - 1) =~= b.subrange(0, i).subrange(1, i));
        lemma_precedes_at(a1, b1, i - 1);
        lemma_after_after(a, 1, i - 1);
        lemma_after_after(b, 1, i - 1);
    }
}

/// No sequence stands before itself, and of two different ones exactly one stands
/// before the other.
pub proof fn lemma_precedes_total(a: Seq<char>, b: Seq<char>)
    ensures
        !precedes(a, a),
        a != b ==> (precedes(a, b) <==> !precedes(b, a)),
    decreases a.len(),
{
    if a.len() > 0 {
        lemma_precedes_total(after(a, 1), after(a, 1));
    }
    if a.len() > 0 && b.len() > 0 && a[0] == b[0] {
        lemma_precedes_total(after(a, 1), after(b, 1));
        if after(a, 1) == after(b, 1) {
            assert(a =~= seq![a[0]] + after(a, 1));
            assert(b =~= seq![b[0]] + after(b, 1));
        }
    } else if a.len() == 0 && b.len() == 0 {
        assert(a =~= b);
    }
}

pub proof fn lemma_precedes_transitive(a: Seq<char>, b: Seq<char>, c: Seq<char>)
    requires
        precedes(a, b),
        precedes(b, c),
    ensures
        precedes(a, c),
    decreases a.len(),
{
    if a.len() > 0 && b.len() > 0 && c.len() > 0 && a[0] == b[0] && b[0] == c[0] {
        lemma_precedes_transitive(after(a, 1), after(b, 1), after(c, 1));
    }
}

// ---------------------------------------------------------------------------
// The operations
// ---------------------------------------------------------------------------
/// The characters of a string.
pub fn chars_of(s: &str) -> (v: Vec<char>)
    ensures
        v@ == s@,
{
    broadcast use group_string_axioms;
    let mut v: Vec<char> = Vec::new();
    for c in it: s.chars()
        invariant
            it.seq() == s@,
            v@ == s@.subrange(0, it.index() as int),
    {
        v.push(c);
        assert(v@ =~= s@.subrange(0, it.index() + 1));
    }
    assert(v@ =~= s@);
    v
}

/// The string with the characters `v[from..to]`.
pub fn string_of(v: &[char], from: usize, to: usize) -> (s: String)
    requires
        from <= to <= v.len(),
    ensures
        s@ == v@.subrange(from as int, to as int),
{
    let mut s = String::new();
    let mut i: usize = from;
    while i < to
        invariant
            from <= i <= to <= v.len(),
            s@ == v@.subrange(from as int, i as int),
        decreases to - i,
    {
        s.push(v[i]);
        i += 1;
        assert(s@ =~= v@.subrange(from as int, i as int));
    }
    assert(s@ =~= v@.subrange(from as int, to as int));
    s
}

/// A copy of a string.
pub fn copy(s: &str) -> (r: String)
    ensures
        r@ == s@,
{
    s.to_owned()
}


/// Whether `p` stands in `v` at position `at`.
pub fn stands_at(v: &[char], p: &[char], at: usize) -> (r: bool)
    requires
        at <= v.len(),
    ensures
        r == occurs_at(v@, p@, at as int),
{
    if p.len() > v.len() - at {
        return false;
    }
    let mut i: usize = 0;
    while i < p.len()
        invariant
            i <= p.len(),
            at + p.len() <= v.len(),
            forall|j: int| 0 <= j < i ==> v@[at + j] == p@[j],
        decreases p.len() - i,
    {
        if v[at + i] != p[i] {
            assert(v@.subrange(at as int, at + p@.len())[i as int] == v@[at + i]);
            return false;
        }
        i += 1;
    }
    assert(v@.subrange(at as int, at + p@.len()) =~= p@);
    true
}

/// Whether `s` starts with `p`.
pub fn starts_with(s: &str, p: &str) -> (r: bool)
    ensures
        r == has_prefix(s@, p@),
{
    let v = chars_of(s);
    let q = chars_of(p);
    stands_at(&v, &q, 0)
}

/// Whether `s` ends with `p`.
pub fn ends_with(s: &str, p: &str) -> (r: bool)
    ensures
        r == has_suffix(s@, p@),
{
    let v = chars_of(s);
    let q = chars_of(p);
    if q.len() > v.len() {
        return false;
    }
    stands_at(&v, &q, v.len() - q.len())
}

/// Whether `p` stands somewhere in `s`.
pub fn contains(s: &str, p: &str) -> (r: bool)
    ensures
        r == has_infix(s@, p@),
{
    let v = chars_of(s);
    let q = chars_of(p);
    let mut i: usize = 0;
    while i < v.len()
        invariant
            i <= v.len(),
            v@ == s@,
            q@ == p@,
            forall|j: int| 0 <= j < i ==> !#[trigger] occurs_at(s@, p@, j),
        decreases v.len() - i,
    {
        if stands_at(&v, &q, i) {
            return true;
        }
        i += 1;
    }
    stands_at(&v, &q, i)
}

/// Whether the character `c` stands in `s`.
pub fn contains_char(s: &str, c: char) -> (r: bool)
    ensures
        r == s@.contains(c),
{
    let v = chars_of(s);
    let at: usize = find_char(&v, c, 0);
    if at < v.len() {
        assert(s@[at as int] == c);
    }
    at < v.len()
}

/// `s` without the prefix `p`, where it has it.
pub fn strip_prefix<'a>(s: &'a str, p: &str) -> (r: Option<&'a str>)
    ensures
        r.is_some() == without_prefix(s@, p@).is_some(),
        r matches Some(t) ==> t@ == without_prefix(s@, p@)->0,
{
    let v = chars_of(s);
    let q = chars_of(p);
    if stands_at(&v, &q, 0) {
        Some(s.substring_char(q.len(), v.len()))
    } else {
        None
    }
}

/// `s` without the suffix `p`, where it has it.
pub fn strip_suffix<'a>(s: &'a str, p: &str) -> (r: Option<&'a str>)
    ensures
        r.is_some() == without_suffix(s@, p@).is_some(),
        r matches Some(t) ==> t@ == without_suffix(s@, p@)->0,
{
    let v = chars_of(s);
    let q = chars_of(p);
    if q.len() <= v.len() && stands_at(&v, &q, v.len() - q.len()) {
        Some(s.substring_char(0, v.len() - q.len()))
    } else {
        None
    }
}

/// The position of the first `c` at or behind `from`.
pub fn find_char(v: &[char], c: char, from: usize) -> (r: usize)
    requires
        from <= v.len(),
    ensures
        r == find_from(v@, c, from as int),
        from <= r <= v.len(),
        r < v.len() ==> v@[r as int] == c,
        forall|i: int| from <= i < r ==> v@[i] != c,
{
    let mut i: usize = from;
    while i < v.len() && v[i] != c
        invariant
            from <= i <= v.len(),
            forall|j: int| from <= j < i ==> v@[j] != c,
        decreases v.len() - i,
    {
        i += 1;
    }
    proof {
        lemma_find_from_unique(v@, c, from as int, i as int);
    }
    i
}

/// The pieces of `s` between the occurrences of `c`.
pub fn split<'a>(s: &'a str, c: char) -> (r: Vec<&'a str>)
    ensures
        str_views(r@) == pieces(s@, c),
        r.len() >= 1,
{
    let v = chars_of(s);
    let mut out: Vec<&'a str> = Vec::new();
    let mut from: usize = 0;
    proof {
        assert(after(s@, 0) =~= s@);
        assert(str_views(out@) + pieces(after(s@, 0), c) =~= pieces(s@, c));
    }
    loop
        invariant
            v@ == s@,
            from <= v.len(),
            str_views(out@) + pieces(after(s@, from as int), c) == pieces(s@, c),
        decreases v.len() + 1 - from,
    {
        let at: usize = find_char(&v, c, from);
        let piece = s.substring_char(from, at);
        proof {
            lemma_find_from_shift(s@, c, from as int);
        }
        let ghost rest = after(s@, from as int);
        let ghost done = out@;
        out.push(piece);
        proof {
            lemma_str_views_push(done, piece);
        }
        if at == v.len() {
            proof {
                assert(piece@ =~= rest);
                assert(pieces(rest, c) =~= seq![rest]);
                assert(str_views(done) + seq![rest] =~= str_views(out@));
                assert(str_views(out@).len() >= 1);
            }
            return out;
        }
        proof {
            assert(before(rest, at - from) =~= piece@);
            lemma_after_after(s@, from as int, at - from + 1);
            let tail = pieces(after(s@, at + 1), c);
            assert(pieces(rest, c) =~= seq![piece@] + tail);
            assert(str_views(done) + (seq![piece@] + tail) =~= str_views(out@) + tail);
        }
        from = at + 1;
    }
}

/// The two sides of the first `c` in `s`.
pub fn split_once<'a>(s: &'a str, c: char) -> (r: Option<(&'a str, &'a str)>)
    ensures
        r.is_some() == halves(s@, c).is_some(),
        r matches Some(p) ==> (p.0@, p.1@) == halves(s@, c)->0,
{
    let v = chars_of(s);
    let at: usize = find_char(&v, c, 0);
    if at == v.len() {
        None
    } else {
        Some((s.substring_char(0, at), s.substring_char(at + 1, v.len())))
    }
}

/// The parts with `sep` between each two.
pub fn join(parts: &[String], sep: &str) -> (r: String)
    ensures
        r@ == joined(views(parts@), sep@),
{
    let mut out = String::new();
    let mut i: usize = 0;
    let ghost all = views(parts@);
    while i < parts.len()
        invariant
            i <= parts.len(),
            all == views(parts@),
            out@ == joined(all.take(i as int), sep@),
        decreases parts.len() - i,
    {
        let ghost head = all.take(i as int);
        let ghost next = all.take(i + 1);
        proof {
            assert(next.drop_last() =~= head);
            assert(next.last() == parts@[i as int]@);
        }
        if i > 0 {
            out.append(sep);
        }
        out.append(parts[i].as_str());
        proof {
            if i == 0 {
                assert(out@ =~= next[0]);
            }
        }
        i += 1;
    }
    assert(all.take(i as int) =~= all);
    out
}

/// `s` with every occurrence of `from` turned into `to`.
pub fn replace(s: &str, from: &str, to: &str) -> (r: String)
    requires
        from@.len() > 0,
    ensures
        r@ == replaced(s@, from@, to@),
{
    let v = chars_of(s);
    let q = chars_of(from);
    let mut out = String::new();
    let mut i: usize = 0;
    proof {
        assert(after(s@, 0) =~= s@);
        assert(out@ + replaced(s@, from@, to@) =~= replaced(s@, from@, to@));
    }
    while i < v.len()
        invariant
            v@ == s@,
            q@ == from@,
            from@.len() > 0,
            i <= v.len(),
            out@ + replaced(after(s@, i as int), from@, to@) == replaced(s@, from@, to@),
        decreases v.len() - i,
    {
        let ghost rest = after(s@, i as int);
        let ghost done = out@;
        let here = stands_at(&v, &q, i);
        proof {
            if i + from@.len() <= s@.len() {
                assert(s@.subrange(i as int, i + from@.len()) =~= rest.subrange(
                    0,
                    from@.len() as int,
                ));
            }
            assert(here == has_prefix(rest, from@));
        }
        if here {
            out.append(to);
            proof {
                lemma_after_after(s@, i as int, from@.len() as int);
                let tail = replaced(after(s@, i + from@.len()), from@, to@);
                assert(done + (to@ + tail) =~= out@ + tail);
            }
            i += q.len();
        } else {
            out.push(v[i]);
            proof {
                lemma_after_after(s@, i as int, 1);
                let tail = replaced(after(s@, i + 1), from@, to@);
                assert(rest[0] == s@[i as int]);
                assert(done + (seq![rest[0]] + tail) =~= out@ + tail);
            }
            i += 1;
        }
    }
    assert(out@ + replaced(after(s@, i as int), from@, to@) =~= out@);
    out
}

/// Whether `c` is white space.
pub fn char_is_space(c: char) -> (r: bool)
    ensures
        r == is_space(c),
{
    let n: u32 = c as u32;
    (0x9 <= n && n <= 0xd) || n == 0x20 || n == 0x85 || n == 0xa0 || n == 0x1680 || (0x2000 <= n
        && n <= 0x200a) || n == 0x2028 || n == 0x2029 || n == 0x202f || n == 0x205f || n == 0x3000
}

/// `s` without the white space around it.
pub fn trim<'a>(s: &'a str) -> (r: &'a str)
    ensures
        r@ == trimmed(s@),
{
    let v = chars_of(s);
    let mut from: usize = 0;
    proof {
        assert(after(s@, 0) =~= s@);
    }
    while from < v.len() && char_is_space(v[from])
        invariant
            v@ == s@,
            from <= v.len(),
            trimmed_start(s@) == trimmed_start(after(s@, from as int)),
        decreases v.len() - from,
    {
        proof {
            lemma_after_after(s@, from as int, 1);
        }
        from += 1;
    }
    let ghost rest = after(s@, from as int);
    assert(trimmed_start(s@) == rest);
    let mut to: usize = v.len();
    assert(s@.subrange(from as int, to as int) =~= rest);
    while to > from && char_is_space(v[to - 1])
        invariant
            v@ == s@,
            from <= to <= v.len(),
            trimmed_end(rest) == trimmed_end(s@.subrange(from as int, to as int)),
        decreases to,
    {
        let ghost now = s@.subrange(from as int, to as int);
        proof {
            assert(now.last() == s@[to - 1]);
            assert(now.drop_last() =~= s@.subrange(from as int, to - 1));
        }
        to -= 1;
    }
    proof {
        let now = s@.subrange(from as int, to as int);
        if to > from {
            assert(now.last() == s@[to - 1]);
        }
        assert(trimmed_end(now) == now);
    }
    s.substring_char(from, to)
}

/// Whether `c` is an ASCII letter or digit.
pub fn char_is_alphanumeric(c: char) -> (r: bool)
    ensures
        r == is_alphanumeric(c),
{
    ('A' <= c && c <= 'Z') || ('a' <= c && c <= 'z') || ('0' <= c && c <= '9')
}

/// The lower case of an ASCII letter.
pub fn lower(c: char) -> (r: char)
    ensures
        r == lower_char(c),
{
    if 'A' <= c && c <= 'Z' {
        ((c as u8) + 32) as char
    } else {
        c
    }
}

/// `s` with its ASCII letters in lower case.
pub fn to_ascii_lowercase(s: &str) -> (r: String)
    ensures
        r@ == ascii_lower(s@),
{
    let v = chars_of(s);
    let mut out = String::new();
    let mut i: usize = 0;
    while i < v.len()
        invariant
            v@ == s@,
            i <= v.len(),
            out@ == ascii_lower(s@.take(i as int)),
        decreases v.len() - i,
    {
        out.push(lower(v[i]));
        i += 1;
        assert(out@ =~= ascii_lower(s@.take(i as int)));
    }
    assert(s@.take(i as int) =~= s@);
    out
}

/// Whether `a` stands before `b` in the order of their characters.
pub fn less(a: &str, b: &str) -> (r: bool)
    ensures
        r == precedes(a@, b@),
{
    let v = chars_of(a);
    let w = chars_of(b);
    let mut i: usize = 0;
    while i < v.len() && i < w.len() && v[i] == w[i]
        invariant
            v@ == a@,
            w@ == b@,
            i <= v.len(),
            i <= w.len(),
            a@.subrange(0, i as int) == b@.subrange(0, i as int),
        decreases v.len() - i,
    {
        i += 1;
        assert(a@.subrange(0, i as int) =~= a@.subrange(0, i - 1).push(a@[i - 1]));
        assert(b@.subrange(0, i as int) =~= b@.subrange(0, i - 1).push(b@[i - 1]));
    }
    proof {
        lemma_precedes_at(a@, b@, i as int);
        if i < v.len() && i < w.len() {
            assert(after(a@, i as int)[0] == a@[i as int]);
            assert(after(b@, i as int)[0] == b@[i as int]);
        }
    }
    if i == w.len() {
        false
    } else if i == v.len() {
        true
    } else {
        v[i] < w[i]
    }
}

/// The decimal digits of `n`.
pub fn number(n: u64) -> (r: String)
    ensures
        r@ == decimal(n as nat),
    decreases n,
{
    let last: char = (48 + (n % 10) as u8) as char;
    let mut out = if n < 10 {
        String::new()
    } else {
        number(n / 10)
    };
    out.push(last);
    proof {
        if n < 10 {
            assert(out@ =~= decimal(n as nat));
        }
    }
    out
}


/// The number that a sequence of digits stands for.
pub open spec fn digits_value(s: Seq<char>) -> nat
    decreases s.len(),
{
    if s.len() == 0 {
        0
    } else {
        digits_value(s.drop_last()) * 10 + (s.last() as u32 - '0' as u32) as nat
    }
}

pub open spec fn all_digits(s: Seq<char>) -> bool {
    forall|i: int| 0 <= i < s.len() ==> is_digit(#[trigger] s[i])
}

/// The whole number that a text stands for: digits behind an optional sign, within
/// the range of an `i64`.
pub open spec fn whole_number(s: Seq<char>) -> Option<int> {
    let signed = s.len() > 0 && (s[0] == '-' || s[0] == '+');
    let body = if signed {
        after(s, 1)
    } else {
        s
    };
    let n = if signed && s[0] == '-' {
        -(digits_value(body) as int)
    } else {
        digits_value(body) as int
    };
    if body.len() == 0 || !all_digits(body) || n < i64::MIN || n > i64::MAX {
        None
    } else {
        Some(n)
    }
}

proof fn lemma_digits_grow(s: Seq<char>, i: int)
    requires
        0 <= i <= s.len(),
        all_digits(s),
    ensures
        digits_value(s.take(i)) <= digits_value(s),
    decreases s.len() - i,
{
    if i < s.len() {
        lemma_digits_grow(s, i + 1);
        assert(s.take(i + 1).drop_last() =~= s.take(i));
        assert(is_digit(s[i]));
    } else {
        assert(s.take(i) =~= s);
    }
}

/// The whole number that a text stands for.
pub fn parse_i64(s: &str) -> (r: Option<i64>)
    ensures
        r.is_some() == whole_number(s@).is_some(),
        r matches Some(n) ==> n as int == whole_number(s@)->0,
{
    let v = chars_of(s);
    let mut from: usize = 0;
    let mut negative = false;
    if v.len() > 0 && (v[0] == '-' || v[0] == '+') {
        negative = v[0] == '-';
        from = 1;
    }
    let ghost body = if from == 1 {
        after(s@, 1)
    } else {
        s@
    };
    if from == v.len() {
        return None;
    }
    let mut i: usize = from;
    while i < v.len()
        invariant
            v@ == s@,
            from <= i <= v.len(),
            body.len() == v.len() - from,
            forall|k: int| 0 <= k < body.len() ==> body[k] == s@[from + k],
            forall|k: int| 0 <= k < i - from ==> is_digit(#[trigger] body[k]),
            whole_number(s@) is Some ==> all_digits(body),
        decreases v.len() - i,
    {
        if !('0' <= v[i] && v[i] <= '9') {
            assert(!is_digit(body[i - from]));
            return None;
        }
        i += 1;
    }
    let limit: u64 = 9223372036854775808;
    let mut n: u64 = 0;
    i = from;
    while i < v.len()
        invariant
            v@ == s@,
            from <= i <= v.len(),
            limit == 9223372036854775808,
            body.len() == v.len() - from,
            forall|k: int| 0 <= k < body.len() ==> body[k] == s@[from + k],
            all_digits(body),
            n <= limit,
            n == digits_value(body.take(i - from)),
            whole_number(s@) is Some ==> digits_value(body) <= limit,
        decreases v.len() - i,
    {
        assert(is_digit(body[i - from]));
        let d: u64 = (v[i] as u32 - 48) as u64;
        proof {
            assert(body.take(i - from + 1).drop_last() =~= body.take(i - from));
            lemma_digits_grow(body, i - from + 1);
        }
        if n > (limit - d) / 10 {
            assert(n * 10 + d > limit);
            return None;
        }
        n = n * 10 + d;
        i += 1;
    }
    assert(body.take(i - from) =~= body);
    if negative {
        if n == limit {
            Some(i64::MIN)
        } else {
            Some(-(n as i64))
        }
    } else if n < limit {
        Some(n as i64)
    } else {
        None
    }
}

/// Numbers below ten are written with one digit, others with the digits of their
/// tenth in front: different numbers are written differently.
pub proof fn lemma_decimal_injective(a: nat, b: nat)
    requires
        decimal(a) == decimal(b),
    ensures
        a == b,
    decreases a + b,
{
    lemma_decimal_digits(a);
    lemma_decimal_digits(b);
    assert(digit((a % 10) as int) == decimal(a).last());
    assert(digit((b % 10) as int) == decimal(b).last());
    assert(a % 10 == b % 10);
    if a >= 10 && b >= 10 {
        assert(decimal(a).drop_last() =~= decimal(a / 10));
        assert(decimal(b).drop_last() =~= decimal(b / 10));
        lemma_decimal_injective(a / 10, b / 10);
    }
}

pub proof fn lemma_decimal_digits(n: nat)
    ensures
        decimal(n).len() >= 1,
        n < 10 <==> decimal(n).len() == 1,
        all_digits(decimal(n)),
    decreases n,
{
    if n >= 10 {
        lemma_decimal_digits(n / 10);
    }
}


/// `s` without the characters `c` at its end.
pub open spec fn end_trimmed(s: Seq<char>, c: char) -> Seq<char>
    decreases s.len(),
{
    if s.len() > 0 && s.last() == c {
        end_trimmed(s.drop_last(), c)
    } else {
        s
    }
}

/// `s` without the characters `a` and `b` at its start.
pub open spec fn start_trimmed(s: Seq<char>, a: char, b: char) -> Seq<char>
    decreases s.len(),
{
    if s.len() > 0 && (s[0] == a || s[0] == b) {
        start_trimmed(after(s, 1), a, b)
    } else {
        s
    }
}

/// `s` without the characters `c` at its end.
pub fn trim_end_char<'a>(s: &'a str, c: char) -> (r: &'a str)
    ensures
        r@ == end_trimmed(s@, c),
{
    let v = chars_of(s);
    let mut n: usize = v.len();
    assert(v@.take(n as int) =~= v@);
    while n > 0 && v[n - 1] == c
        invariant
            n <= v.len(),
            v@ == s@,
            end_trimmed(s@, c) == end_trimmed(s@.take(n as int), c),
        decreases n,
    {
        assert(s@.take(n as int).drop_last() =~= s@.take(n - 1));
        n -= 1;
    }
    let r = s.substring_char(0, n);
    assert(r@ =~= s@.take(n as int));
    r
}

/// `s` without the characters `a` and `b` at its start.
pub fn trim_start_chars<'a>(s: &'a str, a: char, b: char) -> (r: &'a str)
    ensures
        r@ == start_trimmed(s@, a, b),
{
    let v = chars_of(s);
    let mut i: usize = 0;
    assert(after(s@, 0) =~= s@);
    while i < v.len() && (v[i] == a || v[i] == b)
        invariant
            i <= v.len(),
            v@ == s@,
            start_trimmed(s@, a, b) == start_trimmed(after(s@, i as int), a, b),
        decreases v.len() - i,
    {
        proof {
            lemma_after_after(s@, i as int, 1);
        }
        i += 1;
    }
    s.substring_char(i, v.len())
}


/// The position where `p` first stands in `s` at or behind `from`; the length of `s`
/// and one more where it does not.
pub open spec fn find_text_from(s: Seq<char>, p: Seq<char>, from: int) -> int
    decreases s.len() + 1 - from,
{
    if from < 0 || from > s.len() {
        s.len() as int + 1
    } else if occurs_at(s, p, from) {
        from
    } else {
        find_text_from(s, p, from + 1)
    }
}

/// The two sides of the first `p`.
pub open spec fn sides(s: Seq<char>, p: Seq<char>) -> Option<(Seq<char>, Seq<char>)> {
    let i = find_text_from(s, p, 0);
    if i <= s.len() {
        Some((before(s, i), after(s, i + p.len())))
    } else {
        None
    }
}

/// The two sides of the first `p` in `s`.
pub fn split_text<'a>(s: &'a str, p: &str) -> (r: Option<(&'a str, &'a str)>)
    ensures
        r.is_some() == sides(s@, p@).is_some(),
        r matches Some(h) ==> (h.0@, h.1@) == sides(s@, p@)->0,
{
    let v = chars_of(s);
    let q = chars_of(p);
    let mut i: usize = 0;
    while i < v.len()
        invariant
            i <= v.len(),
            v@ == s@,
            q@ == p@,
            find_text_from(s@, p@, 0) == find_text_from(s@, p@, i as int),
        decreases v.len() - i,
    {
        if stands_at(&v, &q, i) {
            return Some((s.substring_char(0, i), s.substring_char(i + q.len(), v.len())));
        }
        i += 1;
    }
    if stands_at(&v, &q, i) {
        return Some((s.substring_char(0, i), s.substring_char(i + q.len(), v.len())));
    }
    assert(find_text_from(s@, p@, i + 1) == s@.len() + 1);
    None
}

/// A text that another follows starts with the text.
pub proof fn lemma_prefix_of_joined(a: Seq<char>, b: Seq<char>)
    ensures
        has_prefix(a + b, a),
{
    assert((a + b).subrange(0, a.len() as int) =~= a);
}

// ---------------------------------------------------------------------------
// Lines
// ---------------------------------------------------------------------------
/// A line without the carriage return at its end.
pub open spec fn without_return(line: Seq<char>) -> Seq<char> {
    match without_suffix(line, "\r"@) {
        Some(t) => t,
        None => line,
    }
}

/// The lines of a text. What follows the last line feed is a line unless it is empty,
/// and keeps its carriage return.
pub open spec fn lines_of(s: Seq<char>) -> Seq<Seq<char>> {
    let p = pieces(s, '\n');
    let ended = p.drop_last().map_values(|l: Seq<char>| without_return(l));
    if p.last().len() > 0 {
        ended.push(p.last())
    } else {
        ended
    }
}

/// The lines of a text.
pub fn lines<'a>(s: &'a str) -> (r: Vec<&'a str>)
    ensures
        str_views(r@) == lines_of(s@),
{
    let parts = split(s, '\n');
    let ghost all = str_views(parts@);
    assert(all.len() == parts.len());
    let last: usize = parts.len() - 1;
    let mut out: Vec<&'a str> = Vec::new();
    let mut i: usize = 0;
    while i < last
        invariant
            i <= last < parts.len(),
            all == str_views(parts@),
            str_views(out@) =~= all.take(i as int).map_values(|l: Seq<char>| without_return(l)),
        decreases last - i,
    {
        let line = match strip_suffix(parts[i], "\r") {
            Some(t) => t,
            None => parts[i],
        };
        assert(all[i as int] == parts@[i as int]@);
        proof {
            lemma_str_views_push(out@, line);
        }
        out.push(line);
        i += 1;
    }
    assert(all.drop_last() =~= all.take(last as int));
    assert(all.last() == parts@[last as int]@);
    if !parts[last].is_empty() {
        proof {
            lemma_str_views_push(out@, parts@[last as int]);
        }
        out.push(parts[last]);
    }
    out
}

/// `s` without the white space at its start.
pub fn trim_start<'a>(s: &'a str) -> (r: &'a str)
    ensures
        r@ == trimmed_start(s@),
{
    let v = chars_of(s);
    let mut from: usize = 0;
    assert(after(s@, 0) =~= s@);
    while from < v.len() && char_is_space(v[from])
        invariant
            v@ == s@,
            from <= v.len(),
            trimmed_start(s@) == trimmed_start(after(s@, from as int)),
        decreases v.len() - from,
    {
        proof {
            lemma_after_after(s@, from as int, 1);
        }
        from += 1;
    }
    s.substring_char(from, v.len())
}

// ---------------------------------------------------------------------------
// Columns
// ---------------------------------------------------------------------------
/// So many copies of a character.
pub open spec fn repeated(c: char, n: nat) -> Seq<char> {
    Seq::new(n, |i: int| c)
}

/// The text with spaces behind it, up to a width in characters.
pub open spec fn padded(s: Seq<char>, width: nat) -> Seq<char> {
    if s.len() < width {
        s + repeated(' ', (width - s.len()) as nat)
    } else {
        s
    }
}

/// How many bytes the text takes.
pub open spec fn byte_len(s: Seq<char>) -> usize {
    encode_utf8(s).len() as usize
}

/// So many copies of a character.
pub fn repeat(c: char, n: usize) -> (r: String)
    ensures
        r@ == repeated(c, n as nat),
{
    let mut out = String::new();
    let mut i: usize = 0;
    while i < n
        invariant
            i <= n,
            out@ =~= repeated(c, i as nat),
        decreases n - i,
    {
        out.push(c);
        i += 1;
    }
    out
}

/// The text with spaces behind it, up to a width in characters.
pub fn pad(s: &str, width: usize) -> (r: String)
    ensures
        r@ == padded(s@, width as nat),
{
    let n: usize = s.unicode_len();
    if n < width {
        s.to_owned().concat(repeat(' ', width - n).as_str())
    } else {
        s.to_owned()
    }
}

} // verus!
