//! What holds of the generated code.
use vstd::prelude::*;

use crate::autoload::installed::php_literal;
use crate::text::{after, has_prefix, replaced};

verus! {

/// One character as it stands between PHP quotes.
pub open spec fn escaped_char(c: char) -> Seq<char> {
    if c == '\\' {
        seq!['\\', '\\']
    } else if c == '\'' {
        seq!['\\', '\'']
    } else {
        seq![c]
    }
}

/// A text as it stands between PHP quotes.
pub open spec fn escaped_text(s: Seq<char>) -> Seq<char>
    decreases s.len(),
{
    if s.len() == 0 {
        Seq::empty()
    } else {
        escaped_char(s[0]) + escaped_text(after(s, 1))
    }
}

proof fn lemma_replaced_step(s: Seq<char>, c: char, to: Seq<char>)
    requires
        s.len() > 0,
    ensures
        replaced(s, seq![c], to) == if s[0] == c {
            to + replaced(after(s, 1), seq![c], to)
        } else {
            seq![s[0]] + replaced(after(s, 1), seq![c], to)
        },
{
    let p = seq![c];
    if s[0] == c {
        assert(s.subrange(0, 1) =~= p);
    } else {
        assert(s.subrange(0, 1)[0] == s[0]);
        assert(p[0] == c);
    }
    assert(has_prefix(s, p) == (s[0] == c));
}

proof fn lemma_quoted_is_escaped(s: Seq<char>)
    ensures
        replaced(
            replaced(s, seq!['\\'], seq!['\\', '\\']),
            seq!['\''],
            seq!['\\', '\''],
        ) == escaped_text(s),
    decreases s.len(),
{
    let two = seq!['\\', '\\'];
    let quote = seq!['\\', '\''];
    if s.len() > 0 {
        let rest = after(s, 1);
        lemma_quoted_is_escaped(rest);
        lemma_replaced_step(s, '\\', two);
        let r = replaced(rest, seq!['\\'], two);
        let t = replaced(s, seq!['\\'], two);
        lemma_replaced_step(t, '\'', quote);
        if s[0] == '\\' {
            assert(t == two + r);
            assert(after(t, 1) =~= seq!['\\'] + r);
            lemma_replaced_step(after(t, 1), '\'', quote);
            assert(after(after(t, 1), 1) =~= r);
            assert(seq!['\\'] + (seq!['\\'] + escaped_text(rest)) =~= two + escaped_text(rest));
        } else {
            assert(t == seq![s[0]] + r);
            assert(after(t, 1) =~= r);
        }
    }
}

proof fn lemma_escaped_injective(a: Seq<char>, b: Seq<char>)
    requires
        escaped_text(a) == escaped_text(b),
    ensures
        a == b,
    decreases a.len() + b.len(),
{
    let x = escaped_text(a);
    if a.len() == 0 || b.len() == 0 {
        if a.len() > 0 {
            assert(x.len() >= 1);
        }
        if b.len() > 0 {
            assert(x.len() >= 1);
        }
        assert(a =~= b);
    } else {
        let ra = escaped_text(after(a, 1));
        let rb = escaped_text(after(b, 1));
        let ea = escaped_char(a[0]);
        let eb = escaped_char(b[0]);
        assert(x == ea + ra && x == eb + rb);
        assert(x[0] == ea[0] && x[0] == eb[0]);
        if ea.len() == 2 && eb.len() == 2 {
            assert(x[1] == ea[1] && x[1] == eb[1]);
        }
        assert(ea.len() == eb.len());
        assert(a[0] == b[0]);
        let n = ea.len() as int;
        assert(ra =~= x.subrange(n, x.len() as int));
        assert(rb =~= x.subrange(n, x.len() as int));
        lemma_escaped_injective(after(a, 1), after(b, 1));
        assert(a =~= seq![a[0]] + after(a, 1));
        assert(b =~= seq![b[0]] + after(b, 1));
    }
}

/// Different texts are different PHP literals: nothing in a text can end its literal
/// or be read as part of another.
pub proof fn law_php_literals_differ(a: Seq<char>, b: Seq<char>)
    requires
        php_literal(a) == php_literal(b),
    ensures
        a == b,
{
    reveal_strlit("\\");
    reveal_strlit("\\\\");
    reveal_strlit("'");
    reveal_strlit("\\'");
    assert("\\"@ =~= seq!['\\']);
    assert("\\\\"@ =~= seq!['\\', '\\']);
    assert("'"@ =~= seq!['\'']);
    assert("\\'"@ =~= seq!['\\', '\'']);
    lemma_quoted_is_escaped(a);
    lemma_quoted_is_escaped(b);
    let x = php_literal(a);
    assert(escaped_text(a) =~= x.subrange(1, x.len() - 1));
    assert(escaped_text(b) =~= x.subrange(1, x.len() - 1));
    lemma_escaped_injective(a, b);
}

} // verus!
