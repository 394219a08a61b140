//! Lexicographic order on character sequences (the order of `str`/`String`,
//! since UTF-8 byte order agrees with code point order) and a three-way
//! comparison result used by the sorting routines of the library.
use vstd::prelude::*;

verus! {

/// Result of a three-way comparison.
#[derive(Debug, Clone, Copy, PartialEq, Eq, Structural)]
pub enum Order3 {
    Less,
    Equal,
    Greater,
}

/// `a` sorts strictly before `b`.
pub open spec fn seq_lt(a: Seq<char>, b: Seq<char>) -> bool
    decreases a.len(),
{
    if a.len() == 0 {
        b.len() > 0
    } else if b.len() == 0 {
        false
    } else if a[0] < b[0] {
        true
    } else if a[0] == b[0] {
        seq_lt(a.drop_first(), b.drop_first())
    } else {
        false
    }
}

pub proof fn lemma_seq_lt_irreflexive(a: Seq<char>)
    ensures
        !seq_lt(a, a),
    decreases a.len(),
{
    if a.len() > 0 {
        lemma_seq_lt_irreflexive(a.drop_first());
    }
}

pub proof fn lemma_seq_lt_transitive(a: Seq<char>, b: Seq<char>, c: Seq<char>)
    requires
        seq_lt(a, b),
        seq_lt(b, c),
    ensures
        seq_lt(a, c),
    decreases a.len(),
{
    if a.len() > 0 && b.len() > 0 && c.len() > 0 {
        if a[0] == b[0] && b[0] == c[0] {
            lemma_seq_lt_transitive(a.drop_first(), b.drop_first(), c.drop_first());
        }
    }
}

pub proof fn lemma_seq_lt_total(a: Seq<char>, b: Seq<char>)
    ensures
        a == b || seq_lt(a, b) || seq_lt(b, a),
    decreases a.len(),
{
    if a.len() > 0 && b.len() > 0 && a[0] == b[0] {
        lemma_seq_lt_total(a.drop_first(), b.drop_first());
        if a.drop_first() == b.drop_first() {
            assert(a =~= seq![a[0]] + a.drop_first());
            assert(b =~= seq![b[0]] + b.drop_first());
        }
    } else if a.len() == 0 && b.len() == 0 {
        assert(a =~= b);
    }
}

pub proof fn lemma_seq_lt_asymmetric(a: Seq<char>, b: Seq<char>)
    requires
        seq_lt(a, b),
    ensures
        !seq_lt(b, a),
        a != b,
{
    if seq_lt(b, a) {
        lemma_seq_lt_transitive(a, b, a);
        lemma_seq_lt_irreflexive(a);
    }
    if a == b {
        lemma_seq_lt_irreflexive(a);
    }
}

/// The three-way comparison that `seq_lt` induces.
pub open spec fn seq_order(a: Seq<char>, b: Seq<char>) -> Order3 {
    if seq_lt(a, b) {
        Order3::Less
    } else if a == b {
        Order3::Equal
    } else {
        Order3::Greater
    }
}

/// Lexicographic comparison of character sequences.
pub fn compare_chars(a: &[char], b: &[char]) -> (r: Order3)
    ensures
        r == seq_order(a@, b@),
        r == Order3::Greater ==> seq_lt(b@, a@),
{
    let mut i: usize = 0;
    while i < a.len() && i < b.len() && a[i] == b[i]
        invariant
            i <= a.len(),
            i <= b.len(),
            a@.take(i as int) == b@.take(i as int),
        decreases a.len() - i,
    {
        assert(a@.take(i + 1) =~= a@.take(i as int).push(a@[i as int]));
        assert(b@.take(i + 1) =~= b@.take(i as int).push(b@[i as int]));
        i = i + 1;
    }
    proof {
        lemma_prefix_lt(a@, b@, i as int);
    }
    if i < a.len() && i < b.len() {
        if a[i] < b[i] {
            Order3::Less
        } else {
            proof {
                lemma_seq_lt_asymmetric(b@, a@);
            }
            Order3::Greater
        }
    } else if i < b.len() {
        Order3::Less
    } else if i < a.len() {
        proof {
            lemma_seq_lt_asymmetric(b@, a@);
        }
        Order3::Greater
    } else {
        assert(a@ =~= a@.take(i as int));
        assert(b@ =~= b@.take(i as int));
        proof {
            lemma_seq_lt_irreflexive(a@);
        }
        Order3::Equal
    }
}

/// Comparison of sequences sharing a prefix of length `i` reduces to what
/// follows it.
pub proof fn lemma_prefix_lt(a: Seq<char>, b: Seq<char>, i: int)
    requires
        0 <= i <= a.len(),
        i <= b.len(),
        a.take(i) == b.take(i),
    ensures
        i < a.len() && i < b.len() && a[i] != b[i] ==> (seq_lt(a, b) <==> a[i] < b[i]) && (seq_lt(b, a)
            <==> b[i] < a[i]),
        i == a.len() && i < b.len() ==> seq_lt(a, b) && !seq_lt(b, a),
        i == b.len() && i < a.len() ==> seq_lt(b, a) && !seq_lt(a, b),
    decreases i,
{
    if i > 0 {
        assert(a[0] == a.take(i)[0]);
        assert(b[0] == b.take(i)[0]);
        assert(a.drop_first().take(i - 1) =~= a.take(i).drop_first());
        assert(b.drop_first().take(i - 1) =~= b.take(i).drop_first());
        lemma_prefix_lt(a.drop_first(), b.drop_first(), i - 1);
        if i < a.len() && i < b.len() {
            assert(a[i] == a.drop_first()[i - 1]);
            assert(b[i] == b.drop_first()[i - 1]);
        }
    }
}

/// Three-way comparison of strings.
pub fn compare_str(a: &str, b: &str) -> (r: Order3)
    ensures
        r == seq_order(a@, b@),
{
    let av = crate::text::chars_of(a);
    let bv = crate::text::chars_of(b);
    compare_chars(av.as_slice(), bv.as_slice())
}

} // verus!
