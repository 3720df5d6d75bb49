use vstd::prelude::*;
use vstd::utf8::encode_utf8;

verus! {

/// Lexicographic order on byte sequences, smallest first.
///
/// Backup archives carry timestamp-derived names whose lexical order equals
/// their chronological order, so the retention engine orders names by their
/// UTF-8 bytes, exactly as the standard library orders `str` values.
pub open spec fn lex_le(a: Seq<u8>, b: Seq<u8>) -> bool
    decreases a.len(),
{
    if a.len() == 0 {
        true
    } else if b.len() == 0 {
        false
    } else if a[0] < b[0] {
        true
    } else if a[0] > b[0] {
        false
    } else {
        lex_le(a.drop_first(), b.drop_first())
    }
}

/// The UTF-8 bytes of a name, the order key of the retention engine.
pub open spec fn name_key(s: Seq<char>) -> Seq<u8> {
    encode_utf8(s)
}

/// Order on names: by the lexicographic order of their UTF-8 bytes.
pub open spec fn name_le(a: String, b: String) -> bool {
    lex_le(name_key(a@), name_key(b@))
}

/// A sequence of names in ascending lexical order (ties allowed).
pub open spec fn names_sorted(s: Seq<String>) -> bool {
    forall|i: int, j: int| 0 <= i < j < s.len() ==> name_le(#[trigger] s[i], #[trigger] s[j])
}

/// Strict lexicographic order on byte sequences.
pub open spec fn lex_lt(a: Seq<u8>, b: Seq<u8>) -> bool {
    lex_le(a, b) && a != b
}

/// A strict comparison of two equal-length sequences is decided by their
/// first difference, whatever follows each of them.
pub proof fn lemma_lex_lt_append(a: Seq<u8>, b: Seq<u8>, x: Seq<u8>, y: Seq<u8>)
    requires
        a.len() == b.len(),
        lex_lt(a, b),
    ensures
        lex_lt(a + x, b + y),
    decreases a.len(),
{
    assert(a.len() > 0) by {
        if a.len() == 0 {
            assert(a =~= b);
        }
    }
    assert((a + x)[0] == a[0]);
    assert((b + y)[0] == b[0]);
    if a[0] < b[0] {
        assert((a + x)[0] != (b + y)[0]);
    } else {
        assert(a[0] == b[0]);
        assert(a.drop_first().len() == b.drop_first().len());
        assert(lex_lt(a.drop_first(), b.drop_first())) by {
            if a.drop_first() == b.drop_first() {
                assert forall|i: int| 0 <= i < a.len() implies a[i] == b[i] by {
                    if i > 0 {
                        assert(a[i] == a.drop_first()[i - 1]);
                        assert(b[i] == b.drop_first()[i - 1]);
                    }
                }
                assert(a =~= b);
            }
        }
        lemma_lex_lt_append(a.drop_first(), b.drop_first(), x, y);
        assert((a + x).drop_first() =~= a.drop_first() + x);
        assert((b + y).drop_first() =~= b.drop_first() + y);
        assert((a + x) != (b + y)) by {
            if a + x == b + y {
                assert(a.drop_first() + x =~= b.drop_first() + y);
            }
        }
    }
}

/// A strict comparison is kept under any common prefix.
pub proof fn lemma_lex_lt_prefix(p: Seq<u8>, a: Seq<u8>, b: Seq<u8>)
    requires
        lex_lt(a, b),
    ensures
        lex_lt(p + a, p + b),
    decreases p.len(),
{
    if p.len() == 0 {
        assert(p + a =~= a);
        assert(p + b =~= b);
    } else {
        assert((p + a)[0] == p[0]);
        assert((p + b)[0] == p[0]);
        lemma_lex_lt_prefix(p.drop_first(), a, b);
        assert((p + a).drop_first() =~= p.drop_first() + a);
        assert((p + b).drop_first() =~= p.drop_first() + b);
        assert((p + a) != (p + b)) by {
            if p + a == p + b {
                assert(p.drop_first() + a =~= p.drop_first() + b);
            }
        }
    }
}

/// Any two byte sequences are ordered one way or the other.
pub proof fn lemma_lex_le_total(a: Seq<u8>, b: Seq<u8>)
    ensures
        lex_le(a, b) || lex_le(b, a),
    decreases a.len(),
{
    if a.len() > 0 && b.len() > 0 && a[0] == b[0] {
        lemma_lex_le_total(a.drop_first(), b.drop_first());
    }
}

/// `lex_le` is transitive.
pub proof fn lemma_lex_le_trans(a: Seq<u8>, b: Seq<u8>, c: Seq<u8>)
    requires
        lex_le(a, b),
        lex_le(b, c),
    ensures
        lex_le(a, c),
    decreases a.len(),
{
    if a.len() > 0 {
        if a[0] == b[0] && b[0] == c[0] {
            lemma_lex_le_trans(a.drop_first(), b.drop_first(), c.drop_first());
        }
    }
}

/// Byte sequences ordered both ways are equal.
pub proof fn lemma_lex_le_antisym(a: Seq<u8>, b: Seq<u8>)
    requires
        lex_le(a, b),
        lex_le(b, a),
    ensures
        a == b,
    decreases a.len(),
{
    if a.len() > 0 {
        assert(b.len() > 0);
        assert(a[0] == b[0]);
        lemma_lex_le_antisym(a.drop_first(), b.drop_first());
        assert forall|i: int| 0 <= i < a.len() implies a[i] == b[i] by {
            if i > 0 {
                assert(a[i] == a.drop_first()[i - 1]);
                assert(b[i] == b.drop_first()[i - 1]);
            }
        }
        assert(a =~= b);
    } else {
        assert(b.len() == 0);
        assert(a =~= b);
    }
}

/// Lexicographic comparison of two byte slices: true when `a` comes before
/// `b` or equals it.
pub fn bytes_le(a: &[u8], b: &[u8]) -> (r: bool)
    ensures
        r == lex_le(a@, b@),
{
    let alen = a.len();
    let blen = b.len();
    let mut i: usize = 0;
    proof {
        assert(a@.skip(0) =~= a@);
        assert(b@.skip(0) =~= b@);
    }
    while i < alen && i < blen
        invariant
            i <= alen,
            i <= blen,
            alen == a@.len(),
            blen == b@.len(),
            lex_le(a@, b@) == lex_le(a@.skip(i as int), b@.skip(i as int)),
        decreases alen - i,
    {
        let x = a[i];
        let y = b[i];
        proof {
            assert(a@.skip(i as int)[0] == a@[i as int]);
            assert(b@.skip(i as int)[0] == b@[i as int]);
        }
        if x < y {
            return true;
        }
        if x > y {
            return false;
        }
        proof {
            assert(a@.skip(i as int).drop_first() =~= a@.skip(i + 1));
            assert(b@.skip(i as int).drop_first() =~= b@.skip(i + 1));
        }
        i = i + 1;
    }
    proof {
        if alen <= blen {
            assert(a@.skip(i as int).len() == 0);
        } else {
            assert(b@.skip(i as int).len() == 0);
            assert(a@.skip(i as int).len() > 0);
        }
    }
    alen <= blen
}

/// `name_le`, decided on the names' UTF-8 bytes.
pub fn names_le(a: &String, b: &String) -> (r: bool)
    ensures
        r == name_le(*a, *b),
{
    bytes_le(a.as_str().as_bytes(), b.as_str().as_bytes())
}

/// The position at which `x` belongs in the sorted sequence `sorted`:
/// past every name ordered at or before `x`, before every later one.
fn insert_pos(sorted: &Vec<String>, x: &String) -> (p: usize)
    requires
        names_sorted(sorted@),
    ensures
        p <= sorted@.len(),
        forall|k: int| 0 <= k < p ==> name_le(#[trigger] sorted@[k], *x),
        forall|k: int| p <= k < sorted@.len() ==> name_le(*x, #[trigger] sorted@[k]),
        p < sorted@.len() ==> !name_le(sorted@[p as int], *x),
{
    let len = sorted.len();
    let mut p: usize = 0;
    while p < len && names_le(&sorted[p], x)
        invariant
            p <= len,
            len == sorted@.len(),
            names_sorted(sorted@),
            forall|k: int| 0 <= k < p ==> name_le(#[trigger] sorted@[k], *x),
        decreases len - p,
    {
        p = p + 1;
    }
    proof {
        if p < sorted@.len() {
            lemma_lex_le_total(name_key(x@), name_key(sorted@[p as int]@));
            assert forall|k: int| p <= k < sorted@.len() implies name_le(
                *x,
                #[trigger] sorted@[k],
            ) by {
                if k > p {
                    lemma_lex_le_trans(
                        name_key(x@),
                        name_key(sorted@[p as int]@),
                        name_key(sorted@[k]@),
                    );
                }
            }
        }
    }
    p
}

/// Sort names into ascending lexical order.
///
/// The result holds exactly the given names (as a multiset) in sorted order;
/// for timestamp-derived backup names this is chronological order.
pub fn sort_names(names: &Vec<String>) -> (r: Vec<String>)
    ensures
        names_sorted(r@),
        r@.to_multiset() == names@.to_multiset(),
        r@.len() == names@.len(),
        names_sorted(names@) ==> r@ == names@,
{
    let len = names.len();
    let mut out: Vec<String> = Vec::new();
    proof {
        assert(names@.take(0) =~= Seq::<String>::empty());
        out@.to_multiset_ensures();
        names@.take(0).to_multiset_ensures();
        assert(out@.to_multiset() =~= names@.take(0).to_multiset());
        assert(out@ =~= names@.take(0));
    }
    let mut i: usize = 0;
    while i < len
        invariant
            i <= len,
            len == names@.len(),
            names_sorted(out@),
            out@.len() == i,
            out@.to_multiset() == names@.take(i as int).to_multiset(),
            names_sorted(names@.take(i as int)) ==> out@ == names@.take(i as int),
        decreases len - i,
    {
        let x = names[i].clone();
        let p = insert_pos(&out, &x);
        let ghost prev = out@;
        out.insert(p, x);
        proof {
            if names_sorted(names@.take(i + 1)) {
                assert(names_sorted(names@.take(i as int))) by {
                    assert forall|a: int, b: int|
                        0 <= a < b < i implies name_le(
                        #[trigger] names@.take(i as int)[a],
                        #[trigger] names@.take(i as int)[b],
                    ) by {
                        assert(names@.take(i as int)[a] == names@.take(i + 1)[a]);
                        assert(names@.take(i as int)[b] == names@.take(i + 1)[b]);
                        assert(name_le(names@.take(i + 1)[a], names@.take(i + 1)[b]));
                    }
                }
                assert(prev == names@.take(i as int));
                assert forall|a: int| 0 <= a < i implies name_le(
                    #[trigger] prev[a],
                    names@[i as int],
                ) by {
                    assert(names@.take(i + 1)[a] == prev[a]);
                    assert(names@.take(i + 1)[i as int] == names@[i as int]);
                    assert(name_le(names@.take(i + 1)[a], names@.take(i + 1)[i as int]));
                }
                assert(p == i);
                assert(out@ =~= names@.take(i + 1));
            }
            assert(out@ == prev.insert(p as int, names@[i as int]));
            vstd::seq_lib::to_multiset_insert(prev, p as int, names@[i as int]);
            vstd::seq_lib::to_multiset_build(names@.take(i as int), names@[i as int]);
            assert(names@.take(i + 1) =~= names@.take(i as int).push(names@[i as int]));
            assert(out@.to_multiset() =~= names@.take(i + 1).to_multiset());
            assert forall|a: int, b: int| 0 <= a < b < out@.len() implies name_le(
                #[trigger] out@[a],
                #[trigger] out@[b],
            ) by {
                if b < p {
                    assert(out@[a] == prev[a] && out@[b] == prev[b]);
                } else if a < p && b == p {
                    assert(out@[a] == prev[a]);
                } else if a < p && b > p {
                    assert(out@[a] == prev[a] && out@[b] == prev[b - 1]);
                } else if a == p {
                    assert(out@[b] == prev[b - 1]);
                } else {
                    assert(out@[a] == prev[a - 1] && out@[b] == prev[b - 1]);
                }
            }
        }
        i = i + 1;
    }
    proof {
        assert(names@.take(len as int) =~= names@);
    }
    out
}

} // verus!
