//! Fingerprints of named material parameters. The parameters are sorted by
//! name (byte-wise, as `str` orders, and stably) before hashing, so that the
//! fingerprint does not depend on the order in which distinct names are
//! given. Values are `f64` bit patterns (as `f64::to_bits` gives them).
use vstd::prelude::*;
use vstd::multiset::*;
use vstd::seq_lib::*;
use vstd::string::*;

use crate::fingerprint_hash::{be_bytes, deterministic_hash, spec_deterministic_hash};
use crate::material_fingerprint::{is_engine_fingerprint, MaterialFingerprint};
use crate::param_fingerprint::push_be_bytes;

verus! {

/// A parameter: the bytes of its name and the bit pattern of its value.
pub type NamedValue = (Seq<u8>, u64);

/// Strict lexicographic order on byte strings, the order of `str`'s `Ord`.
pub open spec fn bytes_lt(a: Seq<u8>, b: Seq<u8>) -> bool
    decreases a.len(),
{
    if a.len() == 0 {
        b.len() > 0
    } else if b.len() == 0 {
        false
    } else if a[0] != b[0] {
        a[0] < b[0]
    } else {
        bytes_lt(a.drop_first(), b.drop_first())
    }
}

/// `bytes_lt` is a strict total order: irreflexive, asymmetric, transitive,
/// and any two different strings are ordered one way or the other.
pub proof fn lemma_bytes_lt_order(a: Seq<u8>, b: Seq<u8>, c: Seq<u8>)
    ensures
        !bytes_lt(a, a),
        bytes_lt(a, b) ==> !bytes_lt(b, a),
        bytes_lt(a, b) && bytes_lt(b, c) ==> bytes_lt(a, c),
        a != b ==> bytes_lt(a, b) || bytes_lt(b, a),
    decreases a.len(),
{
    if a.len() > 0 {
        lemma_bytes_lt_order(a.drop_first(), b.drop_first(), c.drop_first());
        if b.len() > 0 && c.len() > 0 && a[0] == b[0] && b[0] == c[0] {
        }
        if a != b && b.len() > 0 && a[0] == b[0] {
            assert(a.drop_first() != b.drop_first()) by {
                if a.drop_first() == b.drop_first() {
                    assert(a =~= b) by {
                        assert forall|i: int| 0 <= i < a.len() implies a[i] == b[i] by {
                            if i > 0 {
                                assert(a[i] == a.drop_first()[i - 1]);
                                assert(b[i] == b.drop_first()[i - 1]);
                            }
                        }
                    }
                }
            }
        }
    } else {
        if b.len() == 0 {
            assert(a =~= b);
        }
    }
}

/// Every name in `t` is no earlier than the one before it.
pub open spec fn sorted_by_name(t: Seq<NamedValue>) -> bool {
    forall|i: int, j: int| 0 <= i < j < t.len() ==> !bytes_lt(#[trigger] t[j].0, #[trigger] t[i].0)
}

/// No two parameters share a name.
pub open spec fn distinct_names(t: Seq<NamedValue>) -> bool {
    forall|i: int, j: int| 0 <= i < t.len() && 0 <= j < t.len() && i != j ==> #[trigger] t[i].0
        != #[trigger] t[j].0
}

/// Inserts `x` into a name-sorted sequence after every parameter whose name
/// is not later than its own (one step of a stable insertion sort).
pub open spec fn insert_named(t: Seq<NamedValue>, x: NamedValue) -> Seq<NamedValue>
    decreases t.len(),
{
    if t.len() == 0 {
        seq![x]
    } else if bytes_lt(x.0, t[0].0) {
        seq![x] + t
    } else {
        seq![t[0]] + insert_named(t.drop_first(), x)
    }
}

/// The parameters stably sorted by name.
pub open spec fn sort_named(s: Seq<NamedValue>) -> Seq<NamedValue>
    decreases s.len(),
{
    if s.len() == 0 {
        Seq::empty()
    } else {
        insert_named(sort_named(s.drop_last()), s.last())
    }
}

proof fn lemma_insert_multiset(t: Seq<NamedValue>, x: NamedValue)
    ensures
        insert_named(t, x).to_multiset() =~= t.to_multiset().insert(x),
    decreases t.len(),
{
    broadcast use group_multiset_axioms;
    broadcast use group_to_multiset_ensures;

    let e = Seq::<NamedValue>::empty();
    assert(seq![x] =~= e.push(x));
    if t.len() == 0 {
    } else if bytes_lt(x.0, t[0].0) {
        lemma_multiset_commutative(seq![x], t);
    } else {
        let rest = t.drop_first();
        lemma_insert_multiset(rest, x);
        assert(seq![t[0]] =~= e.push(t[0]));
        lemma_multiset_commutative(seq![t[0]], insert_named(rest, x));
        lemma_multiset_commutative(seq![t[0]], rest);
        assert(seq![t[0]] + rest =~= t);
    }
}

proof fn lemma_sort_multiset(s: Seq<NamedValue>)
    ensures
        sort_named(s).to_multiset() =~= s.to_multiset(),
    decreases s.len(),
{
    broadcast use group_to_multiset_ensures;

    if s.len() > 0 {
        lemma_sort_multiset(s.drop_last());
        lemma_insert_multiset(sort_named(s.drop_last()), s.last());
        assert(s.drop_last().push(s.last()) =~= s);
    }
}

/// Every element of an insertion is the inserted parameter or was there.
proof fn lemma_insert_elements(t: Seq<NamedValue>, x: NamedValue, k: int)
    requires
        0 <= k < insert_named(t, x).len(),
    ensures
        insert_named(t, x)[k] == x || t.contains(insert_named(t, x)[k]),
{
    broadcast use group_to_multiset_ensures;
    broadcast use group_multiset_axioms;

    lemma_insert_multiset(t, x);
    let y = insert_named(t, x)[k];
    assert(insert_named(t, x).contains(y));
    assert(insert_named(t, x).to_multiset().count(y) > 0);
    assert(t.to_multiset().insert(x).count(y) > 0);
    if y != x {
        assert(t.to_multiset().count(y) > 0);
    }
}

proof fn lemma_insert_sorted(t: Seq<NamedValue>, x: NamedValue)
    requires
        sorted_by_name(t),
    ensures
        sorted_by_name(insert_named(t, x)),
        insert_named(t, x).len() == t.len() + 1,
    decreases t.len(),
{
    if t.len() == 0 {
    } else if bytes_lt(x.0, t[0].0) {
        let r = seq![x] + t;
        assert forall|i: int, j: int| 0 <= i < j < r.len() implies !bytes_lt(
            #[trigger] r[j].0,
            #[trigger] r[i].0,
        ) by {
            if i == 0 {
                lemma_bytes_lt_order(t[j - 1].0, x.0, t[0].0);
                lemma_bytes_lt_order(x.0, t[0].0, x.0);
                if j - 1 > 0 {
                    assert(!bytes_lt(t[j - 1].0, t[0].0));
                }
            } else {
                assert(r[i] == t[i - 1] && r[j] == t[j - 1]);
            }
        }
    } else {
        let rest = t.drop_first();
        assert(sorted_by_name(rest)) by {
            assert forall|i: int, j: int| 0 <= i < j < rest.len() implies !bytes_lt(
                #[trigger] rest[j].0,
                #[trigger] rest[i].0,
            ) by {
                assert(rest[i] == t[i + 1] && rest[j] == t[j + 1]);
            }
        }
        lemma_insert_sorted(rest, x);
        let ins = insert_named(rest, x);
        let r = seq![t[0]] + ins;
        assert forall|i: int, j: int| 0 <= i < j < r.len() implies !bytes_lt(
            #[trigger] r[j].0,
            #[trigger] r[i].0,
        ) by {
            if i == 0 {
                lemma_insert_elements(rest, x, j - 1);
                assert(r[j] == ins[j - 1]);
                if ins[j - 1] != x {
                    let k = choose|k: int| 0 <= k < rest.len() && rest[k] == ins[j - 1];
                    assert(rest[k] == t[k + 1]);
                }
            } else {
                assert(r[i] == ins[i - 1] && r[j] == ins[j - 1]);
            }
        }
    }
}

proof fn lemma_sort_sorted(s: Seq<NamedValue>)
    ensures
        sorted_by_name(sort_named(s)),
        sort_named(s).len() == s.len(),
    decreases s.len(),
{
    if s.len() > 0 {
        lemma_sort_sorted(s.drop_last());
        lemma_insert_sorted(sort_named(s.drop_last()), s.last());
    }
}

proof fn lemma_insert_distinct(t: Seq<NamedValue>, x: NamedValue)
    requires
        distinct_names(t),
        forall|k: int| 0 <= k < t.len() ==> #[trigger] t[k].0 != x.0,
    ensures
        distinct_names(insert_named(t, x)),
    decreases t.len(),
{
    if t.len() == 0 {
    } else if bytes_lt(x.0, t[0].0) {
        let r = seq![x] + t;
        assert forall|i: int, j: int|
            0 <= i < r.len() && 0 <= j < r.len() && i != j implies #[trigger] r[i].0
            != #[trigger] r[j].0 by {
            if i > 0 && j > 0 {
                assert(r[i] == t[i - 1] && r[j] == t[j - 1]);
            } else if i == 0 {
                assert(r[j] == t[j - 1]);
            } else {
                assert(r[i] == t[i - 1]);
            }
        }
    } else {
        let rest = t.drop_first();
        assert(distinct_names(rest)) by {
            assert forall|i: int, j: int|
                0 <= i < rest.len() && 0 <= j < rest.len() && i != j implies #[trigger] rest[i].0
                != #[trigger] rest[j].0 by {
                assert(rest[i] == t[i + 1] && rest[j] == t[j + 1]);
            }
        }
        assert forall|k: int| 0 <= k < rest.len() implies #[trigger] rest[k].0 != x.0 by {
            assert(rest[k] == t[k + 1]);
        }
        lemma_insert_distinct(rest, x);
        let ins = insert_named(rest, x);
        let r = seq![t[0]] + ins;
        assert forall|i: int, j: int|
            0 <= i < r.len() && 0 <= j < r.len() && i != j implies #[trigger] r[i].0
            != #[trigger] r[j].0 by {
            if i > 0 && j > 0 {
                assert(r[i] == ins[i - 1] && r[j] == ins[j - 1]);
            } else {
                let other = if i == 0 { j } else { i };
                lemma_insert_elements(rest, x, other - 1);
                assert(r[other] == ins[other - 1]);
                if ins[other - 1] != x {
                    let k = choose|k: int| 0 <= k < rest.len() && rest[k] == ins[other - 1];
                    assert(rest[k] == t[k + 1]);
                    assert(t[0].0 != t[k + 1].0);
                } else {
                    assert(t[0].0 != x.0);
                }
            }
        }
    }
}

proof fn lemma_sort_distinct(s: Seq<NamedValue>)
    requires
        distinct_names(s),
    ensures
        distinct_names(sort_named(s)),
    decreases s.len(),
{
    broadcast use group_to_multiset_ensures;
    broadcast use group_multiset_axioms;

    if s.len() > 0 {
        let init = s.drop_last();
        let x = s.last();
        assert(distinct_names(init)) by {
            assert forall|i: int, j: int|
                0 <= i < init.len() && 0 <= j < init.len() && i != j implies #[trigger] init[i].0
                != #[trigger] init[j].0 by {
                assert(init[i] == s[i] && init[j] == s[j]);
            }
        }
        lemma_sort_distinct(init);
        lemma_sort_multiset(init);
        lemma_sort_sorted(init);
        let t = sort_named(init);
        assert forall|k: int| 0 <= k < t.len() implies #[trigger] t[k].0 != x.0 by {
            assert(t.contains(t[k]));
            assert(init.to_multiset().count(t[k]) > 0);
            assert(init.contains(t[k]));
            let m = choose|m: int| 0 <= m < init.len() && init[m] == t[k];
            assert(s[m] == init[m]);
            assert(s[s.len() - 1] == x);
        }
        lemma_insert_distinct(t, x);
    }
}

/// Two name-sorted arrangements of the same parameters are the same when
/// the first has no repeated name.
proof fn lemma_sorted_by_name_unique(x: Seq<NamedValue>, y: Seq<NamedValue>)
    requires
        sorted_by_name(x),
        sorted_by_name(y),
        distinct_names(x),
        x.to_multiset() == y.to_multiset(),
    ensures
        x == y,
    decreases x.len(),
{
    broadcast use group_multiset_axioms;
    broadcast use group_to_multiset_ensures;

    to_multiset_len(x);
    to_multiset_len(y);
    if x.len() == 0 || y.len() == 0 {
        assert(x.len() == y.len());
        assert(x =~= y);
    } else {
        assert(x.to_multiset().contains(x[0]));
        assert(y.contains(x[0]));
        let j = choose|j: int| 0 <= j < y.len() && y[j] == x[0];
        assert(y.to_multiset().contains(y[0]));
        assert(x.contains(y[0]));
        let i = choose|i: int| 0 <= i < x.len() && x[i] == y[0];
        lemma_bytes_lt_order(x[0].0, y[0].0, x[0].0);
        if i != 0 {
            assert(!bytes_lt(x[i].0, x[0].0));
        }
        if j != 0 {
            assert(!bytes_lt(y[j].0, y[0].0));
        }
        assert(x[0].0 == y[0].0);
        assert(i == 0);
        let xr = x.drop_first();
        let yr = y.drop_first();
        assert(x.remove(0) =~= xr);
        assert(y.remove(0) =~= yr);
        assert(xr.to_multiset() =~= yr.to_multiset());
        assert(sorted_by_name(xr)) by {
            assert forall|a: int, b: int| 0 <= a < b < xr.len() implies !bytes_lt(
                #[trigger] xr[b].0,
                #[trigger] xr[a].0,
            ) by {
                assert(xr[a] == x[a + 1] && xr[b] == x[b + 1]);
            }
        }
        assert(sorted_by_name(yr)) by {
            assert forall|a: int, b: int| 0 <= a < b < yr.len() implies !bytes_lt(
                #[trigger] yr[b].0,
                #[trigger] yr[a].0,
            ) by {
                assert(yr[a] == y[a + 1] && yr[b] == y[b + 1]);
            }
        }
        assert(distinct_names(xr)) by {
            assert forall|a: int, b: int|
                0 <= a < xr.len() && 0 <= b < xr.len() && a != b implies #[trigger] xr[a].0
                != #[trigger] xr[b].0 by {
                assert(xr[a] == x[a + 1] && xr[b] == x[b + 1]);
            }
        }
        lemma_sorted_by_name_unique(xr, yr);
        assert(x =~= y) by {
            assert forall|k: int| 0 <= k < x.len() implies x[k] == y[k] by {
                if k > 0 {
                    assert(x[k] == xr[k - 1] && y[k] == yr[k - 1]);
                }
            }
        }
    }
}

/// Sorting by name puts any reordering of parameters with distinct names
/// into the same sequence.
pub proof fn lemma_sort_named_order_independent(a: Seq<NamedValue>, b: Seq<NamedValue>)
    requires
        distinct_names(a),
        a.to_multiset() == b.to_multiset(),
    ensures
        sort_named(a) == sort_named(b),
{
    lemma_sort_sorted(a);
    lemma_sort_sorted(b);
    lemma_sort_distinct(a);
    lemma_sort_multiset(a);
    lemma_sort_multiset(b);
    lemma_sorted_by_name_unique(sort_named(a), sort_named(b));
}

/// The bytes that are hashed for name-sorted parameters: each name's bytes,
/// a zero separator, then the value's eight big-endian bytes.
pub open spec fn named_bytes(t: Seq<NamedValue>) -> Seq<u8>
    decreases t.len(),
{
    if t.len() == 0 {
        Seq::empty()
    } else {
        named_bytes(t.drop_last()) + t.last().0 + seq![0u8] + be_bytes(t.last().1)
    }
}

/// The hash of named parameters: that of their bytes once sorted by name.
pub open spec fn named_hash(s: Seq<NamedValue>) -> Seq<u8> {
    spec_deterministic_hash(named_bytes(sort_named(s)))
}

/// The parameters as name bytes and value patterns.
pub open spec fn named_view<'a>(ps: Seq<(&'a str, u64)>) -> Seq<NamedValue> {
    Seq::new(ps.len(), |i: int| (ps[i].0.spec_bytes(), ps[i].1))
}

/// Pairs of byte slices and values, as name bytes and value patterns.
pub open spec fn pairs_view<'a>(v: Seq<(&'a [u8], u64)>) -> Seq<NamedValue> {
    Seq::new(v.len(), |i: int| (v[i].0@, v[i].1))
}

/// Reordering named parameters does not change their fingerprint, as long
/// as no two of them share a name.
pub proof fn lemma_named_fingerprint_order_independent(a: Seq<NamedValue>, b: Seq<NamedValue>)
    requires
        distinct_names(a),
        a.to_multiset() == b.to_multiset(),
    ensures
        named_hash(a) == named_hash(b),
{
    lemma_sort_named_order_independent(a, b);
}

/// `a` comes strictly before `b` in byte-wise order.
pub fn bytes_lt_exec(a: &[u8], b: &[u8]) -> (r: bool)
    ensures
        r == bytes_lt(a@, b@),
{
    let mut i: usize = 0;
    assert(a@.skip(0) =~= a@);
    assert(b@.skip(0) =~= b@);
    while i < a.len() && i < b.len()
        invariant
            i <= a@.len(),
            i <= b@.len(),
            bytes_lt(a@, b@) == bytes_lt(a@.skip(i as int), b@.skip(i as int)),
        decreases a@.len() - i,
    {
        if a[i] != b[i] {
            return a[i] < b[i];
        }
        assert(a@.skip(i as int).drop_first() =~= a@.skip(i + 1));
        assert(b@.skip(i as int).drop_first() =~= b@.skip(i + 1));
        i = i + 1;
    }
    b.len() > i
}

/// Where the insertion puts `x`: before the first later name.
proof fn lemma_insert_at(t: Seq<NamedValue>, x: NamedValue, p: int)
    requires
        0 <= p <= t.len(),
        forall|j: int| 0 <= j < p ==> !bytes_lt(x.0, #[trigger] t[j].0),
        p < t.len() ==> bytes_lt(x.0, t[p].0),
    ensures
        insert_named(t, x) == t.insert(p, x),
    decreases t.len(),
{
    if p == 0 {
        assert(insert_named(t, x) =~= t.insert(p, x));
    } else {
        let rest = t.drop_first();
        assert forall|j: int| 0 <= j < p - 1 implies !bytes_lt(x.0, #[trigger] rest[j].0) by {
            assert(rest[j] == t[j + 1]);
        }
        if p - 1 < rest.len() {
            assert(rest[p - 1] == t[p]);
        }
        lemma_insert_at(rest, x, p - 1);
        assert(!bytes_lt(x.0, t[0].0));
        assert(insert_named(t, x) =~= t.insert(p, x));
    }
}

/// The parameters stably sorted by name, each name as its bytes.
fn sort_by_name<'a>(params: &[(&'a str, u64)]) -> (r: Vec<(&'a [u8], u64)>)
    ensures
        pairs_view(r@) == sort_named(named_view(params@)),
{
    let mut sorted: Vec<(&'a [u8], u64)> = Vec::new();
    let mut i: usize = 0;
    assert(pairs_view(sorted@) =~= sort_named(named_view(params@).subrange(0, 0)));
    while i < params.len()
        invariant
            i <= params@.len(),
            pairs_view(sorted@) == sort_named(named_view(params@).subrange(0, i as int)),
        decreases params@.len() - i,
    {
        let name: &'a [u8] = params[i].0.as_bytes();
        let value: u64 = params[i].1;
        let ghost x: NamedValue = (name@, value);
        let mut p: usize = 0;
        while p < sorted.len() && !bytes_lt_exec(name, sorted[p].0)
            invariant
                p <= sorted@.len(),
                forall|j: int| 0 <= j < p ==> !bytes_lt(name@, #[trigger] pairs_view(sorted@)[j].0),
            decreases sorted@.len() - p,
        {
            p = p + 1;
        }
        let ghost before = pairs_view(sorted@);
        proof {
            lemma_insert_at(before, x, p as int);
        }
        sorted.insert(p, (name, value));
        proof {
            assert(pairs_view(sorted@) =~= before.insert(p as int, x));
            let pre = named_view(params@).subrange(0, i + 1);
            assert(pre.drop_last() =~= named_view(params@).subrange(0, i as int));
            assert(pre.last() == x);
        }
        i = i + 1;
    }
    assert(named_view(params@).subrange(0, params@.len() as int) =~= named_view(params@));
    sorted
}

/// The bytes hashed for the name-sorted parameters.
fn sorted_named_bytes<'a>(sorted: &Vec<(&'a [u8], u64)>) -> (r: Vec<u8>)
    ensures
        r@ == named_bytes(pairs_view(sorted@)),
{
    let mut bytes: Vec<u8> = Vec::new();
    let mut i: usize = 0;
    assert(pairs_view(sorted@).subrange(0, 0) =~= Seq::<NamedValue>::empty());
    while i < sorted.len()
        invariant
            i <= sorted@.len(),
            bytes@ == named_bytes(pairs_view(sorted@).subrange(0, i as int)),
        decreases sorted@.len() - i,
    {
        let name = sorted[i].0;
        let ghost start = bytes@;
        let mut k: usize = 0;
        while k < name.len()
            invariant
                k <= name@.len(),
                bytes@ == start + name@.subrange(0, k as int),
            decreases name@.len() - k,
        {
            bytes.push(name[k]);
            assert(bytes@ =~= start + name@.subrange(0, k + 1));
            k = k + 1;
        }
        bytes.push(0u8);
        push_be_bytes(&mut bytes, sorted[i].1);
        proof {
            let pre = pairs_view(sorted@).subrange(0, i + 1);
            assert(pre.drop_last() =~= pairs_view(sorted@).subrange(0, i as int));
            assert(pre.last() == (name@, sorted@[i as int].1));
            assert(name@.subrange(0, name@.len() as int) =~= name@);
            assert(bytes@ =~= named_bytes(pre));
        }
        i = i + 1;
    }
    assert(pairs_view(sorted@).subrange(0, sorted@.len() as int) =~= pairs_view(sorted@));
    bytes
}

/// Create fingerprint from named parameters (values as `f64` bit
/// patterns): sorted by name for determinism, then hashed.
pub fn fingerprint_from_named(params: &[(&str, u64)]) -> (r: MaterialFingerprint)
    ensures
        is_engine_fingerprint(r, named_hash(named_view(params@))),
        r.timestamp is Some,
{
    let sorted = sort_by_name(params);
    let bytes = sorted_named_bytes(&sorted);
    MaterialFingerprint::new(deterministic_hash(bytes.as_slice()))
}

} // verus!
