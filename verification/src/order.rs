//! The order of fields in a capture: ascending by the bit of their kind. This
//! module sorts a presence list into that order and computes the length of
//! the capture that the list stands for.

use crate::bytes::{lemma_align_up, padding, spec_align_up};
use crate::field::Kind;
use vstd::prelude::*;

verus! {

/// Whether the kinds are in ascending order of their bits, so that no bit
/// occurs twice.
pub open spec fn spec_ascending(kinds: Seq<Kind>) -> bool {
    forall|i: int, j: int|
        0 <= i < j < kinds.len() ==> (#[trigger] kinds[i]).spec_bit() < (#[trigger] kinds[j]).spec_bit()
}

/// Whether no two of the kinds have the same bit.
pub open spec fn spec_distinct(kinds: Seq<Kind>) -> bool {
    forall|i: int, j: int|
        0 <= i < j < kinds.len() ==> (#[trigger] kinds[i]).spec_bit() != (#[trigger] kinds[j]).spec_bit()
}

/// Whether none of the kinds is a vendor namespace.
pub open spec fn spec_plain(kinds: Seq<Kind>) -> bool {
    forall|i: int| 0 <= i < kinds.len() ==> !(#[trigger] kinds[i]).spec_is_vendor()
}

/// `sorted` with `kind` put behind the last kind whose bit is not greater.
pub open spec fn spec_insert(sorted: Seq<Kind>, kind: Kind) -> Seq<Kind>
    decreases sorted.len(),
{
    if sorted.len() == 0 || sorted.last().spec_bit() <= kind.spec_bit() {
        sorted.push(kind)
    } else {
        spec_insert(sorted.drop_last(), kind).push(sorted.last())
    }
}

/// The kinds in ascending order of their bits; kinds with the same bit stay
/// in the order they had.
pub open spec fn spec_sort(kinds: Seq<Kind>) -> Seq<Kind>
    decreases kinds.len(),
{
    if kinds.len() == 0 {
        kinds
    } else {
        spec_insert(spec_sort(kinds.drop_last()), kinds.last())
    }
}

/// The length of a capture after the fields of the kinds `kinds` have been
/// added, in that order, to a capture of length `length`: each field starts
/// on the boundary of its kind and takes the size of its kind.
pub open spec fn spec_fold_length(length: int, kinds: Seq<Kind>) -> int
    decreases kinds.len(),
{
    if kinds.len() == 0 {
        length
    } else {
        spec_fold_length(
            spec_align_up(length, kinds[0].spec_align()) + kinds[0].spec_size(),
            kinds.skip(1),
        )
    }
}

/// Putting a kind into a list adds that kind and keeps the others; it keeps
/// the list in ascending order where the bit of the kind is new to it.
pub proof fn lemma_insert(sorted: Seq<Kind>, kind: Kind)
    ensures
        spec_insert(sorted, kind).len() == sorted.len() + 1,
        forall|k: Kind| #[trigger]
            spec_insert(sorted, kind).contains(k) <==> (sorted.contains(k) || k == kind),
        spec_ascending(sorted) && (forall|i: int|
            0 <= i < sorted.len() ==> (#[trigger] sorted[i]).spec_bit() != kind.spec_bit())
            ==> spec_ascending(spec_insert(sorted, kind)),
    decreases sorted.len(),
{
    let r = spec_insert(sorted, kind);
    if sorted.len() == 0 || sorted.last().spec_bit() <= kind.spec_bit() {
        assert(r[sorted.len() as int] == kind);
        assert forall|k: Kind| #[trigger] r.contains(k) <==> (sorted.contains(k) || k == kind) by {
            if sorted.contains(k) {
                let i = choose|i: int| 0 <= i < sorted.len() && sorted[i] == k;
                assert(r[i] == k);
            }
        }
    } else {
        let front = sorted.drop_last();
        let inner = spec_insert(front, kind);
        lemma_insert(front, kind);
        assert forall|k: Kind| #[trigger] r.contains(k) <==> (sorted.contains(k) || k == kind) by {
            if r.contains(k) {
                let i = choose|i: int| 0 <= i < r.len() && r[i] == k;
                if i < inner.len() {
                    assert(inner.contains(k));
                    if front.contains(k) {
                        let j = choose|j: int| 0 <= j < front.len() && front[j] == k;
                        assert(sorted[j] == k);
                    }
                } else {
                    assert(sorted[sorted.len() - 1] == k);
                }
            }
            if sorted.contains(k) {
                let i = choose|i: int| 0 <= i < sorted.len() && sorted[i] == k;
                if i < front.len() {
                    assert(front[i] == k);
                    assert(front.contains(k));
                    assert(inner.contains(k));
                    let j = choose|j: int| 0 <= j < inner.len() && inner[j] == k;
                    assert(r[j] == k);
                } else {
                    assert(r[inner.len() as int] == k);
                }
            }
            if k == kind {
                assert(inner.contains(k));
                let j = choose|j: int| 0 <= j < inner.len() && inner[j] == k;
                assert(r[j] == k);
            }
        }
        if spec_ascending(sorted) && (forall|i: int|
            0 <= i < sorted.len() ==> (#[trigger] sorted[i]).spec_bit() != kind.spec_bit()) {
            assert(forall|i: int| 0 <= i < front.len() ==> front[i] == sorted[i]);
            assert(spec_ascending(front));
            assert(spec_ascending(inner));
            assert forall|i: int, j: int| 0 <= i < j < r.len() implies (#[trigger] r[i]).spec_bit()
                < (#[trigger] r[j]).spec_bit() by {
                if j == inner.len() {
                    assert(inner.contains(r[i]));
                    if r[i] != kind {
                        assert(front.contains(r[i]));
                        let t = choose|t: int| 0 <= t < front.len() && front[t] == r[i];
                        assert(sorted[t].spec_bit() < sorted[sorted.len() - 1].spec_bit());
                    }
                } else {
                    assert(r[i] == inner[i] && r[j] == inner[j]);
                }
            }
        }
    }
}

/// Sorting keeps the kinds, and brings kinds with distinct bits into
/// ascending order.
pub proof fn lemma_sort(kinds: Seq<Kind>)
    ensures
        spec_sort(kinds).len() == kinds.len(),
        forall|k: Kind| #[trigger] spec_sort(kinds).contains(k) <==> kinds.contains(k),
        spec_distinct(kinds) ==> spec_ascending(spec_sort(kinds)),
        spec_plain(kinds) ==> spec_plain(spec_sort(kinds)),
    decreases kinds.len(),
{
    if kinds.len() > 0 {
        let front = kinds.drop_last();
        let last = kinds.last();
        let sorted = spec_sort(front);
        let r = spec_sort(kinds);
        lemma_sort(front);
        lemma_insert(sorted, last);
        assert forall|k: Kind| #[trigger] r.contains(k) <==> kinds.contains(k) by {
            if kinds.contains(k) {
                let i = choose|i: int| 0 <= i < kinds.len() && kinds[i] == k;
                if i < front.len() {
                    assert(front[i] == k);
                    assert(front.contains(k));
                }
            }
            if front.contains(k) {
                let i = choose|i: int| 0 <= i < front.len() && front[i] == k;
                assert(kinds[i] == k);
            }
            if k == last {
                assert(kinds[kinds.len() - 1] == k);
            }
        }
        if spec_distinct(kinds) {
            assert(forall|i: int| 0 <= i < front.len() ==> front[i] == kinds[i]);
            assert(spec_distinct(front));
            assert forall|i: int| 0 <= i < sorted.len() implies (#[trigger] sorted[i]).spec_bit()
                != last.spec_bit() by {
                assert(sorted.contains(sorted[i]));
                assert(front.contains(sorted[i]));
                let t = choose|t: int| 0 <= t < front.len() && front[t] == sorted[i];
                assert(kinds[t].spec_bit() != kinds[kinds.len() - 1].spec_bit());
            }
        }
        if spec_plain(kinds) {
            assert forall|i: int| 0 <= i < r.len() implies !(#[trigger] r[i]).spec_is_vendor() by {
                assert(r.contains(r[i]));
                assert(kinds.contains(r[i]));
                let t = choose|t: int| 0 <= t < kinds.len() && kinds[t] == r[i];
                assert(!kinds[t].spec_is_vendor());
            }
        }
    }
}

/// There is one ascending order: two ascending lists of the same kinds are
/// the same list.
pub proof fn lemma_ascending_unique(a: Seq<Kind>, b: Seq<Kind>)
    requires
        spec_ascending(a),
        spec_ascending(b),
        forall|k: Kind| #[trigger] a.contains(k) <==> b.contains(k),
    ensures
        a == b,
    decreases a.len(),
{
    if a.len() == 0 {
        if b.len() > 0 {
            assert(b.contains(b[0]));
            assert(a.contains(b[0]));
        }
        assert(a =~= b);
    } else {
        let la = a.last();
        assert(a.contains(la));
        assert(b.contains(la));
        let ib = choose|i: int| 0 <= i < b.len() && b[i] == la;
        let lb = b.last();
        assert(b.contains(lb));
        assert(a.contains(lb));
        let ia = choose|i: int| 0 <= i < a.len() && a[i] == lb;
        assert(a[ia].spec_bit() <= a[a.len() - 1].spec_bit());
        assert(b[ib].spec_bit() <= b[b.len() - 1].spec_bit());
        assert(ib == b.len() - 1);
        assert(la == lb);
        let fa = a.drop_last();
        let fb = b.drop_last();
        assert(forall|i: int| 0 <= i < fa.len() ==> fa[i] == a[i]);
        assert(forall|i: int| 0 <= i < fb.len() ==> fb[i] == b[i]);
        assert forall|k: Kind| #[trigger] fa.contains(k) <==> fb.contains(k) by {
            if fa.contains(k) {
                let i = choose|i: int| 0 <= i < fa.len() && fa[i] == k;
                assert(a[i].spec_bit() < a[a.len() - 1].spec_bit());
                assert(a.contains(k));
                assert(b.contains(k));
                let j = choose|j: int| 0 <= j < b.len() && b[j] == k;
                assert(j < fb.len());
                assert(fb[j] == k);
            }
            if fb.contains(k) {
                let i = choose|i: int| 0 <= i < fb.len() && fb[i] == k;
                assert(b[i].spec_bit() < b[b.len() - 1].spec_bit());
                assert(b.contains(k));
                assert(a.contains(k));
                let j = choose|j: int| 0 <= j < a.len() && a[j] == k;
                assert(j < fa.len());
                assert(fa[j] == k);
            }
        }
        lemma_ascending_unique(fa, fb);
        assert(a =~= fa.push(la));
        assert(b =~= fb.push(lb));
    }
}

/// In an ascending list each bit is at least its index, so that an ascending
/// list without vendor namespace has at most 23 kinds.
pub proof fn lemma_ascending_bound(kinds: Seq<Kind>, i: int)
    requires
        spec_ascending(kinds),
        0 <= i < kinds.len(),
    ensures
        kinds[i].spec_bit() >= i,
        spec_plain(kinds) ==> kinds.len() <= 23,
{
    lemma_bit_at_least_index(kinds, i);
    if spec_plain(kinds) {
        lemma_ascending_last(kinds);
    }
}

proof fn lemma_ascending_last(kinds: Seq<Kind>)
    requires
        spec_ascending(kinds),
        spec_plain(kinds),
    ensures
        kinds.len() <= 23,
{
    if kinds.len() > 0 {
        let last = kinds.len() - 1;
        lemma_bit_at_least_index(kinds, last);
        assert(!kinds[last].spec_is_vendor());
    }
}

proof fn lemma_bit_at_least_index(kinds: Seq<Kind>, i: int)
    requires
        spec_ascending(kinds),
        0 <= i < kinds.len(),
    ensures
        kinds[i].spec_bit() >= i,
    decreases i,
{
    if i > 0 {
        lemma_bit_at_least_index(kinds, i - 1);
        assert(kinds[i - 1].spec_bit() < kinds[i].spec_bit());
    }
}

/// Each field adds at most 19 bytes to a capture: at most 7 of padding and at
/// most 12 of its own.
pub proof fn lemma_fold_length_bound(length: int, kinds: Seq<Kind>)
    requires
        length >= 0,
    ensures
        length <= spec_fold_length(length, kinds) <= length + 19 * kinds.len(),
    decreases kinds.len(),
{
    if kinds.len() > 0 {
        lemma_align_up(length, kinds[0].spec_align());
        lemma_fold_length_bound(
            spec_align_up(length, kinds[0].spec_align()) + kinds[0].spec_size(),
            kinds.skip(1),
        );
    }
}

proof fn lemma_insert_at(sorted: Seq<Kind>, kind: Kind, at: int)
    requires
        0 <= at <= sorted.len(),
        forall|t: int| at <= t < sorted.len() ==> (#[trigger] sorted[t]).spec_bit() > kind.spec_bit(),
        at > 0 ==> sorted[at - 1].spec_bit() <= kind.spec_bit(),
    ensures
        spec_insert(sorted, kind) == sorted.insert(at, kind),
    decreases sorted.len(),
{
    if at == sorted.len() {
        assert(sorted.push(kind) =~= sorted.insert(at, kind));
    } else {
        let front = sorted.drop_last();
        assert(sorted[sorted.len() - 1].spec_bit() > kind.spec_bit());
        assert(forall|t: int| 0 <= t < front.len() ==> front[t] == sorted[t]);
        lemma_insert_at(front, kind, at);
        assert(front.insert(at, kind).push(sorted.last()) =~= sorted.insert(at, kind));
    }
}

/// Returns the kinds in ascending order of their bits; kinds with the same
/// bit stay in the order they had.
pub fn sort_by_bit(kinds: &Vec<Kind>) -> (r: Vec<Kind>)
    ensures
        r@ == spec_sort(kinds@),
        r@.len() == kinds@.len(),
        forall|k: Kind| #[trigger] r@.contains(k) <==> kinds@.contains(k),
        spec_distinct(kinds@) ==> spec_ascending(r@),
{
    let mut out: Vec<Kind> = Vec::new();
    let mut i: usize = 0;
    assert(kinds@.subrange(0, 0) =~= Seq::<Kind>::empty());
    while i < kinds.len()
        invariant
            i <= kinds.len(),
            out@ == spec_sort(kinds@.subrange(0, i as int)),
            out@.len() == i,
        decreases kinds.len() - i,
    {
        let kind = kinds[i];
        let mut at: usize = out.len();
        while at > 0 && out[at - 1].bit() > kind.bit()
            invariant
                at <= out.len(),
                forall|t: int| at <= t < out@.len() ==> (#[trigger] out@[t]).spec_bit() > kind.spec_bit(),
            decreases at,
        {
            at = at - 1;
        }
        proof {
            lemma_insert_at(out@, kind, at as int);
            assert(kinds@.subrange(0, i + 1).drop_last() =~= kinds@.subrange(0, i as int));
            assert(kinds@.subrange(0, i + 1).last() == kind);
        }
        out.insert(at, kind);
        i = i + 1;
    }
    proof {
        assert(kinds@.subrange(0, i as int) =~= kinds@);
        lemma_sort(kinds@);
    }
    out
}

/// Returns the length of a capture after the fields of the kinds `kinds`
/// have been added, in that order, to a capture of length `length`.
pub fn fold_length(length: usize, kinds: &Vec<Kind>) -> (r: usize)
    requires
        length + 19 * kinds@.len() <= usize::MAX,
    ensures
        r == spec_fold_length(length as int, kinds@),
{
    let mut total = length;
    let mut i: usize = 0;
    assert(kinds@.skip(0) =~= kinds@);
    while i < kinds.len()
        invariant
            i <= kinds.len(),
            total <= length + 19 * i,
            length + 19 * kinds@.len() <= usize::MAX,
            spec_fold_length(total as int, kinds@.skip(i as int)) == spec_fold_length(
                length as int,
                kinds@,
            ),
        decreases kinds.len() - i,
    {
        let kind = kinds[i];
        let pad = padding(total, kind.align() as usize);
        proof {
            assert(kinds@.skip(i as int)[0] == kind);
            assert(kinds@.skip(i as int).skip(1) =~= kinds@.skip(i + 1));
        }
        total = total + pad + kind.size();
        i = i + 1;
    }
    total
}

} // verus!
