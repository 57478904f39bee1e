//! Writing a capture and reading it back gives the capture that was written.

use crate::bytes::{
    lemma_align_up, lemma_u16_round_trip, lemma_u32_round_trip, spec_align_up, spec_bit,
    spec_padding, spec_u16_bytes, spec_u16_le, spec_u32_bytes, spec_u32_le, spec_zeros,
};
use crate::field::header::{
    spec_announces, spec_header, spec_header_bytes, spec_mask, spec_mask_from, spec_word_kinds,
    spec_words, HeaderView, MAX_LENGTH, MIN_HEADER_SIZE, VERSION,
};
use crate::field::kind::lemma_new_inverts_bit;
use crate::field::Kind;
use crate::order::{
    lemma_ascending_bound, lemma_fold_length_bound, spec_ascending, spec_fold_length, spec_plain,
};
use crate::{
    lemma_fields_unfold, lemma_same_slots, lemma_with_slot, spec_body, spec_consistent, spec_empty,
    spec_fields, spec_parse, spec_step, spec_unparse, Error, RadiotapView,
};
use vstd::arithmetic::power2::{lemma2_to64, lemma_pow2_unfold, pow2};
use vstd::prelude::*;

verus! {

/// Whether each value of the capture is one that a capture can hold.
pub open spec fn spec_valid_fields(v: RadiotapView) -> bool {
    forall|kind: Kind| (#[trigger] v.slot(kind)) matches Some(field) ==> field.spec_valid()
}

proof fn lemma_mask_same(p: Seq<Kind>, q: Seq<Kind>, bit: int)
    requires
        forall|t: int| bit <= t ==> spec_announces(p, t) == spec_announces(q, t),
    ensures
        spec_mask_from(p, bit) == spec_mask_from(q, bit),
    decreases 32 - bit,
{
    if bit < 32 {
        lemma_mask_same(p, q, bit + 1);
    }
}

proof fn lemma_mask_plain(p: Seq<Kind>, bit: int)
    requires
        spec_plain(p),
        0 <= bit,
    ensures
        bit >= 23 ==> spec_mask_from(p, bit) == 0,
        bit <= 23 ==> 0 <= spec_mask_from(p, bit) < pow2((23 - bit) as nat),
    decreases 32 - bit,
{
    if bit < 32 {
        lemma_mask_plain(p, bit + 1);
        if bit >= 23 {
            if spec_announces(p, bit) {
                let i = choose|i: int| 0 <= i < p.len() && (#[trigger] p[i]).spec_bit() == bit;
                assert(!p[i].spec_is_vendor());
            }
            lemma2_to64();
        } else {
            lemma_pow2_unfold((23 - bit) as nat);
        }
    } else {
        lemma2_to64();
    }
}

proof fn lemma_word_kinds(p: Seq<Kind>, bit: int)
    requires
        spec_ascending(p),
        spec_plain(p),
        0 <= bit <= 23,
        forall|i: int| 0 <= i < p.len() ==> (#[trigger] p[i]).spec_bit() >= bit,
    ensures
        spec_word_kinds(spec_mask_from(p, bit), bit) == p,
    decreases 23 - bit,
{
    if bit >= 23 {
        if p.len() > 0 {
            assert(!p[0].spec_is_vendor());
            assert(p[0].spec_bit() >= bit);
        }
        assert(p =~= Seq::<Kind>::empty());
    } else {
        let word = spec_mask_from(p, bit);
        assert(word / 2 == spec_mask_from(p, bit + 1));
        assert((word % 2 == 1) == spec_announces(p, bit));
        if p.len() > 0 && p[0].spec_bit() == bit {
            let rest = p.skip(1);
            assert(spec_announces(p, bit));
            assert(!p[0].spec_is_vendor());
            lemma_new_inverts_bit(p[0], bit);
            assert forall|t: int| bit + 1 <= t implies spec_announces(p, t) == spec_announces(
                rest,
                t,
            ) by {
                if spec_announces(p, t) {
                    let i = choose|i: int| 0 <= i < p.len() && (#[trigger] p[i]).spec_bit() == t;
                    assert(i > 0);
                    assert(rest[i - 1].spec_bit() == t);
                }
                if spec_announces(rest, t) {
                    let i = choose|i: int|
                        0 <= i < rest.len() && (#[trigger] rest[i]).spec_bit() == t;
                    assert(p[i + 1].spec_bit() == t);
                }
            }
            lemma_mask_same(p, rest, bit + 1);
            assert forall|i: int| 0 <= i < rest.len() implies (#[trigger] rest[i]).spec_bit() >= bit
                + 1 by {
                assert(p[0].spec_bit() < p[i + 1].spec_bit());
            }
            assert(spec_ascending(rest)) by {
                assert forall|i: int, j: int| 0 <= i < j < rest.len() implies (
                #[trigger] rest[i]).spec_bit() < (#[trigger] rest[j]).spec_bit() by {
                    assert(p[i + 1].spec_bit() < p[j + 1].spec_bit());
                }
            }
            assert(spec_plain(rest)) by {
                assert forall|i: int| 0 <= i < rest.len() implies !(
                #[trigger] rest[i]).spec_is_vendor() by {
                    assert(!p[i + 1].spec_is_vendor());
                }
            }
            lemma_word_kinds(rest, bit + 1);
            assert(seq![p[0]] + rest =~= p);
        } else {
            if spec_announces(p, bit) {
                let i = choose|i: int| 0 <= i < p.len() && (#[trigger] p[i]).spec_bit() == bit;
                if i > 0 {
                    assert(p[0].spec_bit() < p[i].spec_bit());
                }
            }
            assert forall|i: int| 0 <= i < p.len() implies (#[trigger] p[i]).spec_bit() >= bit
                + 1 by {
                if i > 0 {
                    assert(p[0].spec_bit() < p[i].spec_bit());
                }
            }
            lemma_word_kinds(p, bit + 1);
            assert(Seq::<Kind>::empty() + p =~= p);
        }
    }
}

/// A header in the smallest form is read back from its bytes, whatever
/// follows them, as long as the data is as long as the header declares.
pub proof fn lemma_header_round_trip(h: HeaderView, tail: Seq<u8>)
    requires
        h.version == VERSION,
        h.size == MIN_HEADER_SIZE,
        MIN_HEADER_SIZE <= h.length <= MAX_LENGTH,
        h.length <= MIN_HEADER_SIZE + tail.len(),
        spec_ascending(h.present),
        spec_plain(h.present),
    ensures
        spec_header_bytes(h).len() == MIN_HEADER_SIZE,
        spec_header(spec_header_bytes(h) + tail) == Ok::<HeaderView, Error>(h),
{
    let head = spec_header_bytes(h);
    let data = head + tail;
    let word = spec_mask(h.present);
    lemma_mask_plain(h.present, 0);
    lemma2_to64();
    assert(pow2(23) == 8388608) by {
        lemma_pow2_unfold(23);
        lemma_pow2_unfold(22);
        lemma_pow2_unfold(21);
        lemma_pow2_unfold(20);
        lemma_pow2_unfold(19);
        lemma_pow2_unfold(18);
        lemma_pow2_unfold(17);
    }
    lemma_u16_round_trip(h.length);
    lemma_u32_round_trip(word);
    assert(head.len() == 8);
    assert(head[0] == VERSION);
    assert(forall|i: int| 0 <= i < 2 ==> head[i + 2] == spec_u16_bytes(h.length)[i]);
    assert(forall|i: int| 0 <= i < 4 ==> head[i + 4] == spec_u32_bytes(word)[i]);
    assert(forall|i: int| 0 <= i < 8 ==> data[i] == head[i]);
    assert(spec_u16_le(data, 2) == h.length);
    assert(spec_u32_le(data, 4) == word);
    assert(!spec_bit(word, 536870912));
    assert(!spec_bit(word, 1073741824));
    assert(!spec_bit(word, 2147483648));
    lemma_word_kinds(h.present, 0);
    assert(spec_word_kinds(word, 0) + Seq::<Kind>::empty() =~= h.present);
    assert(spec_words(data, 4, false, true) == Ok::<(Seq<Kind>, int), Error>((h.present, 8)));
}

/// `acc` after the values that `v` holds for the kinds `kinds` have been
/// stored in it, in that order.
spec fn spec_store(acc: RadiotapView, v: RadiotapView, kinds: Seq<Kind>) -> RadiotapView
    decreases kinds.len(),
{
    if kinds.len() == 0 {
        acc
    } else {
        spec_store(
            match v.slot(kinds[0]) {
                Some(field) => acc.with(field),
                None => acc,
            },
            v,
            kinds.skip(1),
        )
    }
}

proof fn lemma_store_slot(acc: RadiotapView, v: RadiotapView, kinds: Seq<Kind>, kind: Kind)
    requires
        forall|i: int| 0 <= i < kinds.len() ==> (#[trigger] v.slot(kinds[i])) is Some,
    ensures
        spec_store(acc, v, kinds).header == acc.header,
        spec_store(acc, v, kinds).slot(kind) == if kinds.contains(kind) {
            v.slot(kind)
        } else {
            acc.slot(kind)
        },
    decreases kinds.len(),
{
    if kinds.len() > 0 {
        let first = kinds[0];
        let field = v.slot(first)->0;
        let rest = kinds.skip(1);
        assert(v.slot(kinds[0]) is Some);
        lemma_with_slot(acc, field, kind);
        lemma_with_slot(v, field, first);
        assert forall|i: int| 0 <= i < rest.len() implies (#[trigger] v.slot(rest[i])) is Some by {
            assert(v.slot(kinds[i + 1]) is Some);
        }
        lemma_store_slot(acc.with(field), v, rest, kind);
        if rest.contains(kind) {
            let i = choose|i: int| 0 <= i < rest.len() && rest[i] == kind;
            assert(kinds[i + 1] == kind);
        }
        if kinds.contains(kind) && !rest.contains(kind) {
            let i = choose|i: int| 0 <= i < kinds.len() && kinds[i] == kind;
            if i > 0 {
                assert(rest[i - 1] == kind);
            }
        }
    }
}

proof fn lemma_body_length(v: RadiotapView, kinds: Seq<Kind>, written: int)
    requires
        written >= 0,
        forall|i: int| 0 <= i < kinds.len() ==> (#[trigger] v.slot(kinds[i])) is Some,
    ensures
        written + spec_body(v, kinds, written).len() == spec_fold_length(written, kinds),
    decreases kinds.len(),
{
    if kinds.len() > 0 {
        let first = kinds[0];
        let rest = kinds.skip(1);
        assert(v.slot(kinds[0]) is Some);
        let field = v.slot(first)->0;
        lemma_with_slot(v, field, first);
        field.lemma_size();
        lemma_align_up(written, first.spec_align());
        assert forall|i: int| 0 <= i < rest.len() implies (#[trigger] v.slot(rest[i])) is Some by {
            assert(v.slot(kinds[i + 1]) is Some);
        }
        lemma_body_length(
            v,
            rest,
            spec_align_up(written, first.spec_align()) + first.spec_size(),
        );
    }
}

proof fn lemma_fields_round_trip(
    v: RadiotapView,
    region: Seq<u8>,
    pos: int,
    kinds: Seq<Kind>,
    acc: RadiotapView,
)
    requires
        0 <= pos <= region.len(),
        region.subrange(pos, region.len() as int) == spec_body(v, kinds, pos),
        spec_valid_fields(v),
        forall|i: int| 0 <= i < kinds.len() ==> (#[trigger] v.slot(kinds[i])) is Some,
    ensures
        spec_fields(region, pos, kinds, acc) == Ok::<RadiotapView, Error>(
            spec_store(acc, v, kinds),
        ),
    decreases kinds.len(),
{
    lemma_fields_unfold(region, pos, kinds, acc);
    if kinds.len() > 0 {
        let first = kinds[0];
        let rest = kinds.skip(1);
        assert(v.slot(kinds[0]) is Some);
        let field = v.slot(first)->0;
        lemma_with_slot(v, field, first);
        field.lemma_round_trip();
        lemma_align_up(pos, first.spec_align());
        let pad = spec_zeros(spec_padding(pos, first.spec_align()));
        let bytes = field.spec_bytes();
        let start = pos + pad.len();
        let end = start + bytes.len();
        let tail = spec_body(v, rest, end);
        let body = spec_body(v, kinds, pos);
        assert(body == pad + bytes + tail);
        assert(body.len() == pad.len() + bytes.len() + tail.len());
        assert(start == spec_align_up(pos, first.spec_align()));
        assert(end <= region.len());
        assert(spec_step(region, pos, first) == Ok::<(Kind, int, int), Error>((first, start, end)));
        assert(region.subrange(start, end) =~= bytes) by {
            assert forall|i: int| 0 <= i < bytes.len() implies region.subrange(start, end)[i]
                == bytes[i] by {
                assert(region[start + i] == region.subrange(pos, region.len() as int)[start - pos
                    + i]);
                assert(body[pad.len() + i] == bytes[i]);
            }
        }
        assert(region.subrange(end, region.len() as int) =~= tail) by {
            assert forall|i: int| 0 <= i < tail.len() implies region.subrange(
                end,
                region.len() as int,
            )[i] == tail[i] by {
                assert(region[end + i] == region.subrange(pos, region.len() as int)[end - pos + i]);
                assert(body[pad.len() + bytes.len() + i] == tail[i]);
            }
        }
        assert forall|i: int| 0 <= i < rest.len() implies (#[trigger] v.slot(rest[i])) is Some by {
            assert(v.slot(kinds[i + 1]) is Some);
        }
        lemma_fields_round_trip(v, region, end, rest, acc.with(field));
    }
}

/// A capture in the form in which the builder leaves it takes as many bytes
/// as its header declares, and that length fits the header.
pub proof fn lemma_unparse_length(v: RadiotapView)
    requires
        spec_consistent(v),
    ensures
        spec_unparse(v).len() == v.header.length,
        MIN_HEADER_SIZE <= v.header.length <= MAX_LENGTH,
{
    let kinds = v.header.present;
    assert forall|i: int| 0 <= i < kinds.len() implies (#[trigger] v.slot(kinds[i])) is Some by {
        assert(kinds.contains(kinds[i]));
    }
    lemma_body_length(v, kinds, 8);
    lemma_fold_length_bound(8, kinds);
    if kinds.len() > 0 {
        lemma_ascending_bound(kinds, 0);
    }
}

/// Reading what was written gives the capture that was written, and the
/// bytes behind it.
///
/// This holds of a capture in the form in which the builder leaves it, with
/// values that a capture can hold.
pub proof fn lemma_round_trip(v: RadiotapView, rest: Seq<u8>)
    requires
        spec_consistent(v),
        spec_valid_fields(v),
    ensures
        spec_unparse(v).len() == v.header.length,
        spec_parse(spec_unparse(v) + rest) == Ok::<(RadiotapView, Seq<u8>), Error>((v, rest)),
{
    let h = v.header;
    let kinds = h.present;
    let head = spec_header_bytes(h);
    let body = spec_body(v, kinds, 8);
    let input = spec_unparse(v) + rest;
    lemma_unparse_length(v);
    lemma_header_round_trip(h, body + rest);
    assert(input =~= head + (body + rest));
    let region = input.subrange(0, h.length);
    assert(region =~= head + body);
    assert(region.subrange(8, region.len() as int) =~= body);
    assert forall|i: int| 0 <= i < kinds.len() implies (#[trigger] v.slot(kinds[i])) is Some by {
        assert(kinds.contains(kinds[i]));
    }
    let start = spec_empty(h);
    lemma_fields_round_trip(v, region, 8, kinds, start);
    let back = spec_store(start, v, kinds);
    assert forall|kind: Kind| #[trigger] back.slot(kind) == v.slot(kind) by {
        lemma_store_slot(start, v, kinds, kind);
        assert(start.slot(kind) is None);
    }
    lemma_store_slot(start, v, kinds, Kind::TSFT);
    lemma_same_slots(back, v);
    assert(input.subrange(h.length, input.len() as int) =~= rest);
}

} // verus!
