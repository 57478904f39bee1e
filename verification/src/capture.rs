//! Facts about captures: where the padding lies, how damaged captures are
//! refused, and how vendor data is passed over.

use crate::bytes::{lemma_align_up, spec_align_up, spec_padding, spec_u16_le, spec_zeros};
use crate::field::header::{lemma_words_size, spec_header, HeaderView, VERSION};
use crate::field::{Field, Kind};
use crate::order::spec_fold_length;
use crate::{
    lemma_fields_unfold, lemma_with_slot, spec_body, spec_empty, spec_fields, spec_parse, spec_step, Error,
    RadiotapView,
};
use vstd::prelude::*;

verus! {

/// In the bytes of a capture, a field that would start off its boundary is
/// preceded by `(align - written % align) % align` zero bytes, which bring it
/// to the boundary, and an aligned field by none. The bytes of the field
/// follow, then the other fields.
pub proof fn lemma_body_padding(v: RadiotapView, kinds: Seq<Kind>, written: int)
    requires
        written >= 0,
        kinds.len() > 0,
    ensures
        ({
            let align = kinds[0].spec_align();
            let pad = (align - written % align) % align;
            let bytes = match v.slot(kinds[0]) {
                Some(field) => field.spec_bytes(),
                None => Seq::empty(),
            };
            let body = spec_body(v, kinds, written);
            &&& 0 <= pad < align
            &&& (written + pad) % align == 0
            &&& written % align == 0 ==> pad == 0
            &&& body.len() >= pad + bytes.len()
            &&& forall|i: int| 0 <= i < pad ==> body[i] == 0
            &&& body.subrange(pad, pad + bytes.len()) == bytes
            &&& body.subrange(pad + bytes.len(), body.len() as int) == spec_body(
                v,
                kinds.skip(1),
                written + pad + bytes.len(),
            )
        }),
{
    let align = kinds[0].spec_align();
    let pad = spec_padding(written, align);
    let bytes = match v.slot(kinds[0]) {
        Some(field) => field.spec_bytes(),
        None => Seq::empty(),
    };
    let tail = spec_body(v, kinds.skip(1), written + pad + bytes.len());
    let body = spec_body(v, kinds, written);
    lemma_align_up(written, align);
    assert(spec_zeros(pad).len() == pad);
    assert(body == spec_zeros(pad) + bytes + tail);
    assert(body.subrange(pad, pad + bytes.len()) =~= bytes);
    assert(body.subrange(pad + bytes.len(), body.len() as int) =~= tail);
}

/// In the length of a capture, a field counts with the same padding as in
/// its bytes, and with the size of its kind.
pub proof fn lemma_length_padding(length: int, kinds: Seq<Kind>)
    requires
        length >= 0,
        kinds.len() > 0,
    ensures
        ({
            let align = kinds[0].spec_align();
            let pad = (align - length % align) % align;
            &&& 0 <= pad < align
            &&& (length + pad) % align == 0
            &&& spec_fold_length(length, kinds) == spec_fold_length(
                length + pad + kinds[0].spec_size(),
                kinds.skip(1),
            )
        }),
{
    lemma_align_up(length, kinds[0].spec_align());
}

/// A capture of another version than the supported one is refused as such,
/// whatever follows the version.
pub proof fn lemma_version_rejected(input: Seq<u8>)
    requires
        input.len() >= 1,
        input[0] != VERSION,
    ensures
        spec_header(input) == Err::<HeaderView, Error>(Error::UnsupportedVersion),
        spec_parse(input) == Err::<(RadiotapView, Seq<u8>), Error>(Error::UnsupportedVersion),
{
}

/// A capture that declares more bytes than there are is refused for its
/// length.
pub proof fn lemma_length_overrun(input: Seq<u8>)
    requires
        input.len() >= 4,
        input[0] == VERSION,
        spec_u16_le(input, 2) > input.len(),
    ensures
        spec_header(input) == Err::<HeaderView, Error>(Error::InvalidLength),
        spec_parse(input) == Err::<(RadiotapView, Seq<u8>), Error>(Error::InvalidLength),
{
}

/// A header that is read declares a length that the data covers and that
/// covers the header.
pub proof fn lemma_header_lengths(input: Seq<u8>)
    ensures
        spec_header(input) matches Ok(h) ==> h.version == VERSION && 8 <= h.size <= h.length
            <= input.len(),
{
    lemma_words_size(input, 4, false, true);
}

/// The window of a field lies behind the offset at which the walk stands and
/// within the data, and the only error of a step is a window that does not.
pub proof fn lemma_step_window(data: Seq<u8>, pos: int, kind: Kind)
    requires
        pos >= 0,
    ensures
        match spec_step(data, pos, kind) {
            Ok((_, start, end)) => pos <= start <= end <= data.len(),
            Err(e) => e == Error::IncompleteError && spec_align_up(pos, kind.spec_align())
                + kind.spec_size() + (if kind == Kind::VendorNamespace(None) && spec_align_up(
                pos,
                2,
            ) + 6 <= data.len() {
                spec_u16_le(data, spec_align_up(pos, 2) + 4)
            } else {
                0
            }) > data.len(),
        },
{
    lemma_align_up(pos, kind.spec_align());
    if kind == Kind::VendorNamespace(None) {
        let start = spec_align_up(pos, 2);
        if start + 6 <= data.len() {
            let window = data.subrange(start, start + 6);
            assert(window[4] == data[start + 4]);
            assert(window[5] == data[start + 5]);
        }
    }
}

/// The offset behind the fields of the kinds `kinds`, read from offset `pos`
/// on; where a field does not fit, the offset before it.
pub open spec fn spec_end(data: Seq<u8>, pos: int, kinds: Seq<Kind>) -> int
    decreases kinds.len(),
{
    if kinds.len() == 0 {
        pos
    } else {
        match spec_step(data, pos, kinds[0]) {
            Ok((_, _, end)) => spec_end(data, end, kinds.skip(1)),
            Err(_) => pos,
        }
    }
}

/// Where all fields but the last are read and the window of the last reaches
/// past the end of the data, reading fails with `IncompleteError`.
pub proof fn lemma_truncated_field(data: Seq<u8>, pos: int, kinds: Seq<Kind>, acc: RadiotapView)
    requires
        pos >= 0,
        kinds.len() > 0,
        spec_fields(data, pos, kinds.drop_last(), acc) is Ok,
        spec_step(data, spec_end(data, pos, kinds.drop_last()), kinds.last()) is Err,
    ensures
        spec_fields(data, pos, kinds, acc) == Err::<RadiotapView, Error>(Error::IncompleteError),
    decreases kinds.len(),
{
    let front = kinds.drop_last();
    lemma_fields_unfold(data, pos, kinds, acc);
    lemma_fields_unfold(data, pos, front, acc);
    if front.len() == 0 {
        lemma_step_window(data, pos, kinds[0]);
    } else {
        assert(front[0] == kinds[0]);
        lemma_step_window(data, pos, kinds[0]);
        let step = spec_step(data, pos, kinds[0]);
        assert(step is Ok);
        let (kind, start, end) = step->Ok_0;
        let rest = kinds.skip(1);
        assert(front.skip(1) =~= rest.drop_last());
        assert(rest.last() == kinds.last());
        match Field::spec_from_bytes(kind, data.subrange(start, end)) {
            Ok(Some(field)) => {
                lemma_truncated_field(data, end, rest, acc.with(field));
            },
            Ok(None) => {
                lemma_truncated_field(data, end, rest, acc);
            },
            Err(_) => {},
        }
    }
}

/// A capture whose header is read, and whose last field alone does not fit
/// the length that the header declares, is refused with `IncompleteError`.
pub proof fn lemma_truncated_capture(input: Seq<u8>)
    requires
        spec_header(input) matches Ok(h) && h.present.len() > 0 && ({
            let region = input.subrange(0, h.length);
            &&& spec_fields(region, h.size, h.present.drop_last(), spec_empty(h)) is Ok
            &&& spec_step(
                region,
                spec_end(region, h.size, h.present.drop_last()),
                h.present.last(),
            ) is Err
        }),
    ensures
        spec_parse(input) == Err::<(RadiotapView, Seq<u8>), Error>(Error::IncompleteError),
{
    let h = spec_header(input)->Ok_0;
    lemma_header_lengths(input);
    lemma_truncated_field(input.subrange(0, h.length), h.size, h.present, spec_empty(h));
}

/// Reading fields keeps the header and stores a value for each kind read
/// that has a value type, beside the values that were stored before.
pub proof fn lemma_fields_fill(data: Seq<u8>, pos: int, kinds: Seq<Kind>, acc: RadiotapView, kind: Kind)
    requires
        spec_fields(data, pos, kinds, acc) is Ok,
    ensures
        ({
            let r = spec_fields(data, pos, kinds, acc)->Ok_0;
            &&& r.header == acc.header
            &&& r.slot(kind) is Some <==> acc.slot(kind) is Some || kinds.contains(kind)
                && !kind.spec_is_vendor()
        }),
    decreases kinds.len(),
{
    lemma_fields_unfold(data, pos, kinds, acc);
    if kinds.len() > 0 {
        let first = kinds[0];
        let rest = kinds.skip(1);
        let step = spec_step(data, pos, first);
        let (read, start, end) = step->Ok_0;
        let window = data.subrange(start, end);
        assert(read.spec_is_vendor() == first.spec_is_vendor());
        assert(!first.spec_is_vendor() ==> read == first);
        Field::lemma_needs_size(read, window);
        if rest.contains(kind) {
            let i = choose|i: int| 0 <= i < rest.len() && rest[i] == kind;
            assert(kinds[i + 1] == kind);
        }
        if kinds.contains(kind) && !rest.contains(kind) {
            let i = choose|i: int| 0 <= i < kinds.len() && kinds[i] == kind;
            if i > 0 {
                assert(rest[i - 1] == kind);
            }
        }
        match Field::spec_from_bytes(read, window) {
            Ok(Some(field)) => {
                lemma_with_slot(acc, field, kind);
                lemma_fields_fill(data, end, rest, acc.with(field), kind);
            },
            Ok(None) => {
                lemma_fields_fill(data, end, rest, acc, kind);
            },
            Err(_) => {},
        }
    }
}

/// A capture that was read has the header that was read, and holds a value
/// for each kind that the header names and that has a value type, and for no
/// other.
pub proof fn lemma_parse_fills_present(input: Seq<u8>, kind: Kind)
    requires
        spec_parse(input) is Ok,
    ensures
        ({
            let r = spec_parse(input)->Ok_0.0;
            &&& spec_header(input) == Ok::<HeaderView, Error>(r.header)
            &&& r.slot(kind) is Some <==> r.header.present.contains(kind)
                && !kind.spec_is_vendor()
        }),
{
    let h = spec_header(input)->Ok_0;
    lemma_fields_fill(input.subrange(0, h.length), h.size, h.present, spec_empty(h), kind);
    assert(spec_empty(h).slot(kind) is None);
}

/// The data reported for a vendor namespace starts behind its descriptor and
/// has the length that the descriptor gives, and the next field is read from
/// the end of that data on.
pub proof fn lemma_vendor_window(data: Seq<u8>, pos: int, others: Seq<Kind>, acc: RadiotapView)
    requires
        pos >= 0,
        spec_align_up(pos, 2) + 6 + spec_u16_le(data, spec_align_up(pos, 2) + 4) <= data.len(),
    ensures
        ({
            let start = spec_align_up(pos, 2);
            let skip = spec_u16_le(data, start + 4);
            &&& spec_step(data, pos, Kind::VendorNamespace(None)) matches Ok((kind, from, to))
            &&& kind matches Kind::VendorNamespace(Some(descriptor))
            &&& descriptor.skip_length == skip
            &&& descriptor.sub_namespace == data[start + 3]
            &&& from == start + 6
            &&& to == from + skip
            &&& data.subrange(from, to).len() == skip
            &&& spec_fields(data, pos, seq![Kind::VendorNamespace(None)] + others, acc)
                == spec_fields(data, to, others, acc)
        }),
{
    let kind = Kind::VendorNamespace(None);
    let start = spec_align_up(pos, 2);
    let kinds = seq![kind] + others;
    lemma_align_up(pos, 2);
    let window = data.subrange(start, start + 6);
    assert(window[3] == data[start + 3]);
    assert(window[4] == data[start + 4]);
    assert(window[5] == data[start + 5]);
    lemma_fields_unfold(data, pos, kinds, acc);
    assert(kinds[0] == kind);
    assert(kinds.skip(1) =~= others);
    let step = spec_step(data, pos, kind);
    assert(step is Ok);
    Field::lemma_needs_size(step->Ok_0.0, data.subrange(step->Ok_0.1, step->Ok_0.2));
    assert(Field::spec_from_bytes(step->Ok_0.0, data.subrange(step->Ok_0.1, step->Ok_0.2)) is Ok);
}

} // verus!
