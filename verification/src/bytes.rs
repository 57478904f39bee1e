//! Little-endian integers, single-bit flags and alignment, written as plain
//! arithmetic so that every value can be computed by hand from the bytes.

use vstd::prelude::*;

verus! {

/// The 16-bit little-endian integer stored in `s` at offset `at`.
pub open spec fn spec_u16_le(s: Seq<u8>, at: int) -> int {
    s[at] as int + 256 * (s[at + 1] as int)
}

/// The 32-bit little-endian integer stored in `s` at offset `at`.
pub open spec fn spec_u32_le(s: Seq<u8>, at: int) -> int {
    s[at] as int + 256 * (s[at + 1] as int) + 65536 * (s[at + 2] as int) + 16777216 * (s[at
        + 3] as int)
}

/// The 64-bit little-endian integer stored in `s` at offset `at`.
pub open spec fn spec_u64_le(s: Seq<u8>, at: int) -> int {
    spec_u32_le(s, at) + 4294967296 * spec_u32_le(s, at + 4)
}

/// The two bytes that store `v`, least significant first.
pub open spec fn spec_u16_bytes(v: int) -> Seq<u8> {
    seq![(v % 256) as u8, (v / 256 % 256) as u8]
}

/// The four bytes that store `v`, least significant first.
pub open spec fn spec_u32_bytes(v: int) -> Seq<u8> {
    seq![
        (v % 256) as u8,
        (v / 256 % 256) as u8,
        (v / 65536 % 256) as u8,
        (v / 16777216 % 256) as u8,
    ]
}

/// The eight bytes that store `v`, least significant first.
pub open spec fn spec_u64_bytes(v: int) -> Seq<u8> {
    spec_u32_bytes(v % 4294967296) + spec_u32_bytes(v / 4294967296)
}

/// The signed value of a byte in two's complement.
pub open spec fn spec_i8_of(b: u8) -> int {
    if b < 128 {
        b as int
    } else {
        b as int - 256
    }
}

/// The byte that stores a signed value in two's complement.
pub open spec fn spec_byte_of_i8(v: i8) -> u8 {
    if v >= 0 {
        v as u8
    } else {
        (v + 256) as u8
    }
}

/// `w` when the flag is raised, zero otherwise.
pub open spec fn spec_flag(b: bool, w: int) -> int {
    if b {
        w
    } else {
        0
    }
}

/// Whether the bit of weight `w` (a power of two) is set in `v`.
pub open spec fn spec_bit(v: int, w: int) -> bool {
    (v / w) % 2 == 1
}

/// The number of bytes to skip so that `pos` becomes a multiple of `align`.
pub open spec fn spec_padding(pos: int, align: int) -> int {
    (align - pos % align) % align
}

/// `pos` rounded up to the next multiple of `align`.
pub open spec fn spec_align_up(pos: int, align: int) -> int {
    pos + spec_padding(pos, align)
}

/// `n` zero bytes.
pub open spec fn spec_zeros(n: int) -> Seq<u8> {
    Seq::new(n as nat, |i: int| 0u8)
}

pub fn read_u16(data: &[u8], at: usize) -> (r: u16)
    requires
        at + 2 <= data@.len(),
    ensures
        r == spec_u16_le(data@, at as int),
{
    data[at] as u16 + 256 * (data[at + 1] as u16)
}

pub fn read_u32(data: &[u8], at: usize) -> (r: u32)
    requires
        at + 4 <= data@.len(),
    ensures
        r == spec_u32_le(data@, at as int),
{
    data[at] as u32 + 256 * (data[at + 1] as u32) + 65536 * (data[at + 2] as u32) + 16777216 * (
    data[at + 3] as u32)
}

pub fn read_u64(data: &[u8], at: usize) -> (r: u64)
    requires
        at + 8 <= data@.len(),
    ensures
        r == spec_u64_le(data@, at as int),
{
    assert(data.len() <= usize::MAX);
    let lo = read_u32(data, at);
    let hi = read_u32(data, at + 4);
    lo as u64 + 4294967296 * (hi as u64)
}

pub fn write_u16(out: &mut Vec<u8>, v: u16)
    ensures
        final(out)@ == old(out)@ + spec_u16_bytes(v as int),
{
    out.push((v % 256) as u8);
    out.push((v / 256) as u8);
    assert(out@ =~= old(out)@ + spec_u16_bytes(v as int));
}

pub fn write_u32(out: &mut Vec<u8>, v: u32)
    ensures
        final(out)@ == old(out)@ + spec_u32_bytes(v as int),
{
    out.push((v % 256) as u8);
    out.push((v / 256 % 256) as u8);
    out.push((v / 65536 % 256) as u8);
    out.push((v / 16777216) as u8);
    assert(out@ =~= old(out)@ + spec_u32_bytes(v as int));
}

pub fn write_u64(out: &mut Vec<u8>, v: u64)
    ensures
        final(out)@ == old(out)@ + spec_u64_bytes(v as int),
{
    write_u32(out, (v % 4294967296) as u32);
    write_u32(out, (v / 4294967296) as u32);
    assert(out@ =~= old(out)@ + spec_u64_bytes(v as int));
}

pub fn i8_of(b: u8) -> (r: i8)
    ensures
        r == spec_i8_of(b),
{
    if b < 128 {
        b as i8
    } else {
        (b as i16 - 256) as i8
    }
}

pub fn byte_of_i8(v: i8) -> (r: u8)
    ensures
        r == spec_byte_of_i8(v),
        spec_i8_of(r) == v,
{
    if v >= 0 {
        v as u8
    } else {
        (v as i16 + 256) as u8
    }
}

/// Tests the bit of weight `w` in `v`.
pub fn bit(v: u32, w: u32) -> (r: bool)
    requires
        w > 0,
    ensures
        r == spec_bit(v as int, w as int),
{
    (v / w) % 2 == 1
}

/// The contribution of one flag to a packed word.
pub fn flag(b: bool, w: u32) -> (r: u32)
    ensures
        r == spec_flag(b, w as int),
{
    if b {
        w
    } else {
        0
    }
}

/// The number of bytes to skip so that `pos` becomes a multiple of `align`.
pub fn padding(pos: usize, align: usize) -> (r: usize)
    requires
        align > 0,
    ensures
        r == spec_padding(pos as int, align as int),
        r < align,
{
    (align - pos % align) % align
}

/// Appends `n` zero bytes.
pub fn write_zeros(out: &mut Vec<u8>, n: usize)
    ensures
        final(out)@ == old(out)@ + spec_zeros(n as int),
{
    let mut i: usize = 0;
    while i < n
        invariant
            i <= n,
            out@ == old(out)@ + spec_zeros(i as int),
        decreases n - i,
    {
        out.push(0u8);
        i = i + 1;
        assert(out@ =~= old(out)@ + spec_zeros(i as int));
    }
}

/// Reading back what was written gives the value that was written.
pub proof fn lemma_u16_round_trip(v: int)
    requires
        0 <= v < 65536,
    ensures
        spec_u16_bytes(v).len() == 2,
        spec_u16_le(spec_u16_bytes(v), 0) == v,
{
}

/// Reading back what was written gives the value that was written.
pub proof fn lemma_u32_round_trip(v: int)
    requires
        0 <= v < 4294967296,
    ensures
        spec_u32_bytes(v).len() == 4,
        spec_u32_le(spec_u32_bytes(v), 0) == v,
{
}

/// Reading back what was written gives the value that was written.
pub proof fn lemma_u64_round_trip(v: int)
    requires
        0 <= v < 18446744073709551616,
    ensures
        spec_u64_bytes(v).len() == 8,
        spec_u64_le(spec_u64_bytes(v), 0) == v,
{
    let lo = v % 4294967296;
    let hi = v / 4294967296;
    lemma_u32_round_trip(lo);
    lemma_u32_round_trip(hi);
    let s = spec_u64_bytes(v);
    assert(forall|i: int| 0 <= i < 4 ==> s[i] == spec_u32_bytes(lo)[i]);
    assert(forall|i: int| 0 <= i < 4 ==> s[i + 4] == spec_u32_bytes(hi)[i]);
    assert(spec_u32_le(s, 0) == lo);
    assert(spec_u32_le(s, 4) == hi);
}

/// Rounding up adds less than `align` and lands on a multiple of `align`; the
/// amount added is `align - pos % align`, or nothing where `pos` is aligned.
pub proof fn lemma_align_up(pos: int, align: int)
    requires
        pos >= 0,
        align > 0,
    ensures
        0 <= spec_padding(pos, align) < align,
        spec_align_up(pos, align) % align == 0,
        pos % align == 0 ==> spec_padding(pos, align) == 0,
        pos % align != 0 ==> spec_padding(pos, align) == align - pos % align,
{
    let r = pos % align;
    let q = pos / align;
    assert(pos == align * q + r && 0 <= r < align) by (nonlinear_arith)
        requires
            align > 0,
            r == pos % align,
            q == pos / align,
    ;
    if r == 0 {
        assert(align % align == 0) by (nonlinear_arith)
            requires
                align > 0,
        ;
    } else {
        assert((align - r) % align == align - r) by (nonlinear_arith)
            requires
                0 < r < align,
        ;
        assert((align * q + align) % align == 0) by (nonlinear_arith)
            requires
                align > 0,
        ;
    }
}

/// No multiple of `align` lies between `pos` and `pos` rounded up.
pub proof fn lemma_align_up_least(pos: int, align: int, m: int)
    requires
        pos >= 0,
        align > 0,
        pos <= m,
        m % align == 0,
    ensures
        spec_align_up(pos, align) <= m,
{
    lemma_align_up(pos, align);
    let r = pos % align;
    let q = pos / align;
    if r != 0 {
        let k = m / align;
        assert(pos == align * q + r) by (nonlinear_arith)
            requires
                align > 0,
                r == pos % align,
                q == pos / align,
        ;
        assert(m == align * k) by (nonlinear_arith)
            requires
                align > 0,
                k == m / align,
                m % align == 0,
        ;
        assert(align * k >= align * q + align) by (nonlinear_arith)
            requires
                align > 0,
                align * k >= align * q + r,
                0 < r < align,
        ;
    }
}

/// Rounding up is adding `align - 1` and dropping the remainder.
pub proof fn lemma_align_up_quotient(pos: int, align: int)
    requires
        pos >= 0,
        align > 0,
    ensures
        spec_align_up(pos, align) == (pos + align - 1) / align * align,
{
    lemma_align_up(pos, align);
    let r = pos % align;
    let q = pos / align;
    assert(pos == align * q + r && 0 <= r < align) by (nonlinear_arith)
        requires
            align > 0,
            r == pos % align,
            q == pos / align,
    ;
    if r == 0 {
        assert((align * q + align - 1) / align == q) by (nonlinear_arith)
            requires
                align > 0,
        ;
        assert(q * align == align * q) by (nonlinear_arith);
    } else {
        assert((align * q + r + align - 1) / align == q + 1) by (nonlinear_arith)
            requires
                align > 0,
                0 < r < align,
        ;
        assert((q + 1) * align == align * q + align) by (nonlinear_arith);
    }
}

} // verus!
