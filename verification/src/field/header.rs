//! The fixed prefix of a capture: version, declared length and the presence
//! bitmap that announces the fields.

use crate::bytes::{
    bit, flag, read_u16, read_u32, spec_bit, spec_flag, spec_u16_bytes, spec_u16_le,
    spec_u32_bytes, spec_u32_le, write_u16, write_u32,
};
use crate::Error;
use crate::field::kind::{Kind, KNOWN_KINDS};
use vstd::arithmetic::power2::{lemma2_to64, lemma_pow2_unfold, pow2};
use vstd::prelude::*;

verus! {

/// The only version of the format that is understood.
pub const VERSION: u8 = 0;

/// The size of the smallest header: version, padding, length and one
/// presence word.
pub const MIN_HEADER_SIZE: usize = 8;

/// The largest length that a header can declare.
pub const MAX_LENGTH: usize = 65535;

/// The word bit that switches back to the Radiotap namespace.
pub const RADIOTAP_NAMESPACE: u32 = 536870912;

/// The word bit that switches to a vendor namespace.
pub const VENDOR_NAMESPACE: u32 = 1073741824;

/// The word bit that says another presence word follows.
pub const MORE_WORDS: u32 = 2147483648;

/// The Radiotap header, contained in all Radiotap captures.
#[derive(Debug, Clone, PartialEq, Eq)]
pub struct Header {
    /// The Radiotap version, only version 0 is supported.
    pub version: u8,
    /// The length of the entire Radiotap capture.
    pub length: usize,
    /// The size of the Radiotap header.
    pub size: usize,
    /// The fields present in the Radiotap capture.
    pub present: Vec<Kind>,
}

/// A header as a mathematical value.
pub struct HeaderView {
    pub version: u8,
    pub length: int,
    pub size: int,
    pub present: Seq<Kind>,
}

impl View for Header {
    type V = HeaderView;

    open spec fn view(&self) -> HeaderView {
        HeaderView {
            version: self.version,
            length: self.length as int,
            size: self.size as int,
            present: self.present@,
        }
    }
}

/// The header of a capture without fields.
pub open spec fn spec_default_header() -> HeaderView {
    HeaderView { version: 0, length: 8, size: 8, present: Seq::empty() }
}

impl Default for Header {
    fn default() -> (r: Header)
        ensures
            r@ == spec_default_header(),
    {
        Header { version: VERSION, length: MIN_HEADER_SIZE, present: Vec::new(), size: MIN_HEADER_SIZE }
    }
}

/// `kind` alone where the condition holds, nothing otherwise.
pub open spec fn spec_when(b: bool, kind: Option<Kind>) -> Seq<Kind> {
    if b && kind is Some {
        seq![kind->0]
    } else {
        Seq::empty()
    }
}

/// The kinds that a first presence word announces from bit `bit` on, in
/// ascending order, where `word` has already been shifted right by `bit`.
pub open spec fn spec_word_kinds(word: int, bit: int) -> Seq<Kind>
    decreases KNOWN_KINDS - bit,
{
    if bit >= KNOWN_KINDS {
        Seq::empty()
    } else {
        spec_when(word % 2 == 1, Kind::spec_new(bit)) + spec_word_kinds(word / 2, bit + 1)
    }
}

/// The result of reading presence words from offset `at` on: the kinds they
/// announce and the offset behind the last word. `vendor` says that the words
/// belong to a vendor namespace, `fresh` that the next word is the first of
/// its namespace.
pub open spec fn spec_words(data: Seq<u8>, at: int, vendor: bool, fresh: bool) -> Result<
    (Seq<Kind>, int),
    Error,
>
    decreases data.len() - at,
{
    if at < 0 || at + 4 > data.len() {
        Err(Error::ParseError)
    } else {
        let word = spec_u32_le(data, at);
        let own = if !vendor && fresh {
            spec_word_kinds(word, 0)
        } else {
            Seq::empty()
        };
        let to_radiotap = spec_bit(word, RADIOTAP_NAMESPACE as int);
        let to_vendor = !to_radiotap && spec_bit(word, VENDOR_NAMESPACE as int);
        let marker = if to_vendor {
            seq![Kind::VendorNamespace(None)]
        } else {
            Seq::empty()
        };
        if spec_bit(word, MORE_WORDS as int) {
            match spec_words(
                data,
                at + 4,
                if to_radiotap {
                    false
                } else {
                    to_vendor || vendor
                },
                to_radiotap || to_vendor,
            ) {
                Ok((rest, size)) => Ok((own + marker + rest, size)),
                Err(e) => Err(e),
            }
        } else {
            Ok((own + marker, at + 4))
        }
    }
}

/// The header that `data` starts with, or the reason why it has none.
pub open spec fn spec_header(data: Seq<u8>) -> Result<HeaderView, Error> {
    if data.len() < 1 {
        Err(Error::ParseError)
    } else if data[0] != VERSION {
        Err(Error::UnsupportedVersion)
    } else if data.len() < 4 {
        Err(Error::ParseError)
    } else if data.len() < spec_u16_le(data, 2) {
        Err(Error::InvalidLength)
    } else {
        match spec_words(data, 4, false, true) {
            Err(e) => Err(e),
            Ok((present, size)) => if size > spec_u16_le(data, 2) {
                Err(Error::InvalidLength)
            } else {
                Ok(
                    HeaderView {
                        version: VERSION,
                        length: spec_u16_le(data, 2),
                        size: size,
                        present: present,
                    },
                )
            },
        }
    }
}

/// The presence words end within the data, behind the first of them.
pub proof fn lemma_words_size(data: Seq<u8>, at: int, vendor: bool, fresh: bool)
    requires
        at >= 0,
    ensures
        spec_words(data, at, vendor, fresh) matches Ok((_, size)) ==> at + 4 <= size <= data.len(),
    decreases data.len() - at,
{
    if at + 4 <= data.len() {
        let word = spec_u32_le(data, at);
        if spec_bit(word, MORE_WORDS as int) {
            let to_radiotap = spec_bit(word, RADIOTAP_NAMESPACE as int);
            let to_vendor = !to_radiotap && spec_bit(word, VENDOR_NAMESPACE as int);
            lemma_words_size(
                data,
                at + 4,
                if to_radiotap {
                    false
                } else {
                    to_vendor || vendor
                },
                to_radiotap || to_vendor,
            );
        }
    }
}

/// Whether one of the kinds sits at position `bit` of the bitmap.
pub open spec fn spec_announces(present: Seq<Kind>, bit: int) -> bool {
    exists|i: int| 0 <= i < present.len() && (#[trigger] present[i]).spec_bit() == bit
}

/// The presence word for `present`, shifted right by `bit`.
pub open spec fn spec_mask_from(present: Seq<Kind>, bit: int) -> int
    decreases 32 - bit,
{
    if bit >= 32 {
        0
    } else {
        spec_flag(spec_announces(present, bit), 1) + 2 * spec_mask_from(present, bit + 1)
    }
}

/// The presence word whose set bits are the positions of the kinds in
/// `present`.
pub open spec fn spec_mask(present: Seq<Kind>) -> int {
    spec_mask_from(present, 0)
}

/// The bytes of a header: version, a zero byte, the length and one presence
/// word.
pub open spec fn spec_header_bytes(h: HeaderView) -> Seq<u8> {
    seq![h.version, 0u8] + spec_u16_bytes(h.length) + spec_u32_bytes(spec_mask(h.present))
}

/// A presence word shifted right by `bit` has only `32 - bit` bits.
pub proof fn lemma_mask_bound(present: Seq<Kind>, bit: int)
    requires
        0 <= bit <= 32,
    ensures
        0 <= spec_mask_from(present, bit) < pow2((32 - bit) as nat),
    decreases 32 - bit,
{
    if bit >= 32 {
        lemma2_to64();
    } else {
        lemma_mask_bound(present, bit + 1);
        lemma_pow2_unfold((32 - bit) as nat);
    }
}

fn announces(present: &Vec<Kind>, position: u8) -> (r: bool)
    ensures
        r == spec_announces(present@, position as int),
{
    let mut i: usize = 0;
    while i < present.len()
        invariant
            i <= present.len(),
            forall|j: int| 0 <= j < i ==> (#[trigger] present@[j]).spec_bit() != position,
        decreases present.len() - i,
    {
        if present[i].bit() == position {
            return true;
        }
        i = i + 1;
    }
    false
}

fn mask(present: &Vec<Kind>) -> (r: u32)
    ensures
        r == spec_mask(present@),
{
    let mut word: u64 = 0;
    let mut position: u8 = 32;
    proof {
        lemma2_to64();
    }
    while position > 0
        invariant
            position <= 32,
            word == spec_mask_from(present@, position as int),
            word < pow2((32 - position) as nat),
            pow2((32 - position) as nat) <= 4294967296,
        decreases position,
    {
        position = position - 1;
        proof {
            lemma_mask_bound(present@, position as int);
            lemma_mask_bound(present@, 0);
            lemma2_to64();
            lemma_pow2_unfold((32 - position) as nat);
            if position > 0 {
                vstd::arithmetic::power2::lemma_pow2_strictly_increases(
                    (32 - position) as nat,
                    32,
                );
            }
        }
        let raised = announces(present, position);
        word = 2 * word + flag(raised, 1) as u64;
    }
    proof {
        lemma2_to64();
    }
    word as u32
}

fn word_kinds(word: u32, present: &mut Vec<Kind>)
    ensures
        final(present)@ == old(present)@ + spec_word_kinds(word as int, 0),
{
    let mut rest = word;
    let mut position: u8 = 0;
    while position < KNOWN_KINDS
        invariant
            position <= KNOWN_KINDS,
            present@ + spec_word_kinds(rest as int, position as int) == old(present)@
                + spec_word_kinds(word as int, 0),
        decreases KNOWN_KINDS - position,
    {
        let ghost before = present@;
        if rest % 2 == 1 {
            match Kind::new(position) {
                Ok(kind) => {
                    present.push(kind);
                },
                Err(_) => {},
            }
        }
        proof {
            assert(present@ =~= before + spec_when(
                rest % 2 == 1,
                Kind::spec_new(position as int),
            ));
            assert(before + spec_word_kinds(rest as int, position as int) =~= present@
                + spec_word_kinds(rest as int / 2, position + 1));
        }
        rest = rest / 2;
        position = position + 1;
    }
    assert(present@ + spec_word_kinds(rest as int, position as int) =~= present@);
}

impl Header {
    /// Reads the header at the start of `input`.
    ///
    /// The version is examined first, then the declared length, then the
    /// presence words. Data that ends within the version, the length or a
    /// presence word gives `ParseError`. A declared length that the data does
    /// not cover, or that does not cover the presence words, gives
    /// `InvalidLength`.
    pub fn from_bytes(input: &[u8]) -> (r: Result<Header, Error>)
        ensures
            match spec_header(input@) {
                Ok(h) => r is Ok && r->Ok_0@ == h,
                Err(e) => r == Err::<Header, Error>(e),
            },
            r is Ok ==> r->Ok_0.size <= r->Ok_0.length <= input@.len(),
    {
        if input.len() < 1 {
            return Err(Error::ParseError);
        }
        let version = input[0];
        if version != VERSION {
            return Err(Error::UnsupportedVersion);
        }
        if input.len() < 4 {
            return Err(Error::ParseError);
        }
        let length = read_u16(input, 2) as usize;
        if input.len() < length {
            return Err(Error::InvalidLength);
        }
        let mut present: Vec<Kind> = Vec::new();
        let mut at: usize = 4;
        let mut vendor = false;
        let mut fresh = true;
        let mut more = true;
        let ghost whole = spec_words(input@, 4, false, true);
        while more
            invariant
                4 <= at <= input@.len() + 4,
                input@.len() >= 4,
                input@[0] == VERSION,
                version == VERSION,
                length == spec_u16_le(input@, 2),
                length <= input@.len(),
                whole == spec_words(input@, 4, false, true),
                more ==> (match spec_words(input@, at as int, vendor, fresh) {
                    Ok((rest, size)) => whole == Ok::<(Seq<Kind>, int), Error>(
                        (present@ + rest, size),
                    ),
                    Err(e) => whole == Err::<(Seq<Kind>, int), Error>(e),
                }),
                !more ==> at <= input@.len() && whole == Ok::<(Seq<Kind>, int), Error>(
                    (present@, at as int),
                ),
            decreases input@.len() + 4 - at,
        {
            if at > input.len() - 4 {
                return Err(Error::ParseError);
            }
            let word = read_u32(input, at);
            if !vendor && fresh {
                word_kinds(word, &mut present);
            }
            let to_radiotap = bit(word, RADIOTAP_NAMESPACE);
            let to_vendor = !to_radiotap && bit(word, VENDOR_NAMESPACE);
            if to_radiotap {
                vendor = false;
                fresh = true;
            } else if to_vendor {
                vendor = true;
                fresh = true;
                present.push(Kind::VendorNamespace(None));
            } else {
                fresh = false;
            }
            more = bit(word, MORE_WORDS);
            proof {
                assert(forall|a: Seq<Kind>, b: Seq<Kind>, c: Seq<Kind>| #[trigger]
                    ((a + b) + c) =~= a + (b + c));
                assert(forall|a: Seq<Kind>| #[trigger] (a + Seq::<Kind>::empty()) =~= a);
                assert(forall|a: Seq<Kind>, k: Kind| #[trigger] a.push(k) =~= a + seq![k]);
            }
            at = at + 4;
        }
        if at > length {
            return Err(Error::InvalidLength);
        }
        Ok(Header { version, length, size: at, present })
    }

    /// Appends the bytes of the header to `writer` and returns their number.
    ///
    /// The header is written with one presence word. A length that does not
    /// fit the 16 bits of its field is refused, and nothing is written.
    pub fn unparse(&self, writer: &mut Vec<u8>) -> (r: Result<usize, Error>)
        ensures
            self@.length > MAX_LENGTH ==> r == Err::<usize, Error>(Error::InvalidLength)
                && final(writer)@ == old(writer)@,
            self@.length <= MAX_LENGTH ==> r == Ok::<usize, Error>(MIN_HEADER_SIZE)
                && final(writer)@ == old(writer)@ + spec_header_bytes(self@),
    {
        if self.length > MAX_LENGTH {
            return Err(Error::InvalidLength);
        }
        let word = mask(&self.present);
        writer.push(self.version);
        writer.push(0u8);
        write_u16(writer, self.length as u16);
        write_u32(writer, word);
        assert(writer@ =~= old(writer)@ + spec_header_bytes(self@));
        Ok(MIN_HEADER_SIZE)
    }
}

} // verus!
