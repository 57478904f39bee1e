//! Decoding and encoding of Radiotap capture headers.
//!
//! A capture starts with a header that declares its length and, in a bitmap,
//! the fields that follow. The fields follow in the order of their bits, each
//! on the boundary that its kind asks for. [`Radiotap::parse`] reads a
//! capture into typed values, [`Radiotap::unparse`] writes one, and
//! [`RadiotapIterator`] walks the fields of a capture without decoding them.

use crate::builder::RadiotapBuilder;
use crate::bytes::{padding, spec_align_up, spec_padding, spec_zeros, write_zeros};
use crate::field::header::{
    spec_header, spec_header_bytes, MAX_LENGTH, MIN_HEADER_SIZE, VERSION,
};
use crate::field::{
    AMPDUStatus, Antenna, AntennaNoise, AntennaNoiseDb, AntennaSignal, AntennaSignalDb, Channel,
    DataRetries, Field, Flags, Header, HeaderView, Kind, LockQuality, RTSRetries, Rate, RxFlags,
    Timestamp, TxAttenuation, TxAttenuationDb, TxFlags, TxPower, VendorNamespace, XChannel, FHSS,
    MCS, TSFT, VHT,
};
use crate::order::{spec_ascending, spec_fold_length, spec_plain};
use vstd::prelude::*;

pub mod builder;
pub mod bytes;
pub mod capture;
pub mod field;
pub mod order;
pub mod round_trip;

verus! {

/// All errors returned by this library.
#[derive(Debug, Clone, Copy, PartialEq, Eq, Structural)]
pub enum Error {
    /// The data ended before a fixed-size value could be read from it.
    ParseError,
    /// A present field reaches past the end of the capture.
    IncompleteError,
    /// The length declared in the header does not fit the data supplied, or
    /// does not fit the header.
    InvalidLength,
    /// The data is not a valid Radiotap capture.
    InvalidFormat,
    /// Unsupported Radiotap header version.
    UnsupportedVersion,
    /// Unsupported Radiotap field.
    UnsupportedField,
}

impl Error {
    /// The words that describe the error.
    pub open spec fn spec_message(self) -> Seq<char> {
        match self {
            Error::ParseError => "failed to fill whole buffer"@,
            Error::IncompleteError => "incomplete radiotap capture"@,
            Error::InvalidLength => "invalid radiotap length"@,
            Error::InvalidFormat => "invalid radiotap capture"@,
            Error::UnsupportedVersion => "unsupported radiotap header version"@,
            Error::UnsupportedField => "unsupported radiotap field"@,
        }
    }

    /// Returns the words that describe the error.
    pub fn message(&self) -> (r: &'static str)
        ensures
            r@ == self.spec_message(),
    {
        match self {
            Error::ParseError => "failed to fill whole buffer",
            Error::IncompleteError => "incomplete radiotap capture",
            Error::InvalidLength => "invalid radiotap length",
            Error::InvalidFormat => "invalid radiotap capture",
            Error::UnsupportedVersion => "unsupported radiotap header version",
            Error::UnsupportedField => "unsupported radiotap field",
        }
    }
}

/// Represents a parsed Radiotap capture, including the parsed header and all
/// fields as Option members.
#[derive(Clone, Debug, PartialEq)]
pub struct Radiotap {
    pub header: Header,
    pub tsft: Option<TSFT>,
    pub flags: Option<Flags>,
    pub rate: Option<Rate>,
    pub channel: Option<Channel>,
    pub fhss: Option<FHSS>,
    pub antenna_signal: Option<AntennaSignal>,
    pub antenna_noise: Option<AntennaNoise>,
    pub lock_quality: Option<LockQuality>,
    pub tx_attenuation: Option<TxAttenuation>,
    pub tx_attenuation_db: Option<TxAttenuationDb>,
    pub tx_power: Option<TxPower>,
    pub antenna: Option<Antenna>,
    pub antenna_signal_db: Option<AntennaSignalDb>,
    pub antenna_noise_db: Option<AntennaNoiseDb>,
    pub rx_flags: Option<RxFlags>,
    pub tx_flags: Option<TxFlags>,
    pub rts_retries: Option<RTSRetries>,
    pub data_retries: Option<DataRetries>,
    pub xchannel: Option<XChannel>,
    pub mcs: Option<MCS>,
    pub ampdu_status: Option<AMPDUStatus>,
    pub vht: Option<VHT>,
    pub timestamp: Option<Timestamp>,
}

/// A capture as a mathematical value.
pub struct RadiotapView {
    pub header: HeaderView,
    pub tsft: Option<TSFT>,
    pub flags: Option<Flags>,
    pub rate: Option<Rate>,
    pub channel: Option<Channel>,
    pub fhss: Option<FHSS>,
    pub antenna_signal: Option<AntennaSignal>,
    pub antenna_noise: Option<AntennaNoise>,
    pub lock_quality: Option<LockQuality>,
    pub tx_attenuation: Option<TxAttenuation>,
    pub tx_attenuation_db: Option<TxAttenuationDb>,
    pub tx_power: Option<TxPower>,
    pub antenna: Option<Antenna>,
    pub antenna_signal_db: Option<AntennaSignalDb>,
    pub antenna_noise_db: Option<AntennaNoiseDb>,
    pub rx_flags: Option<RxFlags>,
    pub tx_flags: Option<TxFlags>,
    pub rts_retries: Option<RTSRetries>,
    pub data_retries: Option<DataRetries>,
    pub xchannel: Option<XChannel>,
    pub mcs: Option<MCS>,
    pub ampdu_status: Option<AMPDUStatus>,
    pub vht: Option<VHT>,
    pub timestamp: Option<Timestamp>,
}

impl View for Radiotap {
    type V = RadiotapView;

    open spec fn view(&self) -> RadiotapView {
        RadiotapView {
            header: self.header@,
            tsft: self.tsft,
            flags: self.flags,
            rate: self.rate,
            channel: self.channel,
            fhss: self.fhss,
            antenna_signal: self.antenna_signal,
            antenna_noise: self.antenna_noise,
            lock_quality: self.lock_quality,
            tx_attenuation: self.tx_attenuation,
            tx_attenuation_db: self.tx_attenuation_db,
            tx_power: self.tx_power,
            antenna: self.antenna,
            antenna_signal_db: self.antenna_signal_db,
            antenna_noise_db: self.antenna_noise_db,
            rx_flags: self.rx_flags,
            tx_flags: self.tx_flags,
            rts_retries: self.rts_retries,
            data_retries: self.data_retries,
            xchannel: self.xchannel,
            mcs: self.mcs,
            ampdu_status: self.ampdu_status,
            vht: self.vht,
            timestamp: self.timestamp,
        }
    }
}

impl RadiotapView {
    /// The value stored for `kind`, if there is one. A vendor namespace has
    /// none.
    pub open spec fn slot(self, kind: Kind) -> Option<Field> {
        match kind {
            Kind::TSFT => match self.tsft {
                Some(v) => Some(Field::TSFT(v)),
                None => None,
            },
            Kind::Flags => match self.flags {
                Some(v) => Some(Field::Flags(v)),
                None => None,
            },
            Kind::Rate => match self.rate {
                Some(v) => Some(Field::Rate(v)),
                None => None,
            },
            Kind::Channel => match self.channel {
                Some(v) => Some(Field::Channel(v)),
                None => None,
            },
            Kind::FHSS => match self.fhss {
                Some(v) => Some(Field::FHSS(v)),
                None => None,
            },
            Kind::AntennaSignal => match self.antenna_signal {
                Some(v) => Some(Field::AntennaSignal(v)),
                None => None,
            },
            Kind::AntennaNoise => match self.antenna_noise {
                Some(v) => Some(Field::AntennaNoise(v)),
                None => None,
            },
            Kind::LockQuality => match self.lock_quality {
                Some(v) => Some(Field::LockQuality(v)),
                None => None,
            },
            Kind::TxAttenuation => match self.tx_attenuation {
                Some(v) => Some(Field::TxAttenuation(v)),
                None => None,
            },
            Kind::TxAttenuationDb => match self.tx_attenuation_db {
                Some(v) => Some(Field::TxAttenuationDb(v)),
                None => None,
            },
            Kind::TxPower => match self.tx_power {
                Some(v) => Some(Field::TxPower(v)),
                None => None,
            },
            Kind::Antenna => match self.antenna {
                Some(v) => Some(Field::Antenna(v)),
                None => None,
            },
            Kind::AntennaSignalDb => match self.antenna_signal_db {
                Some(v) => Some(Field::AntennaSignalDb(v)),
                None => None,
            },
            Kind::AntennaNoiseDb => match self.antenna_noise_db {
                Some(v) => Some(Field::AntennaNoiseDb(v)),
                None => None,
            },
            Kind::RxFlags => match self.rx_flags {
                Some(v) => Some(Field::RxFlags(v)),
                None => None,
            },
            Kind::TxFlags => match self.tx_flags {
                Some(v) => Some(Field::TxFlags(v)),
                None => None,
            },
            Kind::RTSRetries => match self.rts_retries {
                Some(v) => Some(Field::RTSRetries(v)),
                None => None,
            },
            Kind::DataRetries => match self.data_retries {
                Some(v) => Some(Field::DataRetries(v)),
                None => None,
            },
            Kind::XChannel => match self.xchannel {
                Some(v) => Some(Field::XChannel(v)),
                None => None,
            },
            Kind::MCS => match self.mcs {
                Some(v) => Some(Field::MCS(v)),
                None => None,
            },
            Kind::AMPDUStatus => match self.ampdu_status {
                Some(v) => Some(Field::AMPDUStatus(v)),
                None => None,
            },
            Kind::VHT => match self.vht {
                Some(v) => Some(Field::VHT(v)),
                None => None,
            },
            Kind::Timestamp => match self.timestamp {
                Some(v) => Some(Field::Timestamp(v)),
                None => None,
            },
            Kind::VendorNamespace(_) => None,
        }
    }

    /// The capture with `field` stored for its kind, in place of what was
    /// stored for that kind before.
    #[verifier::opaque]
    pub open spec fn with(self, field: Field) -> RadiotapView {
        match field {
            Field::TSFT(v) => RadiotapView { tsft: Some(v), ..self },
            Field::Flags(v) => RadiotapView { flags: Some(v), ..self },
            Field::Rate(v) => RadiotapView { rate: Some(v), ..self },
            Field::Channel(v) => RadiotapView { channel: Some(v), ..self },
            Field::FHSS(v) => RadiotapView { fhss: Some(v), ..self },
            Field::AntennaSignal(v) => RadiotapView { antenna_signal: Some(v), ..self },
            Field::AntennaNoise(v) => RadiotapView { antenna_noise: Some(v), ..self },
            Field::LockQuality(v) => RadiotapView { lock_quality: Some(v), ..self },
            Field::TxAttenuation(v) => RadiotapView { tx_attenuation: Some(v), ..self },
            Field::TxAttenuationDb(v) => RadiotapView { tx_attenuation_db: Some(v), ..self },
            Field::TxPower(v) => RadiotapView { tx_power: Some(v), ..self },
            Field::Antenna(v) => RadiotapView { antenna: Some(v), ..self },
            Field::AntennaSignalDb(v) => RadiotapView { antenna_signal_db: Some(v), ..self },
            Field::AntennaNoiseDb(v) => RadiotapView { antenna_noise_db: Some(v), ..self },
            Field::RxFlags(v) => RadiotapView { rx_flags: Some(v), ..self },
            Field::TxFlags(v) => RadiotapView { tx_flags: Some(v), ..self },
            Field::RTSRetries(v) => RadiotapView { rts_retries: Some(v), ..self },
            Field::DataRetries(v) => RadiotapView { data_retries: Some(v), ..self },
            Field::XChannel(v) => RadiotapView { xchannel: Some(v), ..self },
            Field::MCS(v) => RadiotapView { mcs: Some(v), ..self },
            Field::AMPDUStatus(v) => RadiotapView { ampdu_status: Some(v), ..self },
            Field::VHT(v) => RadiotapView { vht: Some(v), ..self },
            Field::Timestamp(v) => RadiotapView { timestamp: Some(v), ..self },
        }
    }

    /// The capture with another header.
    pub open spec fn with_header(self, header: HeaderView) -> RadiotapView {
        RadiotapView { header: header, ..self }
    }
}

/// The capture with the given header and no value stored.
pub open spec fn spec_empty(header: HeaderView) -> RadiotapView {
    RadiotapView {
        header: header,
        tsft: None,
        flags: None,
        rate: None,
        channel: None,
        fhss: None,
        antenna_signal: None,
        antenna_noise: None,
        lock_quality: None,
        tx_attenuation: None,
        tx_attenuation_db: None,
        tx_power: None,
        antenna: None,
        antenna_signal_db: None,
        antenna_noise_db: None,
        rx_flags: None,
        tx_flags: None,
        rts_retries: None,
        data_retries: None,
        xchannel: None,
        mcs: None,
        ampdu_status: None,
        vht: None,
        timestamp: None,
    }
}

/// Storing a value changes what is stored for its kind and nothing else.
pub proof fn lemma_with_slot(r: RadiotapView, field: Field, kind: Kind)
    ensures
        r.with(field).header == r.header,
        r.with(field).slot(kind) == if kind == field.spec_kind() {
            Some(field)
        } else {
            r.slot(kind)
        },
        r.slot(kind) matches Some(f) ==> f.spec_kind() == kind,
{
    reveal(RadiotapView::with);
}

/// Two captures with the same header and the same value for each kind are
/// the same capture.
pub proof fn lemma_same_slots(a: RadiotapView, b: RadiotapView)
    requires
        a.header == b.header,
        forall|kind: Kind| #[trigger] a.slot(kind) == b.slot(kind),
    ensures
        a == b,
{
    assert(a.slot(Kind::TSFT) == b.slot(Kind::TSFT));
    assert(a.slot(Kind::Flags) == b.slot(Kind::Flags));
    assert(a.slot(Kind::Rate) == b.slot(Kind::Rate));
    assert(a.slot(Kind::Channel) == b.slot(Kind::Channel));
    assert(a.slot(Kind::FHSS) == b.slot(Kind::FHSS));
    assert(a.slot(Kind::AntennaSignal) == b.slot(Kind::AntennaSignal));
    assert(a.slot(Kind::AntennaNoise) == b.slot(Kind::AntennaNoise));
    assert(a.slot(Kind::LockQuality) == b.slot(Kind::LockQuality));
    assert(a.slot(Kind::TxAttenuation) == b.slot(Kind::TxAttenuation));
    assert(a.slot(Kind::TxAttenuationDb) == b.slot(Kind::TxAttenuationDb));
    assert(a.slot(Kind::TxPower) == b.slot(Kind::TxPower));
    assert(a.slot(Kind::Antenna) == b.slot(Kind::Antenna));
    assert(a.slot(Kind::AntennaSignalDb) == b.slot(Kind::AntennaSignalDb));
    assert(a.slot(Kind::AntennaNoiseDb) == b.slot(Kind::AntennaNoiseDb));
    assert(a.slot(Kind::RxFlags) == b.slot(Kind::RxFlags));
    assert(a.slot(Kind::TxFlags) == b.slot(Kind::TxFlags));
    assert(a.slot(Kind::RTSRetries) == b.slot(Kind::RTSRetries));
    assert(a.slot(Kind::DataRetries) == b.slot(Kind::DataRetries));
    assert(a.slot(Kind::XChannel) == b.slot(Kind::XChannel));
    assert(a.slot(Kind::MCS) == b.slot(Kind::MCS));
    assert(a.slot(Kind::AMPDUStatus) == b.slot(Kind::AMPDUStatus));
    assert(a.slot(Kind::VHT) == b.slot(Kind::VHT));
    assert(a.slot(Kind::Timestamp) == b.slot(Kind::Timestamp));
}

/// The window of one field in a capture: the kind that is reported, and the
/// offsets at which its data starts and ends.
///
/// The field starts at `pos`, rounded up to the boundary of its kind. For a
/// vendor namespace without descriptor, the descriptor is read there, and the
/// window is the vendor data behind it, of the length that the descriptor
/// gives. A window that reaches past the end of the data is an error.
pub open spec fn spec_step(data: Seq<u8>, pos: int, kind: Kind) -> Result<(Kind, int, int), Error> {
    let start = spec_align_up(pos, kind.spec_align());
    let end = start + kind.spec_size();
    if end > data.len() {
        Err(Error::IncompleteError)
    } else if kind == Kind::VendorNamespace(None) {
        match VendorNamespace::spec_from_bytes(data.subrange(start, end)) {
            Err(e) => Err(e),
            Ok(descriptor) => if end + descriptor.skip_length > data.len() {
                Err(Error::IncompleteError)
            } else {
                Ok((Kind::VendorNamespace(Some(descriptor)), end, end + descriptor.skip_length))
            },
        }
    } else {
        Ok((kind, start, end))
    }
}

/// The capture that results from reading the fields of the kinds `kinds`, in
/// that order, from offset `pos` of `data` on, and storing each value read in
/// `acc`. A later value for a kind replaces an earlier one, and the data of a
/// kind without value type is passed over.
#[verifier::opaque]
pub open spec fn spec_fields(data: Seq<u8>, pos: int, kinds: Seq<Kind>, acc: RadiotapView) -> Result<
    RadiotapView,
    Error,
>
    decreases kinds.len(),
{
    if kinds.len() == 0 {
        Ok(acc)
    } else {
        match spec_step(data, pos, kinds[0]) {
            Err(e) => Err(e),
            Ok((kind, start, end)) => match Field::spec_from_bytes(kind, data.subrange(start, end)) {
                Err(e) => Err(e),
                Ok(Some(field)) => spec_fields(data, end, kinds.skip(1), acc.with(field)),
                Ok(None) => spec_fields(data, end, kinds.skip(1), acc),
            },
        }
    }
}

/// Reading fields is reading the first, then the others.
pub proof fn lemma_fields_unfold(data: Seq<u8>, pos: int, kinds: Seq<Kind>, acc: RadiotapView)
    ensures
        kinds.len() == 0 ==> spec_fields(data, pos, kinds, acc) == Ok::<RadiotapView, Error>(acc),
        kinds.len() > 0 ==> spec_fields(data, pos, kinds, acc) == (match spec_step(
            data,
            pos,
            kinds[0],
        ) {
            Err(e) => Err(e),
            Ok((kind, start, end)) => match Field::spec_from_bytes(kind, data.subrange(start, end)) {
                Err(e) => Err(e),
                Ok(Some(field)) => spec_fields(data, end, kinds.skip(1), acc.with(field)),
                Ok(None) => spec_fields(data, end, kinds.skip(1), acc),
            },
        }),
{
    reveal(spec_fields);
}

/// The capture that `input` starts with, and the bytes behind it.
pub open spec fn spec_parse(input: Seq<u8>) -> Result<(RadiotapView, Seq<u8>), Error> {
    match spec_header(input) {
        Err(e) => Err(e),
        Ok(header) => match spec_fields(
            input.subrange(0, header.length),
            header.size,
            header.present,
            spec_empty(header),
        ) {
            Err(e) => Err(e),
            Ok(r) => Ok((r, input.subrange(header.length, input.len() as int))),
        },
    }
}

/// The bytes of the fields of the kinds `kinds`, in that order, each after
/// the zero bytes that bring it to its boundary, where `written` bytes of the
/// capture have been written before. A kind without stored value adds no
/// bytes of its own.
pub open spec fn spec_body(r: RadiotapView, kinds: Seq<Kind>, written: int) -> Seq<u8>
    decreases kinds.len(),
{
    if kinds.len() == 0 {
        Seq::empty()
    } else {
        let pad = spec_zeros(spec_padding(written, kinds[0].spec_align()));
        let bytes = match r.slot(kinds[0]) {
            Some(field) => field.spec_bytes(),
            None => Seq::empty(),
        };
        pad + bytes + spec_body(r, kinds.skip(1), written + pad.len() + bytes.len())
    }
}

/// The bytes of a capture: its header, then its fields in the order of the
/// header's presence list.
pub open spec fn spec_unparse(r: RadiotapView) -> Seq<u8> {
    spec_header_bytes(r.header) + spec_body(r, r.header.present, 8)
}

/// Whether a capture is in the form in which it is written and read back:
/// the header is the smallest one, it names each kind that has a value once,
/// in ascending order of the bits, and no other, and its length is the one
/// that the fields take.
pub open spec fn spec_consistent(v: RadiotapView) -> bool {
    &&& v.header.version == VERSION
    &&& v.header.size == MIN_HEADER_SIZE
    &&& spec_ascending(v.header.present)
    &&& spec_plain(v.header.present)
    &&& v.header.length == spec_fold_length(MIN_HEADER_SIZE as int, v.header.present)
    &&& forall|kind: Kind| (#[trigger] v.slot(kind)) is Some <==> v.header.present.contains(kind)
}

/// Represents an unparsed Radiotap capture format, only the header field is
/// parsed.
#[derive(Debug)]
pub struct RadiotapIterator<'a> {
    header: Header,
    data: &'a [u8],
}

/// An unparsed capture as a mathematical value: its header and the bytes that
/// the header governs, header included.
pub struct CaptureView {
    pub header: HeaderView,
    pub data: Seq<u8>,
}

impl<'a> View for RadiotapIterator<'a> {
    type V = CaptureView;

    closed spec fn view(&self) -> CaptureView {
        CaptureView { header: self.header@, data: self.data@ }
    }
}

/// An iterator over Radiotap fields.
#[derive(Debug)]
pub struct RadiotapIteratorIntoIter<'a> {
    present: Vec<Kind>,
    next: usize,
    data: &'a [u8],
    position: usize,
}

/// A walk over the fields of a capture as a mathematical value: the bytes of
/// the capture, the offset behind the last field read, and the kinds of the
/// fields still to read.
pub struct WalkView {
    pub data: Seq<u8>,
    pub position: int,
    pub remaining: Seq<Kind>,
}

impl<'a> View for RadiotapIteratorIntoIter<'a> {
    type V = WalkView;

    closed spec fn view(&self) -> WalkView {
        WalkView {
            data: self.data@,
            position: self.position as int,
            remaining: self.present@.subrange(self.next as int, self.present@.len() as int),
        }
    }
}

fn copy_kinds(kinds: &Vec<Kind>) -> (r: Vec<Kind>)
    ensures
        r@ == kinds@,
{
    let mut r: Vec<Kind> = Vec::new();
    let mut i: usize = 0;
    while i < kinds.len()
        invariant
            i <= kinds.len(),
            r@ == kinds@.subrange(0, i as int),
        decreases kinds.len() - i,
    {
        r.push(kinds[i]);
        i = i + 1;
        assert(r@ =~= kinds@.subrange(0, i as int));
    }
    assert(r@ =~= kinds@);
    r
}

impl<'a> Clone for RadiotapIterator<'a> {
    fn clone(&self) -> (r: Self)
        ensures
            r@ == self@,
    {
        proof {
            use_type_invariant(self);
        }
        RadiotapIterator {
            header: Header {
                version: self.header.version,
                length: self.header.length,
                size: self.header.size,
                present: copy_kinds(&self.header.present),
            },
            data: self.data,
        }
    }
}

impl<'a> Clone for RadiotapIteratorIntoIter<'a> {
    fn clone(&self) -> (r: Self)
        ensures
            r@ == self@,
    {
        proof {
            use_type_invariant(self);
        }
        RadiotapIteratorIntoIter {
            present: copy_kinds(&self.present),
            next: self.next,
            data: self.data,
            position: self.position,
        }
    }
}

impl<'a> RadiotapIterator<'a> {
    #[verifier::type_invariant]
    spec fn inv(self) -> bool {
        self.header.size <= self.header.length == self.data@.len()
    }

    /// Reads the header of the capture that `input` starts with.
    pub fn from_bytes(input: &'a [u8]) -> (r: Result<RadiotapIterator<'a>, Error>)
        ensures
            match spec_header(input@) {
                Ok(header) => r is Ok && r->Ok_0@ == (CaptureView {
                    header: header,
                    data: input@.subrange(0, header.length),
                }),
                Err(e) => r is Err && r->Err_0 == e,
            },
    {
        match RadiotapIterator::parse(input) {
            Ok((iterator, _)) => Ok(iterator),
            Err(e) => Err(e),
        }
    }

    /// Reads the header of the capture that `input` starts with, and returns
    /// the capture and the bytes behind it.
    pub fn parse(input: &'a [u8]) -> (r: Result<(RadiotapIterator<'a>, &'a [u8]), Error>)
        ensures
            match spec_header(input@) {
                Ok(header) => r is Ok && r->Ok_0.0@ == (CaptureView {
                    header: header,
                    data: input@.subrange(0, header.length),
                }) && r->Ok_0.1@ == input@.subrange(header.length, input@.len() as int),
                Err(e) => r is Err && r->Err_0 == e,
            },
    {
        match Header::from_bytes(input) {
            Err(e) => Err(e),
            Ok(header) => {
                let (data, rest) = input.split_at(header.length);
                Ok((RadiotapIterator { header, data }, rest))
            },
        }
    }

    /// Starts a walk over the fields of the capture, at the first field.
    pub fn into_iter(&self) -> (r: RadiotapIteratorIntoIter<'a>)
        ensures
            r@ == (WalkView {
                data: self@.data,
                position: self@.header.size,
                remaining: self@.header.present,
            }),
            r@.position <= r@.data.len(),
    {
        proof {
            use_type_invariant(self);
        }
        let present = copy_kinds(&self.header.present);
        assert(present@.subrange(0, present@.len() as int) =~= present@);
        RadiotapIteratorIntoIter { present, next: 0, data: self.data, position: self.header.size }
    }
}

impl<'a> RadiotapIteratorIntoIter<'a> {
    #[verifier::type_invariant]
    spec fn inv(self) -> bool {
        self.next <= self.present@.len() && self.position <= self.data@.len()
    }

    /// Reads the next field and returns its kind and its data, or `None`
    /// where no field is left.
    ///
    /// A field that reaches past the end of the capture gives
    /// `IncompleteError`, and ends the walk: the offsets of the fields behind
    /// it are not known.
    pub fn next(&mut self) -> (r: Option<Result<(Kind, &'a [u8]), Error>>)
        ensures
            final(self)@.data == old(self)@.data,
            old(self)@.remaining.len() == 0 ==> r is None && final(self)@ == old(self)@,
            old(self)@.remaining.len() > 0 ==> r is Some && (match spec_step(
                old(self)@.data,
                old(self)@.position,
                old(self)@.remaining[0],
            ) {
                Ok((kind, start, end)) => {
                    &&& r->0 is Ok
                    &&& r->0->Ok_0.0 == kind
                    &&& r->0->Ok_0.1@ == old(self)@.data.subrange(start, end)
                    &&& final(self)@.position == end
                    &&& final(self)@.remaining == old(self)@.remaining.skip(1)
                },
                Err(e) => {
                    &&& r->0 is Err
                    &&& r->0->Err_0 == e
                    &&& final(self)@.position == old(self)@.position
                    &&& final(self)@.remaining.len() == 0
                },
            }),
    {
        proof {
            use_type_invariant(&*self);
        }
        if self.next >= self.present.len() {
            return None;
        }
        let ghost before = self@;
        let mut kind = self.present[self.next];
        assert(kind == before.remaining[0]);
        let length = self.data.len();
        let align = kind.align() as usize;
        let pad = padding(self.position, align);
        if pad > length - self.position || kind.size() > length - self.position - pad {
            self.next = self.present.len();
            return Some(Err(Error::IncompleteError));
        }
        let mut start = self.position + pad;
        let mut end = start + kind.size();
        if let Kind::VendorNamespace(None) = kind {
            match VendorNamespace::from_bytes(&self.data[start..end]) {
                Ok(descriptor) => {
                    if descriptor.skip_length as usize > length - end {
                        self.next = self.present.len();
                        return Some(Err(Error::IncompleteError));
                    }
                    start = end;
                    end = end + descriptor.skip_length as usize;
                    kind = Kind::VendorNamespace(Some(descriptor));
                },
                Err(e) => {
                    self.next = self.present.len();
                    return Some(Err(e));
                },
            }
        }
        let data = &self.data[start..end];
        self.position = end;
        self.next = self.next + 1;
        assert(self@.remaining =~= before.remaining.skip(1));
        Some(Ok((kind, data)))
    }
}

impl Default for Radiotap {
    fn default() -> (r: Radiotap)
        ensures
            r@ == spec_empty(crate::field::header::spec_default_header()),
    {
        Radiotap::empty(Header::default())
    }
}

impl Radiotap {
    fn empty(header: Header) -> (r: Radiotap)
        ensures
            r@ == spec_empty(header@),
    {
        Radiotap {
            header,
            tsft: None,
            flags: None,
            rate: None,
            channel: None,
            fhss: None,
            antenna_signal: None,
            antenna_noise: None,
            lock_quality: None,
            tx_attenuation: None,
            tx_attenuation_db: None,
            tx_power: None,
            antenna: None,
            antenna_signal_db: None,
            antenna_noise_db: None,
            rx_flags: None,
            tx_flags: None,
            rts_retries: None,
            data_retries: None,
            xchannel: None,
            mcs: None,
            ampdu_status: None,
            vht: None,
            timestamp: None,
        }
    }

    /// Stores `field` for its kind, in place of what was stored for that kind
    /// before. The header is left as it is.
    pub fn set(&mut self, field: Field)
        ensures
            final(self)@ == old(self)@.with(field),
    {
        reveal(RadiotapView::with);
        match field {
            Field::TSFT(v) => {
                self.tsft = Some(v);
            },
            Field::Flags(v) => {
                self.flags = Some(v);
            },
            Field::Rate(v) => {
                self.rate = Some(v);
            },
            Field::Channel(v) => {
                self.channel = Some(v);
            },
            Field::FHSS(v) => {
                self.fhss = Some(v);
            },
            Field::AntennaSignal(v) => {
                self.antenna_signal = Some(v);
            },
            Field::AntennaNoise(v) => {
                self.antenna_noise = Some(v);
            },
            Field::LockQuality(v) => {
                self.lock_quality = Some(v);
            },
            Field::TxAttenuation(v) => {
                self.tx_attenuation = Some(v);
            },
            Field::TxAttenuationDb(v) => {
                self.tx_attenuation_db = Some(v);
            },
            Field::TxPower(v) => {
                self.tx_power = Some(v);
            },
            Field::Antenna(v) => {
                self.antenna = Some(v);
            },
            Field::AntennaSignalDb(v) => {
                self.antenna_signal_db = Some(v);
            },
            Field::AntennaNoiseDb(v) => {
                self.antenna_noise_db = Some(v);
            },
            Field::RxFlags(v) => {
                self.rx_flags = Some(v);
            },
            Field::TxFlags(v) => {
                self.tx_flags = Some(v);
            },
            Field::RTSRetries(v) => {
                self.rts_retries = Some(v);
            },
            Field::DataRetries(v) => {
                self.data_retries = Some(v);
            },
            Field::XChannel(v) => {
                self.xchannel = Some(v);
            },
            Field::MCS(v) => {
                self.mcs = Some(v);
            },
            Field::AMPDUStatus(v) => {
                self.ampdu_status = Some(v);
            },
            Field::VHT(v) => {
                self.vht = Some(v);
            },
            Field::Timestamp(v) => {
                self.timestamp = Some(v);
            },
        }
    }

    /// Returns the value stored for `kind`, if there is one.
    pub fn get(&self, kind: &Kind) -> (r: Option<Field>)
        ensures
            r == self@.slot(*kind),
    {
        match kind {
            Kind::TSFT => match self.tsft {
                Some(v) => Some(Field::TSFT(v)),
                None => None,
            },
            Kind::Flags => match self.flags {
                Some(v) => Some(Field::Flags(v)),
                None => None,
            },
            Kind::Rate => match self.rate {
                Some(v) => Some(Field::Rate(v)),
                None => None,
            },
            Kind::Channel => match self.channel {
                Some(v) => Some(Field::Channel(v)),
                None => None,
            },
            Kind::FHSS => match self.fhss {
                Some(v) => Some(Field::FHSS(v)),
                None => None,
            },
            Kind::AntennaSignal => match self.antenna_signal {
                Some(v) => Some(Field::AntennaSignal(v)),
                None => None,
            },
            Kind::AntennaNoise => match self.antenna_noise {
                Some(v) => Some(Field::AntennaNoise(v)),
                None => None,
            },
            Kind::LockQuality => match self.lock_quality {
                Some(v) => Some(Field::LockQuality(v)),
                None => None,
            },
            Kind::TxAttenuation => match self.tx_attenuation {
                Some(v) => Some(Field::TxAttenuation(v)),
                None => None,
            },
            Kind::TxAttenuationDb => match self.tx_attenuation_db {
                Some(v) => Some(Field::TxAttenuationDb(v)),
                None => None,
            },
            Kind::TxPower => match self.tx_power {
                Some(v) => Some(Field::TxPower(v)),
                None => None,
            },
            Kind::Antenna => match self.antenna {
                Some(v) => Some(Field::Antenna(v)),
                None => None,
            },
            Kind::AntennaSignalDb => match self.antenna_signal_db {
                Some(v) => Some(Field::AntennaSignalDb(v)),
                None => None,
            },
            Kind::AntennaNoiseDb => match self.antenna_noise_db {
                Some(v) => Some(Field::AntennaNoiseDb(v)),
                None => None,
            },
            Kind::RxFlags => match self.rx_flags {
                Some(v) => Some(Field::RxFlags(v)),
                None => None,
            },
            Kind::TxFlags => match self.tx_flags {
                Some(v) => Some(Field::TxFlags(v)),
                None => None,
            },
            Kind::RTSRetries => match self.rts_retries {
                Some(v) => Some(Field::RTSRetries(v)),
                None => None,
            },
            Kind::DataRetries => match self.data_retries {
                Some(v) => Some(Field::DataRetries(v)),
                None => None,
            },
            Kind::XChannel => match self.xchannel {
                Some(v) => Some(Field::XChannel(v)),
                None => None,
            },
            Kind::MCS => match self.mcs {
                Some(v) => Some(Field::MCS(v)),
                None => None,
            },
            Kind::AMPDUStatus => match self.ampdu_status {
                Some(v) => Some(Field::AMPDUStatus(v)),
                None => None,
            },
            Kind::VHT => match self.vht {
                Some(v) => Some(Field::VHT(v)),
                None => None,
            },
            Kind::Timestamp => match self.timestamp {
                Some(v) => Some(Field::Timestamp(v)),
                None => None,
            },
            Kind::VendorNamespace(_) => None,
        }
    }

    /// Returns a [`RadiotapBuilder`] used for programmatically constructing a
    /// [`Radiotap`] value.
    pub fn build() -> (r: RadiotapBuilder)
        ensures
            r@ == spec_empty(crate::field::header::spec_default_header()),
    {
        RadiotapBuilder::new()
    }

    /// Returns the parsed [`Radiotap`] from an input byte array.
    pub fn from_bytes(input: &[u8]) -> (r: Result<Radiotap, Error>)
        ensures
            match spec_parse(input@) {
                Ok((radiotap, rest)) => r is Ok && r->Ok_0@ == radiotap,
                Err(e) => r is Err && r->Err_0 == e,
            },
    {
        match Radiotap::parse(input) {
            Ok((radiotap, _)) => Ok(radiotap),
            Err(e) => Err(e),
        }
    }

    /// Returns the parsed [`Radiotap`] and remaining data from an input byte
    /// array.
    pub fn parse(input: &[u8]) -> (r: Result<(Radiotap, &[u8]), Error>)
        ensures
            match spec_parse(input@) {
                Ok((radiotap, rest)) => r is Ok && r->Ok_0.0@ == radiotap && r->Ok_0.1@ == rest,
                Err(e) => r is Err && r->Err_0 == e,
            },
    {
        let (iterator, rest) = match RadiotapIterator::parse(input) {
            Ok(pair) => pair,
            Err(e) => {
                return Err(e);
            },
        };
        let mut walk = iterator.into_iter();
        let mut radiotap = Radiotap::empty(iterator.header);
        let ghost header = radiotap@.header;
        let ghost data = walk@.data;
        let ghost whole = spec_fields(data, header.size, header.present, spec_empty(header));
        loop
            invariant
                walk@.data == data,
                spec_header(input@) == Ok::<HeaderView, Error>(header),
                data == input@.subrange(0, header.length),
                rest@ == input@.subrange(header.length, input@.len() as int),
                whole == spec_fields(data, header.size, header.present, spec_empty(header)),
                whole == spec_fields(data, walk@.position, walk@.remaining, radiotap@),
            ensures
                whole == Ok::<RadiotapView, Error>(radiotap@),
            decreases walk@.remaining.len(),
        {
            let ghost before = walk@;
            let ghost acc = radiotap@;
            proof {
                lemma_fields_unfold(data, before.position, before.remaining, acc);
            }
            match walk.next() {
                None => {
                    break ;
                },
                Some(Err(e)) => {
                    return Err(e);
                },
                Some(Ok((kind, window))) => match Field::from_bytes(&kind, window) {
                    Err(e) => {
                        return Err(e);
                    },
                    Ok(Some(field)) => {
                        radiotap.set(field);
                    },
                    Ok(None) => {},
                },
            }
        }
        Ok((radiotap, rest))
    }

    /// Serializes a [`Radiotap`] value into a stream of bytes, appended to
    /// `writer`. Returns the size of the serialized Radiotap data in bytes.
    ///
    /// The fields are written in the order of the header's presence list.
    /// A header length that does not fit its 16 bits is refused with
    /// `InvalidLength`, and nothing is written.
    pub fn unparse(&self, writer: &mut Vec<u8>) -> (r: Result<usize, Error>)
        ensures
            self@.header.length > MAX_LENGTH ==> r == Err::<usize, Error>(Error::InvalidLength)
                && final(writer)@ == old(writer)@,
            self@.header.length <= MAX_LENGTH ==> r == Ok::<usize, Error>(
                spec_unparse(self@).len() as usize,
            ) && final(writer)@ == old(writer)@ + spec_unparse(self@),
    {
        let origin = writer.len();
        match self.header.unparse(writer) {
            Err(e) => {
                return Err(e);
            },
            Ok(_) => {},
        }
        let ghost head = spec_header_bytes(self@.header);
        let ghost kinds = self@.header.present;
        let mut i: usize = 0;
        proof {
            assert(kinds.skip(0) =~= kinds);
            assert(writer@ =~= old(writer)@ + head);
        }
        while i < self.header.present.len()
            invariant
                i <= self.header.present.len(),
                kinds == self.header.present@,
                origin == old(writer)@.len(),
                head.len() == 8,
                writer@.len() >= origin + 8,
                writer@ + spec_body(
                    self@,
                    kinds.skip(i as int),
                    writer@.len() - origin,
                ) == old(writer)@ + head + spec_body(self@, kinds, 8),
            decreases self.header.present.len() - i,
        {
            let kind = self.header.present[i];
            let ghost before = writer@;
            let ghost rest = kinds.skip(i as int);
            let written = writer.len() - origin;
            write_zeros(writer, padding(written, kind.align() as usize));
            match self.get(&kind) {
                Some(field) => {
                    field.unparse(writer);
                },
                None => {},
            }
            proof {
                assert(rest[0] == kind);
                assert(rest.skip(1) =~= kinds.skip(i + 1));
                let pad = spec_zeros(spec_padding(written as int, kind.spec_align()));
                let bytes = match self@.slot(kind) {
                    Some(field) => field.spec_bytes(),
                    None => Seq::empty(),
                };
                assert(writer@ =~= before + pad + bytes);
                let tail = spec_body(self@, kinds.skip(i + 1), written + pad.len() + bytes.len());
                assert(before + spec_body(self@, rest, written as int) =~= writer@ + tail);
            }
            i = i + 1;
        }
        proof {
            assert(kinds.skip(i as int).len() == 0);
            assert(writer@ =~= old(writer)@ + spec_unparse(self@));
        }
        Ok(writer.len() - origin)
    }
}

} // verus!
