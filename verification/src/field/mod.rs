//! The field catalog: every kind of field a capture can carry, the header
//! that announces them, and the value types of the fields themselves.

use crate::Error;
use vstd::prelude::*;

pub mod composite;
pub mod ext;
pub mod flagged;
pub mod header;
pub mod kind;
pub mod numeric;

pub use composite::{AMPDUStatus, Timestamp, MCS, VHT};
pub use flagged::{Channel, Flags, RxFlags, TxFlags, XChannel};
pub use header::{Header, HeaderView};
pub use kind::{Kind, VendorNamespace};
pub use numeric::{
    Antenna, AntennaNoise, AntennaNoiseDb, AntennaSignal, AntennaSignalDb, DataRetries, FHSS,
    LockQuality, RTSRetries, Rate, TxAttenuation, TxAttenuationDb, TxPower, TSFT,
};

verus! {

/// The value of one field, of any kind that has a value type.
#[derive(Debug, Clone, Copy, PartialEq, Eq)]
pub enum Field {
    TSFT(TSFT),
    Flags(Flags),
    Rate(Rate),
    Channel(Channel),
    FHSS(FHSS),
    AntennaSignal(AntennaSignal),
    AntennaNoise(AntennaNoise),
    LockQuality(LockQuality),
    TxAttenuation(TxAttenuation),
    TxAttenuationDb(TxAttenuationDb),
    TxPower(TxPower),
    Antenna(Antenna),
    AntennaSignalDb(AntennaSignalDb),
    AntennaNoiseDb(AntennaNoiseDb),
    RxFlags(RxFlags),
    TxFlags(TxFlags),
    RTSRetries(RTSRetries),
    DataRetries(DataRetries),
    XChannel(XChannel),
    MCS(MCS),
    AMPDUStatus(AMPDUStatus),
    VHT(VHT),
    Timestamp(Timestamp),
}

impl Field {
    /// The kind of the field.
    pub open spec fn spec_kind(self) -> Kind {
        match self {
            Field::TSFT(_) => Kind::TSFT,
            Field::Flags(_) => Kind::Flags,
            Field::Rate(_) => Kind::Rate,
            Field::Channel(_) => Kind::Channel,
            Field::FHSS(_) => Kind::FHSS,
            Field::AntennaSignal(_) => Kind::AntennaSignal,
            Field::AntennaNoise(_) => Kind::AntennaNoise,
            Field::LockQuality(_) => Kind::LockQuality,
            Field::TxAttenuation(_) => Kind::TxAttenuation,
            Field::TxAttenuationDb(_) => Kind::TxAttenuationDb,
            Field::TxPower(_) => Kind::TxPower,
            Field::Antenna(_) => Kind::Antenna,
            Field::AntennaSignalDb(_) => Kind::AntennaSignalDb,
            Field::AntennaNoiseDb(_) => Kind::AntennaNoiseDb,
            Field::RxFlags(_) => Kind::RxFlags,
            Field::TxFlags(_) => Kind::TxFlags,
            Field::RTSRetries(_) => Kind::RTSRetries,
            Field::DataRetries(_) => Kind::DataRetries,
            Field::XChannel(_) => Kind::XChannel,
            Field::MCS(_) => Kind::MCS,
            Field::AMPDUStatus(_) => Kind::AMPDUStatus,
            Field::VHT(_) => Kind::VHT,
            Field::Timestamp(_) => Kind::Timestamp,
        }
    }

    /// The bytes that store the value.
    pub open spec fn spec_bytes(self) -> Seq<u8> {
        match self {
            Field::TSFT(v) => v.spec_bytes(),
            Field::Flags(v) => v.spec_bytes(),
            Field::Rate(v) => v.spec_bytes(),
            Field::Channel(v) => v.spec_bytes(),
            Field::FHSS(v) => v.spec_bytes(),
            Field::AntennaSignal(v) => v.spec_bytes(),
            Field::AntennaNoise(v) => v.spec_bytes(),
            Field::LockQuality(v) => v.spec_bytes(),
            Field::TxAttenuation(v) => v.spec_bytes(),
            Field::TxAttenuationDb(v) => v.spec_bytes(),
            Field::TxPower(v) => v.spec_bytes(),
            Field::Antenna(v) => v.spec_bytes(),
            Field::AntennaSignalDb(v) => v.spec_bytes(),
            Field::AntennaNoiseDb(v) => v.spec_bytes(),
            Field::RxFlags(v) => v.spec_bytes(),
            Field::TxFlags(v) => v.spec_bytes(),
            Field::RTSRetries(v) => v.spec_bytes(),
            Field::DataRetries(v) => v.spec_bytes(),
            Field::XChannel(v) => v.spec_bytes(),
            Field::MCS(v) => v.spec_bytes(),
            Field::AMPDUStatus(v) => v.spec_bytes(),
            Field::VHT(v) => v.spec_bytes(),
            Field::Timestamp(v) => v.spec_bytes(),
        }
    }

    /// Whether the value is one that a capture can hold, so that decoding its
    /// bytes gives it back.
    pub open spec fn spec_valid(self) -> bool {
        match self {
            Field::MCS(v) => v.spec_valid(),
            Field::VHT(v) => v.spec_valid(),
            _ => true,
        }
    }

    /// The value of kind `kind` that `data` starts with. A vendor namespace
    /// has no value.
    #[verifier::opaque]
    pub open spec fn spec_from_bytes(kind: Kind, data: Seq<u8>) -> Result<Option<Field>, Error> {
        match kind {
            Kind::TSFT => match TSFT::spec_from_bytes(data) {
                Ok(v) => Ok(Some(Field::TSFT(v))),
                Err(e) => Err(e),
            },
            Kind::Flags => match Flags::spec_from_bytes(data) {
                Ok(v) => Ok(Some(Field::Flags(v))),
                Err(e) => Err(e),
            },
            Kind::Rate => match Rate::spec_from_bytes(data) {
                Ok(v) => Ok(Some(Field::Rate(v))),
                Err(e) => Err(e),
            },
            Kind::Channel => match Channel::spec_from_bytes(data) {
                Ok(v) => Ok(Some(Field::Channel(v))),
                Err(e) => Err(e),
            },
            Kind::FHSS => match FHSS::spec_from_bytes(data) {
                Ok(v) => Ok(Some(Field::FHSS(v))),
                Err(e) => Err(e),
            },
            Kind::AntennaSignal => match AntennaSignal::spec_from_bytes(data) {
                Ok(v) => Ok(Some(Field::AntennaSignal(v))),
                Err(e) => Err(e),
            },
            Kind::AntennaNoise => match AntennaNoise::spec_from_bytes(data) {
                Ok(v) => Ok(Some(Field::AntennaNoise(v))),
                Err(e) => Err(e),
            },
            Kind::LockQuality => match LockQuality::spec_from_bytes(data) {
                Ok(v) => Ok(Some(Field::LockQuality(v))),
                Err(e) => Err(e),
            },
            Kind::TxAttenuation => match TxAttenuation::spec_from_bytes(data) {
                Ok(v) => Ok(Some(Field::TxAttenuation(v))),
                Err(e) => Err(e),
            },
            Kind::TxAttenuationDb => match TxAttenuationDb::spec_from_bytes(data) {
                Ok(v) => Ok(Some(Field::TxAttenuationDb(v))),
                Err(e) => Err(e),
            },
            Kind::TxPower => match TxPower::spec_from_bytes(data) {
                Ok(v) => Ok(Some(Field::TxPower(v))),
                Err(e) => Err(e),
            },
            Kind::Antenna => match Antenna::spec_from_bytes(data) {
                Ok(v) => Ok(Some(Field::Antenna(v))),
                Err(e) => Err(e),
            },
            Kind::AntennaSignalDb => match AntennaSignalDb::spec_from_bytes(data) {
                Ok(v) => Ok(Some(Field::AntennaSignalDb(v))),
                Err(e) => Err(e),
            },
            Kind::AntennaNoiseDb => match AntennaNoiseDb::spec_from_bytes(data) {
                Ok(v) => Ok(Some(Field::AntennaNoiseDb(v))),
                Err(e) => Err(e),
            },
            Kind::RxFlags => match RxFlags::spec_from_bytes(data) {
                Ok(v) => Ok(Some(Field::RxFlags(v))),
                Err(e) => Err(e),
            },
            Kind::TxFlags => match TxFlags::spec_from_bytes(data) {
                Ok(v) => Ok(Some(Field::TxFlags(v))),
                Err(e) => Err(e),
            },
            Kind::RTSRetries => match RTSRetries::spec_from_bytes(data) {
                Ok(v) => Ok(Some(Field::RTSRetries(v))),
                Err(e) => Err(e),
            },
            Kind::DataRetries => match DataRetries::spec_from_bytes(data) {
                Ok(v) => Ok(Some(Field::DataRetries(v))),
                Err(e) => Err(e),
            },
            Kind::XChannel => match XChannel::spec_from_bytes(data) {
                Ok(v) => Ok(Some(Field::XChannel(v))),
                Err(e) => Err(e),
            },
            Kind::MCS => match MCS::spec_from_bytes(data) {
                Ok(v) => Ok(Some(Field::MCS(v))),
                Err(e) => Err(e),
            },
            Kind::AMPDUStatus => match AMPDUStatus::spec_from_bytes(data) {
                Ok(v) => Ok(Some(Field::AMPDUStatus(v))),
                Err(e) => Err(e),
            },
            Kind::VHT => match VHT::spec_from_bytes(data) {
                Ok(v) => Ok(Some(Field::VHT(v))),
                Err(e) => Err(e),
            },
            Kind::Timestamp => match Timestamp::spec_from_bytes(data) {
                Ok(v) => Ok(Some(Field::Timestamp(v))),
                Err(e) => Err(e),
            },
            Kind::VendorNamespace(_) => Ok(None),
        }
    }

    /// Returns the kind of the field.
    pub fn kind(&self) -> (r: Kind)
        ensures
            r == self.spec_kind(),
            !r.spec_is_vendor(),
    {
        match self {
            Field::TSFT(_) => Kind::TSFT,
            Field::Flags(_) => Kind::Flags,
            Field::Rate(_) => Kind::Rate,
            Field::Channel(_) => Kind::Channel,
            Field::FHSS(_) => Kind::FHSS,
            Field::AntennaSignal(_) => Kind::AntennaSignal,
            Field::AntennaNoise(_) => Kind::AntennaNoise,
            Field::LockQuality(_) => Kind::LockQuality,
            Field::TxAttenuation(_) => Kind::TxAttenuation,
            Field::TxAttenuationDb(_) => Kind::TxAttenuationDb,
            Field::TxPower(_) => Kind::TxPower,
            Field::Antenna(_) => Kind::Antenna,
            Field::AntennaSignalDb(_) => Kind::AntennaSignalDb,
            Field::AntennaNoiseDb(_) => Kind::AntennaNoiseDb,
            Field::RxFlags(_) => Kind::RxFlags,
            Field::TxFlags(_) => Kind::TxFlags,
            Field::RTSRetries(_) => Kind::RTSRetries,
            Field::DataRetries(_) => Kind::DataRetries,
            Field::XChannel(_) => Kind::XChannel,
            Field::MCS(_) => Kind::MCS,
            Field::AMPDUStatus(_) => Kind::AMPDUStatus,
            Field::VHT(_) => Kind::VHT,
            Field::Timestamp(_) => Kind::Timestamp,
        }
    }

    /// Reads the value of a field of kind `kind` from the start of `input`.
    /// A vendor namespace has no value, and `None` is returned for it.
    pub fn from_bytes(kind: &Kind, input: &[u8]) -> (r: Result<Option<Field>, Error>)
        ensures
            r == Field::spec_from_bytes(*kind, input@),
    {
        reveal(Field::spec_from_bytes);
        match kind {
            Kind::TSFT => match TSFT::from_bytes(input) {
                Ok(v) => Ok(Some(Field::TSFT(v))),
                Err(e) => Err(e),
            },
            Kind::Flags => match Flags::from_bytes(input) {
                Ok(v) => Ok(Some(Field::Flags(v))),
                Err(e) => Err(e),
            },
            Kind::Rate => match Rate::from_bytes(input) {
                Ok(v) => Ok(Some(Field::Rate(v))),
                Err(e) => Err(e),
            },
            Kind::Channel => match Channel::from_bytes(input) {
                Ok(v) => Ok(Some(Field::Channel(v))),
                Err(e) => Err(e),
            },
            Kind::FHSS => match FHSS::from_bytes(input) {
                Ok(v) => Ok(Some(Field::FHSS(v))),
                Err(e) => Err(e),
            },
            Kind::AntennaSignal => match AntennaSignal::from_bytes(input) {
                Ok(v) => Ok(Some(Field::AntennaSignal(v))),
                Err(e) => Err(e),
            },
            Kind::AntennaNoise => match AntennaNoise::from_bytes(input) {
                Ok(v) => Ok(Some(Field::AntennaNoise(v))),
                Err(e) => Err(e),
            },
            Kind::LockQuality => match LockQuality::from_bytes(input) {
                Ok(v) => Ok(Some(Field::LockQuality(v))),
                Err(e) => Err(e),
            },
            Kind::TxAttenuation => match TxAttenuation::from_bytes(input) {
                Ok(v) => Ok(Some(Field::TxAttenuation(v))),
                Err(e) => Err(e),
            },
            Kind::TxAttenuationDb => match TxAttenuationDb::from_bytes(input) {
                Ok(v) => Ok(Some(Field::TxAttenuationDb(v))),
                Err(e) => Err(e),
            },
            Kind::TxPower => match TxPower::from_bytes(input) {
                Ok(v) => Ok(Some(Field::TxPower(v))),
                Err(e) => Err(e),
            },
            Kind::Antenna => match Antenna::from_bytes(input) {
                Ok(v) => Ok(Some(Field::Antenna(v))),
                Err(e) => Err(e),
            },
            Kind::AntennaSignalDb => match AntennaSignalDb::from_bytes(input) {
                Ok(v) => Ok(Some(Field::AntennaSignalDb(v))),
                Err(e) => Err(e),
            },
            Kind::AntennaNoiseDb => match AntennaNoiseDb::from_bytes(input) {
                Ok(v) => Ok(Some(Field::AntennaNoiseDb(v))),
                Err(e) => Err(e),
            },
            Kind::RxFlags => match RxFlags::from_bytes(input) {
                Ok(v) => Ok(Some(Field::RxFlags(v))),
                Err(e) => Err(e),
            },
            Kind::TxFlags => match TxFlags::from_bytes(input) {
                Ok(v) => Ok(Some(Field::TxFlags(v))),
                Err(e) => Err(e),
            },
            Kind::RTSRetries => match RTSRetries::from_bytes(input) {
                Ok(v) => Ok(Some(Field::RTSRetries(v))),
                Err(e) => Err(e),
            },
            Kind::DataRetries => match DataRetries::from_bytes(input) {
                Ok(v) => Ok(Some(Field::DataRetries(v))),
                Err(e) => Err(e),
            },
            Kind::XChannel => match XChannel::from_bytes(input) {
                Ok(v) => Ok(Some(Field::XChannel(v))),
                Err(e) => Err(e),
            },
            Kind::MCS => match MCS::from_bytes(input) {
                Ok(v) => Ok(Some(Field::MCS(v))),
                Err(e) => Err(e),
            },
            Kind::AMPDUStatus => match AMPDUStatus::from_bytes(input) {
                Ok(v) => Ok(Some(Field::AMPDUStatus(v))),
                Err(e) => Err(e),
            },
            Kind::VHT => match VHT::from_bytes(input) {
                Ok(v) => Ok(Some(Field::VHT(v))),
                Err(e) => Err(e),
            },
            Kind::Timestamp => match Timestamp::from_bytes(input) {
                Ok(v) => Ok(Some(Field::Timestamp(v))),
                Err(e) => Err(e),
            },
            Kind::VendorNamespace(_) => Ok(None),
        }
    }

    /// Appends the encoded value to `writer` and returns the number of bytes
    /// written.
    pub fn unparse(&self, writer: &mut Vec<u8>) -> (r: usize)
        ensures
            final(writer)@ == old(writer)@ + self.spec_bytes(),
            r == self.spec_bytes().len(),
            r == self.spec_kind().spec_size(),
    {
        proof {
            self.lemma_size();
        }
        match self {
            Field::TSFT(v) => v.unparse(writer),
            Field::Flags(v) => v.unparse(writer),
            Field::Rate(v) => v.unparse(writer),
            Field::Channel(v) => v.unparse(writer),
            Field::FHSS(v) => v.unparse(writer),
            Field::AntennaSignal(v) => v.unparse(writer),
            Field::AntennaNoise(v) => v.unparse(writer),
            Field::LockQuality(v) => v.unparse(writer),
            Field::TxAttenuation(v) => v.unparse(writer),
            Field::TxAttenuationDb(v) => v.unparse(writer),
            Field::TxPower(v) => v.unparse(writer),
            Field::Antenna(v) => v.unparse(writer),
            Field::AntennaSignalDb(v) => v.unparse(writer),
            Field::AntennaNoiseDb(v) => v.unparse(writer),
            Field::RxFlags(v) => v.unparse(writer),
            Field::TxFlags(v) => v.unparse(writer),
            Field::RTSRetries(v) => v.unparse(writer),
            Field::DataRetries(v) => v.unparse(writer),
            Field::XChannel(v) => v.unparse(writer),
            Field::MCS(v) => v.unparse(writer),
            Field::AMPDUStatus(v) => v.unparse(writer),
            Field::VHT(v) => v.unparse(writer),
            Field::Timestamp(v) => v.unparse(writer),
        }
    }

    /// A value is stored in as many bytes as its kind says.
    pub proof fn lemma_size(self)
        ensures
            self.spec_bytes().len() == self.spec_kind().spec_size(),
            !self.spec_kind().spec_is_vendor(),
    {
    }

    /// Decoding needs no more than the bytes that the kind says, and fails
    /// for want of bytes only when there are fewer.
    pub proof fn lemma_needs_size(kind: Kind, data: Seq<u8>)
        ensures
            Field::spec_from_bytes(kind, data) == Err::<Option<Field>, Error>(Error::ParseError)
                <==> !kind.spec_is_vendor() && data.len() < kind.spec_size(),
            Field::spec_from_bytes(kind, data) matches Ok(Some(f)) ==> f.spec_kind() == kind,
            Field::spec_from_bytes(kind, data) matches Ok(None) ==> kind.spec_is_vendor(),
            kind.spec_is_vendor() ==> Field::spec_from_bytes(kind, data) == Ok::<
                Option<Field>,
                Error,
            >(None),
    {
        reveal(Field::spec_from_bytes);
    }

    /// Decoding the encoded value gives the value back.
    pub proof fn lemma_round_trip(self)
        requires
            self.spec_valid(),
        ensures
            self.spec_bytes().len() == self.spec_kind().spec_size(),
            Field::spec_from_bytes(self.spec_kind(), self.spec_bytes()) == Ok::<
                Option<Field>,
                Error,
            >(Some(self)),
    {
        reveal(Field::spec_from_bytes);
        match self {
            Field::TSFT(v) => {
                v.lemma_round_trip();
            },
            Field::Flags(v) => {
                v.lemma_round_trip();
            },
            Field::Rate(v) => {
                v.lemma_round_trip();
            },
            Field::Channel(v) => {
                v.lemma_round_trip();
            },
            Field::FHSS(v) => {
                v.lemma_round_trip();
            },
            Field::AntennaSignal(v) => {
                v.lemma_round_trip();
            },
            Field::AntennaNoise(v) => {
                v.lemma_round_trip();
            },
            Field::LockQuality(v) => {
                v.lemma_round_trip();
            },
            Field::TxAttenuation(v) => {
                v.lemma_round_trip();
            },
            Field::TxAttenuationDb(v) => {
                v.lemma_round_trip();
            },
            Field::TxPower(v) => {
                v.lemma_round_trip();
            },
            Field::Antenna(v) => {
                v.lemma_round_trip();
            },
            Field::AntennaSignalDb(v) => {
                v.lemma_round_trip();
            },
            Field::AntennaNoiseDb(v) => {
                v.lemma_round_trip();
            },
            Field::RxFlags(v) => {
                v.lemma_round_trip();
            },
            Field::TxFlags(v) => {
                v.lemma_round_trip();
            },
            Field::RTSRetries(v) => {
                v.lemma_round_trip();
            },
            Field::DataRetries(v) => {
                v.lemma_round_trip();
            },
            Field::XChannel(v) => {
                v.lemma_round_trip();
            },
            Field::MCS(v) => {
                v.lemma_round_trip();
            },
            Field::AMPDUStatus(v) => {
                v.lemma_round_trip();
            },
            Field::VHT(v) => {
                v.lemma_round_trip();
            },
            Field::Timestamp(v) => {
                v.lemma_round_trip();
            },
        }
    }
}

} // verus!
