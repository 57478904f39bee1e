//! The kinds of field, each with its place in the presence bitmap, its
//! encoded size and the alignment of its first byte.

use crate::bytes::{read_u16, spec_u16_le};
use crate::Error;
use vstd::prelude::*;

verus! {

/// The descriptor that opens a vendor namespace: who defined it, and how many
/// bytes of vendor data follow the descriptor.
#[derive(Debug, Clone, Copy, PartialEq, Eq)]
pub struct VendorNamespace {
    /// The organisation that defined the namespace.
    pub oui: [u8; 3],
    /// The namespace chosen by that organisation.
    pub sub_namespace: u8,
    /// The number of bytes of vendor data after the descriptor.
    pub skip_length: u16,
}

impl VendorNamespace {
    /// The descriptor stored in the first six bytes of `data`.
    pub open spec fn spec_from_bytes(data: Seq<u8>) -> Result<VendorNamespace, Error> {
        if data.len() < 6 {
            Err(Error::ParseError)
        } else {
            Ok(
                VendorNamespace {
                    oui: [data[0], data[1], data[2]],
                    sub_namespace: data[3],
                    skip_length: spec_u16_le(data, 4) as u16,
                },
            )
        }
    }

    /// Reads a descriptor from the first six bytes of `input`.
    pub fn from_bytes(input: &[u8]) -> (r: Result<VendorNamespace, Error>)
        ensures
            r == VendorNamespace::spec_from_bytes(input@),
    {
        if input.len() < 6 {
            return Err(Error::ParseError);
        }
        let r = VendorNamespace {
            oui: [input[0], input[1], input[2]],
            sub_namespace: input[3],
            skip_length: read_u16(input, 4),
        };
        assert(r.oui =~= VendorNamespace::spec_from_bytes(input@)->Ok_0.oui);
        Ok(r)
    }
}

/// The kinds of field that a capture can carry.
#[derive(Debug, Clone, Copy, PartialEq, Eq)]
pub enum Kind {
    TSFT,
    Flags,
    Rate,
    Channel,
    FHSS,
    AntennaSignal,
    AntennaNoise,
    LockQuality,
    TxAttenuation,
    TxAttenuationDb,
    TxPower,
    Antenna,
    AntennaSignalDb,
    AntennaNoiseDb,
    RxFlags,
    TxFlags,
    RTSRetries,
    DataRetries,
    XChannel,
    MCS,
    AMPDUStatus,
    VHT,
    Timestamp,
    /// A vendor namespace. The descriptor is absent in a header and filled in
    /// when the field is read.
    VendorNamespace(Option<VendorNamespace>),
}

/// The number of kinds that have a value type of their own; their bits are
/// the numbers below it.
pub const KNOWN_KINDS: u8 = 23;

/// The bit that announces a vendor namespace.
pub const VENDOR_BIT: u8 = 30;

impl Kind {
    /// The kind announced by bit `value` of the first presence word, if that
    /// bit announces a field with a value type.
    pub open spec fn spec_new(value: int) -> Option<Kind> {
        if value == 0 {
            Some(Kind::TSFT)
        } else if value == 1 {
            Some(Kind::Flags)
        } else if value == 2 {
            Some(Kind::Rate)
        } else if value == 3 {
            Some(Kind::Channel)
        } else if value == 4 {
            Some(Kind::FHSS)
        } else if value == 5 {
            Some(Kind::AntennaSignal)
        } else if value == 6 {
            Some(Kind::AntennaNoise)
        } else if value == 7 {
            Some(Kind::LockQuality)
        } else if value == 8 {
            Some(Kind::TxAttenuation)
        } else if value == 9 {
            Some(Kind::TxAttenuationDb)
        } else if value == 10 {
            Some(Kind::TxPower)
        } else if value == 11 {
            Some(Kind::Antenna)
        } else if value == 12 {
            Some(Kind::AntennaSignalDb)
        } else if value == 13 {
            Some(Kind::AntennaNoiseDb)
        } else if value == 14 {
            Some(Kind::RxFlags)
        } else if value == 15 {
            Some(Kind::TxFlags)
        } else if value == 16 {
            Some(Kind::RTSRetries)
        } else if value == 17 {
            Some(Kind::DataRetries)
        } else if value == 18 {
            Some(Kind::XChannel)
        } else if value == 19 {
            Some(Kind::MCS)
        } else if value == 20 {
            Some(Kind::AMPDUStatus)
        } else if value == 21 {
            Some(Kind::VHT)
        } else if value == 22 {
            Some(Kind::Timestamp)
        } else {
            None
        }
    }

    /// The position of the kind in the presence bitmap.
    pub open spec fn spec_bit(self) -> int {
        match self {
            Kind::TSFT => 0,
            Kind::Flags => 1,
            Kind::Rate => 2,
            Kind::Channel => 3,
            Kind::FHSS => 4,
            Kind::AntennaSignal => 5,
            Kind::AntennaNoise => 6,
            Kind::LockQuality => 7,
            Kind::TxAttenuation => 8,
            Kind::TxAttenuationDb => 9,
            Kind::TxPower => 10,
            Kind::Antenna => 11,
            Kind::AntennaSignalDb => 12,
            Kind::AntennaNoiseDb => 13,
            Kind::RxFlags => 14,
            Kind::TxFlags => 15,
            Kind::RTSRetries => 16,
            Kind::DataRetries => 17,
            Kind::XChannel => 18,
            Kind::MCS => 19,
            Kind::AMPDUStatus => 20,
            Kind::VHT => 21,
            Kind::Timestamp => 22,
            Kind::VendorNamespace(_) => 30,
        }
    }

    /// The boundary on which the field starts.
    pub open spec fn spec_align(self) -> int {
        match self {
            Kind::TSFT | Kind::Timestamp => 8,
            Kind::XChannel | Kind::AMPDUStatus => 4,
            Kind::Channel
            | Kind::FHSS
            | Kind::LockQuality
            | Kind::TxAttenuation
            | Kind::TxAttenuationDb
            | Kind::RxFlags
            | Kind::TxFlags
            | Kind::VHT
            | Kind::VendorNamespace(_) => 2,
            _ => 1,
        }
    }

    /// The number of bytes the field takes, padding excluded. For a vendor
    /// namespace this is the size of its descriptor.
    pub open spec fn spec_size(self) -> int {
        match self {
            Kind::VHT | Kind::Timestamp => 12,
            Kind::TSFT | Kind::AMPDUStatus | Kind::XChannel => 8,
            Kind::VendorNamespace(_) => 6,
            Kind::Channel => 4,
            Kind::MCS => 3,
            Kind::FHSS
            | Kind::LockQuality
            | Kind::TxAttenuation
            | Kind::TxAttenuationDb
            | Kind::RxFlags
            | Kind::TxFlags => 2,
            _ => 1,
        }
    }

    /// Whether the kind is a vendor namespace, with or without descriptor.
    pub open spec fn spec_is_vendor(self) -> bool {
        self is VendorNamespace
    }

    /// Returns the kind announced by bit `value` of the first presence word.
    pub fn new(value: u8) -> (r: Result<Kind, Error>)
        ensures
            match Kind::spec_new(value as int) {
                Some(kind) => r == Ok::<Kind, Error>(kind),
                None => r == Err::<Kind, Error>(Error::UnsupportedField),
            },
    {
        Ok(
            match value {
                0 => Kind::TSFT,
                1 => Kind::Flags,
                2 => Kind::Rate,
                3 => Kind::Channel,
                4 => Kind::FHSS,
                5 => Kind::AntennaSignal,
                6 => Kind::AntennaNoise,
                7 => Kind::LockQuality,
                8 => Kind::TxAttenuation,
                9 => Kind::TxAttenuationDb,
                10 => Kind::TxPower,
                11 => Kind::Antenna,
                12 => Kind::AntennaSignalDb,
                13 => Kind::AntennaNoiseDb,
                14 => Kind::RxFlags,
                15 => Kind::TxFlags,
                16 => Kind::RTSRetries,
                17 => Kind::DataRetries,
                18 => Kind::XChannel,
                19 => Kind::MCS,
                20 => Kind::AMPDUStatus,
                21 => Kind::VHT,
                22 => Kind::Timestamp,
                _ => {
                    return Err(Error::UnsupportedField);
                },
            },
        )
    }

    /// Returns the position of the kind in the presence bitmap.
    pub fn bit(&self) -> (r: u8)
        ensures
            r == self.spec_bit(),
    {
        match *self {
            Kind::TSFT => 0,
            Kind::Flags => 1,
            Kind::Rate => 2,
            Kind::Channel => 3,
            Kind::FHSS => 4,
            Kind::AntennaSignal => 5,
            Kind::AntennaNoise => 6,
            Kind::LockQuality => 7,
            Kind::TxAttenuation => 8,
            Kind::TxAttenuationDb => 9,
            Kind::TxPower => 10,
            Kind::Antenna => 11,
            Kind::AntennaSignalDb => 12,
            Kind::AntennaNoiseDb => 13,
            Kind::RxFlags => 14,
            Kind::TxFlags => 15,
            Kind::RTSRetries => 16,
            Kind::DataRetries => 17,
            Kind::XChannel => 18,
            Kind::MCS => 19,
            Kind::AMPDUStatus => 20,
            Kind::VHT => 21,
            Kind::Timestamp => 22,
            Kind::VendorNamespace(_) => VENDOR_BIT,
        }
    }

    /// Returns the align value for the field.
    pub fn align(&self) -> (r: u64)
        ensures
            r == self.spec_align(),
            r == 1 || r == 2 || r == 4 || r == 8,
    {
        match *self {
            Kind::TSFT | Kind::Timestamp => 8,
            Kind::XChannel | Kind::AMPDUStatus => 4,
            Kind::Channel
            | Kind::FHSS
            | Kind::LockQuality
            | Kind::TxAttenuation
            | Kind::TxAttenuationDb
            | Kind::RxFlags
            | Kind::TxFlags
            | Kind::VHT
            | Kind::VendorNamespace(_) => 2,
            _ => 1,
        }
    }

    /// Returns the size of the field.
    pub fn size(&self) -> (r: usize)
        ensures
            r == self.spec_size(),
            1 <= r <= 12,
    {
        match *self {
            Kind::VHT | Kind::Timestamp => 12,
            Kind::TSFT | Kind::AMPDUStatus | Kind::XChannel => 8,
            Kind::VendorNamespace(_) => 6,
            Kind::Channel => 4,
            Kind::MCS => 3,
            Kind::FHSS
            | Kind::LockQuality
            | Kind::TxAttenuation
            | Kind::TxAttenuationDb
            | Kind::RxFlags
            | Kind::TxFlags => 2,
            _ => 1,
        }
    }

    /// Whether the kind is a vendor namespace, with or without descriptor.
    pub fn is_vendor(&self) -> (r: bool)
        ensures
            r == self.spec_is_vendor(),
    {
        match *self {
            Kind::VendorNamespace(_) => true,
            _ => false,
        }
    }
}

/// The bit identifies the kind: two kinds with the same bit are the same
/// kind, up to the descriptor that a vendor namespace may carry.
pub proof fn lemma_bit_identifies_kind(a: Kind, b: Kind)
    requires
        a.spec_bit() == b.spec_bit(),
    ensures
        a.spec_is_vendor() == b.spec_is_vendor(),
        !a.spec_is_vendor() ==> a == b,
        a.spec_size() == b.spec_size(),
        a.spec_align() == b.spec_align(),
{
}

/// A kind with a value type is found again from its bit, and only from it.
pub proof fn lemma_new_inverts_bit(kind: Kind, value: int)
    ensures
        !kind.spec_is_vendor() ==> Kind::spec_new(kind.spec_bit()) == Some(kind),
        Kind::spec_new(value) == Some(kind) ==> kind.spec_bit() == value && !kind.spec_is_vendor(),
        Kind::spec_new(value) is Some <==> 0 <= value < KNOWN_KINDS,
{
}

} // verus!
