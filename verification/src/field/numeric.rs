//! The fields that hold one number.

use crate::bytes::{
    byte_of_i8, i8_of, lemma_u16_round_trip, lemma_u64_round_trip, read_u16, read_u64,
    spec_byte_of_i8, spec_i8_of, spec_u16_bytes, spec_u16_le, spec_u64_bytes, spec_u64_le,
    write_u16, write_u64,
};
use crate::Error;
use vstd::prelude::*;

verus! {

/// The value, in microseconds, of the MAC's 64-bit time synchronization
/// function timer when the first bit of the frame arrived.
#[derive(Debug, Clone, Copy, PartialEq, Eq, Default)]
pub struct TSFT {
    pub value: u64,
}

impl TSFT {
    /// The value stored in the first 8 bytes of `data`.
    pub open spec fn spec_from_bytes(data: Seq<u8>) -> Result<TSFT, Error> {
        if data.len() < 8 {
            Err(Error::ParseError)
        } else {
            Ok(TSFT { value: spec_u64_le(data, 0) as u64 })
        }
    }

    /// The 8 bytes that store the value.
    pub open spec fn spec_bytes(self) -> Seq<u8> {
        spec_u64_bytes(self.value as int)
    }

    /// Reads the value from the start of `input`.
    pub fn from_bytes(input: &[u8]) -> (r: Result<TSFT, Error>)
        ensures
            r == TSFT::spec_from_bytes(input@),
    {
        if input.len() < 8 {
            return Err(Error::ParseError);
        }
        Ok(TSFT { value: read_u64(input, 0) })
    }

    /// Appends the encoded value to `writer` and returns the number of bytes
    /// written.
    pub fn unparse(&self, writer: &mut Vec<u8>) -> (r: usize)
        ensures
            final(writer)@ == old(writer)@ + self.spec_bytes(),
            r == 8,
    {
        write_u64(writer, self.value);
        assert(writer@ =~= old(writer)@ + self.spec_bytes());
        8
    }

    /// Decoding the encoded value gives the value back.
    pub proof fn lemma_round_trip(self)
        ensures
            self.spec_bytes().len() == 8,
            TSFT::spec_from_bytes(self.spec_bytes()) == Ok::<TSFT, Error>(self),
    {
        lemma_u64_round_trip(self.value as int);
    }
}

/// The data rate, in units of 500 Kbps.
#[derive(Debug, Clone, Copy, PartialEq, Eq, Default)]
pub struct Rate {
    pub value: u8,
}

impl Rate {
    /// The value stored in the first byte of `data`.
    pub open spec fn spec_from_bytes(data: Seq<u8>) -> Result<Rate, Error> {
        if data.len() < 1 {
            Err(Error::ParseError)
        } else {
            Ok(Rate { value: data[0] })
        }
    }

    /// The byte that store the value.
    pub open spec fn spec_bytes(self) -> Seq<u8> {
        seq![self.value]
    }

    /// Reads the value from the start of `input`.
    pub fn from_bytes(input: &[u8]) -> (r: Result<Rate, Error>)
        ensures
            r == Rate::spec_from_bytes(input@),
    {
        if input.len() < 1 {
            return Err(Error::ParseError);
        }
        Ok(Rate { value: input[0] })
    }

    /// Appends the encoded value to `writer` and returns the number of bytes
    /// written.
    pub fn unparse(&self, writer: &mut Vec<u8>) -> (r: usize)
        ensures
            final(writer)@ == old(writer)@ + self.spec_bytes(),
            r == 1,
    {
        writer.push(self.value);
        assert(writer@ =~= old(writer)@ + self.spec_bytes());
        1
    }

    /// Decoding the encoded value gives the value back.
    pub proof fn lemma_round_trip(self)
        ensures
            self.spec_bytes().len() == 1,
            Rate::spec_from_bytes(self.spec_bytes()) == Ok::<Rate, Error>(self),
    {
    }
}

/// The signal power at the antenna, in dBm.
#[derive(Debug, Clone, Copy, PartialEq, Eq, Default)]
pub struct AntennaSignal {
    pub value: i8,
}

impl AntennaSignal {
    /// The value stored in the first byte of `data`.
    pub open spec fn spec_from_bytes(data: Seq<u8>) -> Result<AntennaSignal, Error> {
        if data.len() < 1 {
            Err(Error::ParseError)
        } else {
            Ok(AntennaSignal { value: spec_i8_of(data[0]) as i8 })
        }
    }

    /// The byte that store the value.
    pub open spec fn spec_bytes(self) -> Seq<u8> {
        seq![spec_byte_of_i8(self.value)]
    }

    /// Reads the value from the start of `input`.
    pub fn from_bytes(input: &[u8]) -> (r: Result<AntennaSignal, Error>)
        ensures
            r == AntennaSignal::spec_from_bytes(input@),
    {
        if input.len() < 1 {
            return Err(Error::ParseError);
        }
        Ok(AntennaSignal { value: i8_of(input[0]) })
    }

    /// Appends the encoded value to `writer` and returns the number of bytes
    /// written.
    pub fn unparse(&self, writer: &mut Vec<u8>) -> (r: usize)
        ensures
            final(writer)@ == old(writer)@ + self.spec_bytes(),
            r == 1,
    {
        writer.push(byte_of_i8(self.value));
        assert(writer@ =~= old(writer)@ + self.spec_bytes());
        1
    }

    /// Decoding the encoded value gives the value back.
    pub proof fn lemma_round_trip(self)
        ensures
            self.spec_bytes().len() == 1,
            AntennaSignal::spec_from_bytes(self.spec_bytes()) == Ok::<AntennaSignal, Error>(self),
    {
    }
}

/// The noise power at the antenna, in dBm.
#[derive(Debug, Clone, Copy, PartialEq, Eq, Default)]
pub struct AntennaNoise {
    pub value: i8,
}

impl AntennaNoise {
    /// The value stored in the first byte of `data`.
    pub open spec fn spec_from_bytes(data: Seq<u8>) -> Result<AntennaNoise, Error> {
        if data.len() < 1 {
            Err(Error::ParseError)
        } else {
            Ok(AntennaNoise { value: spec_i8_of(data[0]) as i8 })
        }
    }

    /// The byte that store the value.
    pub open spec fn spec_bytes(self) -> Seq<u8> {
        seq![spec_byte_of_i8(self.value)]
    }

    /// Reads the value from the start of `input`.
    pub fn from_bytes(input: &[u8]) -> (r: Result<AntennaNoise, Error>)
        ensures
            r == AntennaNoise::spec_from_bytes(input@),
    {
        if input.len() < 1 {
            return Err(Error::ParseError);
        }
        Ok(AntennaNoise { value: i8_of(input[0]) })
    }

    /// Appends the encoded value to `writer` and returns the number of bytes
    /// written.
    pub fn unparse(&self, writer: &mut Vec<u8>) -> (r: usize)
        ensures
            final(writer)@ == old(writer)@ + self.spec_bytes(),
            r == 1,
    {
        writer.push(byte_of_i8(self.value));
        assert(writer@ =~= old(writer)@ + self.spec_bytes());
        1
    }

    /// Decoding the encoded value gives the value back.
    pub proof fn lemma_round_trip(self)
        ensures
            self.spec_bytes().len() == 1,
            AntennaNoise::spec_from_bytes(self.spec_bytes()) == Ok::<AntennaNoise, Error>(self),
    {
    }
}

/// The quality of the Barker code lock, without unit.
#[derive(Debug, Clone, Copy, PartialEq, Eq, Default)]
pub struct LockQuality {
    pub value: u16,
}

impl LockQuality {
    /// The value stored in the first 2 bytes of `data`.
    pub open spec fn spec_from_bytes(data: Seq<u8>) -> Result<LockQuality, Error> {
        if data.len() < 2 {
            Err(Error::ParseError)
        } else {
            Ok(LockQuality { value: spec_u16_le(data, 0) as u16 })
        }
    }

    /// The 2 bytes that store the value.
    pub open spec fn spec_bytes(self) -> Seq<u8> {
        spec_u16_bytes(self.value as int)
    }

    /// Reads the value from the start of `input`.
    pub fn from_bytes(input: &[u8]) -> (r: Result<LockQuality, Error>)
        ensures
            r == LockQuality::spec_from_bytes(input@),
    {
        if input.len() < 2 {
            return Err(Error::ParseError);
        }
        Ok(LockQuality { value: read_u16(input, 0) })
    }

    /// Appends the encoded value to `writer` and returns the number of bytes
    /// written.
    pub fn unparse(&self, writer: &mut Vec<u8>) -> (r: usize)
        ensures
            final(writer)@ == old(writer)@ + self.spec_bytes(),
            r == 2,
    {
        write_u16(writer, self.value);
        assert(writer@ =~= old(writer)@ + self.spec_bytes());
        2
    }

    /// Decoding the encoded value gives the value back.
    pub proof fn lemma_round_trip(self)
        ensures
            self.spec_bytes().len() == 2,
            LockQuality::spec_from_bytes(self.spec_bytes()) == Ok::<LockQuality, Error>(self),
    {
        lemma_u16_round_trip(self.value as int);
    }
}

/// The transmit power as a distance from the maximum power set at factory
/// calibration, without unit.
#[derive(Debug, Clone, Copy, PartialEq, Eq, Default)]
pub struct TxAttenuation {
    pub value: u16,
}

impl TxAttenuation {
    /// The value stored in the first 2 bytes of `data`.
    pub open spec fn spec_from_bytes(data: Seq<u8>) -> Result<TxAttenuation, Error> {
        if data.len() < 2 {
            Err(Error::ParseError)
        } else {
            Ok(TxAttenuation { value: spec_u16_le(data, 0) as u16 })
        }
    }

    /// The 2 bytes that store the value.
    pub open spec fn spec_bytes(self) -> Seq<u8> {
        spec_u16_bytes(self.value as int)
    }

    /// Reads the value from the start of `input`.
    pub fn from_bytes(input: &[u8]) -> (r: Result<TxAttenuation, Error>)
        ensures
            r == TxAttenuation::spec_from_bytes(input@),
    {
        if input.len() < 2 {
            return Err(Error::ParseError);
        }
        Ok(TxAttenuation { value: read_u16(input, 0) })
    }

    /// Appends the encoded value to `writer` and returns the number of bytes
    /// written.
    pub fn unparse(&self, writer: &mut Vec<u8>) -> (r: usize)
        ensures
            final(writer)@ == old(writer)@ + self.spec_bytes(),
            r == 2,
    {
        write_u16(writer, self.value);
        assert(writer@ =~= old(writer)@ + self.spec_bytes());
        2
    }

    /// Decoding the encoded value gives the value back.
    pub proof fn lemma_round_trip(self)
        ensures
            self.spec_bytes().len() == 2,
            TxAttenuation::spec_from_bytes(self.spec_bytes()) == Ok::<TxAttenuation, Error>(self),
    {
        lemma_u16_round_trip(self.value as int);
    }
}

/// The transmit power as a distance in dB from the maximum power set at
/// factory calibration.
#[derive(Debug, Clone, Copy, PartialEq, Eq, Default)]
pub struct TxAttenuationDb {
    pub value: u16,
}

impl TxAttenuationDb {
    /// The value stored in the first 2 bytes of `data`.
    pub open spec fn spec_from_bytes(data: Seq<u8>) -> Result<TxAttenuationDb, Error> {
        if data.len() < 2 {
            Err(Error::ParseError)
        } else {
            Ok(TxAttenuationDb { value: spec_u16_le(data, 0) as u16 })
        }
    }

    /// The 2 bytes that store the value.
    pub open spec fn spec_bytes(self) -> Seq<u8> {
        spec_u16_bytes(self.value as int)
    }

    /// Reads the value from the start of `input`.
    pub fn from_bytes(input: &[u8]) -> (r: Result<TxAttenuationDb, Error>)
        ensures
            r == TxAttenuationDb::spec_from_bytes(input@),
    {
        if input.len() < 2 {
            return Err(Error::ParseError);
        }
        Ok(TxAttenuationDb { value: read_u16(input, 0) })
    }

    /// Appends the encoded value to `writer` and returns the number of bytes
    /// written.
    pub fn unparse(&self, writer: &mut Vec<u8>) -> (r: usize)
        ensures
            final(writer)@ == old(writer)@ + self.spec_bytes(),
            r == 2,
    {
        write_u16(writer, self.value);
        assert(writer@ =~= old(writer)@ + self.spec_bytes());
        2
    }

    /// Decoding the encoded value gives the value back.
    pub proof fn lemma_round_trip(self)
        ensures
            self.spec_bytes().len() == 2,
            TxAttenuationDb::spec_from_bytes(self.spec_bytes()) == Ok::<TxAttenuationDb, Error>(self),
    {
        lemma_u16_round_trip(self.value as int);
    }
}

/// The transmit power in dBm, measured at the antenna port.
#[derive(Debug, Clone, Copy, PartialEq, Eq, Default)]
pub struct TxPower {
    pub value: i8,
}

impl TxPower {
    /// The value stored in the first byte of `data`.
    pub open spec fn spec_from_bytes(data: Seq<u8>) -> Result<TxPower, Error> {
        if data.len() < 1 {
            Err(Error::ParseError)
        } else {
            Ok(TxPower { value: spec_i8_of(data[0]) as i8 })
        }
    }

    /// The byte that store the value.
    pub open spec fn spec_bytes(self) -> Seq<u8> {
        seq![spec_byte_of_i8(self.value)]
    }

    /// Reads the value from the start of `input`.
    pub fn from_bytes(input: &[u8]) -> (r: Result<TxPower, Error>)
        ensures
            r == TxPower::spec_from_bytes(input@),
    {
        if input.len() < 1 {
            return Err(Error::ParseError);
        }
        Ok(TxPower { value: i8_of(input[0]) })
    }

    /// Appends the encoded value to `writer` and returns the number of bytes
    /// written.
    pub fn unparse(&self, writer: &mut Vec<u8>) -> (r: usize)
        ensures
            final(writer)@ == old(writer)@ + self.spec_bytes(),
            r == 1,
    {
        writer.push(byte_of_i8(self.value));
        assert(writer@ =~= old(writer)@ + self.spec_bytes());
        1
    }

    /// Decoding the encoded value gives the value back.
    pub proof fn lemma_round_trip(self)
        ensures
            self.spec_bytes().len() == 1,
            TxPower::spec_from_bytes(self.spec_bytes()) == Ok::<TxPower, Error>(self),
    {
    }
}

/// The index of the antenna used; the first antenna is 0.
#[derive(Debug, Clone, Copy, PartialEq, Eq, Default)]
pub struct Antenna {
    pub value: u8,
}

impl Antenna {
    /// The value stored in the first byte of `data`.
    pub open spec fn spec_from_bytes(data: Seq<u8>) -> Result<Antenna, Error> {
        if data.len() < 1 {
            Err(Error::ParseError)
        } else {
            Ok(Antenna { value: data[0] })
        }
    }

    /// The byte that store the value.
    pub open spec fn spec_bytes(self) -> Seq<u8> {
        seq![self.value]
    }

    /// Reads the value from the start of `input`.
    pub fn from_bytes(input: &[u8]) -> (r: Result<Antenna, Error>)
        ensures
            r == Antenna::spec_from_bytes(input@),
    {
        if input.len() < 1 {
            return Err(Error::ParseError);
        }
        Ok(Antenna { value: input[0] })
    }

    /// Appends the encoded value to `writer` and returns the number of bytes
    /// written.
    pub fn unparse(&self, writer: &mut Vec<u8>) -> (r: usize)
        ensures
            final(writer)@ == old(writer)@ + self.spec_bytes(),
            r == 1,
    {
        writer.push(self.value);
        assert(writer@ =~= old(writer)@ + self.spec_bytes());
        1
    }

    /// Decoding the encoded value gives the value back.
    pub proof fn lemma_round_trip(self)
        ensures
            self.spec_bytes().len() == 1,
            Antenna::spec_from_bytes(self.spec_bytes()) == Ok::<Antenna, Error>(self),
    {
    }
}

/// The signal power at the antenna, in dB above an arbitrary, fixed
/// reference.
#[derive(Debug, Clone, Copy, PartialEq, Eq, Default)]
pub struct AntennaSignalDb {
    pub value: u8,
}

impl AntennaSignalDb {
    /// The value stored in the first byte of `data`.
    pub open spec fn spec_from_bytes(data: Seq<u8>) -> Result<AntennaSignalDb, Error> {
        if data.len() < 1 {
            Err(Error::ParseError)
        } else {
            Ok(AntennaSignalDb { value: data[0] })
        }
    }

    /// The byte that store the value.
    pub open spec fn spec_bytes(self) -> Seq<u8> {
        seq![self.value]
    }

    /// Reads the value from the start of `input`.
    pub fn from_bytes(input: &[u8]) -> (r: Result<AntennaSignalDb, Error>)
        ensures
            r == AntennaSignalDb::spec_from_bytes(input@),
    {
        if input.len() < 1 {
            return Err(Error::ParseError);
        }
        Ok(AntennaSignalDb { value: input[0] })
    }

    /// Appends the encoded value to `writer` and returns the number of bytes
    /// written.
    pub fn unparse(&self, writer: &mut Vec<u8>) -> (r: usize)
        ensures
            final(writer)@ == old(writer)@ + self.spec_bytes(),
            r == 1,
    {
        writer.push(self.value);
        assert(writer@ =~= old(writer)@ + self.spec_bytes());
        1
    }

    /// Decoding the encoded value gives the value back.
    pub proof fn lemma_round_trip(self)
        ensures
            self.spec_bytes().len() == 1,
            AntennaSignalDb::spec_from_bytes(self.spec_bytes()) == Ok::<AntennaSignalDb, Error>(self),
    {
    }
}

/// The noise power at the antenna, in dB above an arbitrary, fixed
/// reference.
#[derive(Debug, Clone, Copy, PartialEq, Eq, Default)]
pub struct AntennaNoiseDb {
    pub value: u8,
}

impl AntennaNoiseDb {
    /// The value stored in the first byte of `data`.
    pub open spec fn spec_from_bytes(data: Seq<u8>) -> Result<AntennaNoiseDb, Error> {
        if data.len() < 1 {
            Err(Error::ParseError)
        } else {
            Ok(AntennaNoiseDb { value: data[0] })
        }
    }

    /// The byte that store the value.
    pub open spec fn spec_bytes(self) -> Seq<u8> {
        seq![self.value]
    }

    /// Reads the value from the start of `input`.
    pub fn from_bytes(input: &[u8]) -> (r: Result<AntennaNoiseDb, Error>)
        ensures
            r == AntennaNoiseDb::spec_from_bytes(input@),
    {
        if input.len() < 1 {
            return Err(Error::ParseError);
        }
        Ok(AntennaNoiseDb { value: input[0] })
    }

    /// Appends the encoded value to `writer` and returns the number of bytes
    /// written.
    pub fn unparse(&self, writer: &mut Vec<u8>) -> (r: usize)
        ensures
            final(writer)@ == old(writer)@ + self.spec_bytes(),
            r == 1,
    {
        writer.push(self.value);
        assert(writer@ =~= old(writer)@ + self.spec_bytes());
        1
    }

    /// Decoding the encoded value gives the value back.
    pub proof fn lemma_round_trip(self)
        ensures
            self.spec_bytes().len() == 1,
            AntennaNoiseDb::spec_from_bytes(self.spec_bytes()) == Ok::<AntennaNoiseDb, Error>(self),
    {
    }
}

/// The number of RTS retries that a transmitted frame used.
#[derive(Debug, Clone, Copy, PartialEq, Eq, Default)]
pub struct RTSRetries {
    pub value: u8,
}

impl RTSRetries {
    /// The value stored in the first byte of `data`.
    pub open spec fn spec_from_bytes(data: Seq<u8>) -> Result<RTSRetries, Error> {
        if data.len() < 1 {
            Err(Error::ParseError)
        } else {
            Ok(RTSRetries { value: data[0] })
        }
    }

    /// The byte that store the value.
    pub open spec fn spec_bytes(self) -> Seq<u8> {
        seq![self.value]
    }

    /// Reads the value from the start of `input`.
    pub fn from_bytes(input: &[u8]) -> (r: Result<RTSRetries, Error>)
        ensures
            r == RTSRetries::spec_from_bytes(input@),
    {
        if input.len() < 1 {
            return Err(Error::ParseError);
        }
        Ok(RTSRetries { value: input[0] })
    }

    /// Appends the encoded value to `writer` and returns the number of bytes
    /// written.
    pub fn unparse(&self, writer: &mut Vec<u8>) -> (r: usize)
        ensures
            final(writer)@ == old(writer)@ + self.spec_bytes(),
            r == 1,
    {
        writer.push(self.value);
        assert(writer@ =~= old(writer)@ + self.spec_bytes());
        1
    }

    /// Decoding the encoded value gives the value back.
    pub proof fn lemma_round_trip(self)
        ensures
            self.spec_bytes().len() == 1,
            RTSRetries::spec_from_bytes(self.spec_bytes()) == Ok::<RTSRetries, Error>(self),
    {
    }
}

/// The number of data retries that a transmitted frame used.
#[derive(Debug, Clone, Copy, PartialEq, Eq, Default)]
pub struct DataRetries {
    pub value: u8,
}

impl DataRetries {
    /// The value stored in the first byte of `data`.
    pub open spec fn spec_from_bytes(data: Seq<u8>) -> Result<DataRetries, Error> {
        if data.len() < 1 {
            Err(Error::ParseError)
        } else {
            Ok(DataRetries { value: data[0] })
        }
    }

    /// The byte that store the value.
    pub open spec fn spec_bytes(self) -> Seq<u8> {
        seq![self.value]
    }

    /// Reads the value from the start of `input`.
    pub fn from_bytes(input: &[u8]) -> (r: Result<DataRetries, Error>)
        ensures
            r == DataRetries::spec_from_bytes(input@),
    {
        if input.len() < 1 {
            return Err(Error::ParseError);
        }
        Ok(DataRetries { value: input[0] })
    }

    /// Appends the encoded value to `writer` and returns the number of bytes
    /// written.
    pub fn unparse(&self, writer: &mut Vec<u8>) -> (r: usize)
        ensures
            final(writer)@ == old(writer)@ + self.spec_bytes(),
            r == 1,
    {
        writer.push(self.value);
        assert(writer@ =~= old(writer)@ + self.spec_bytes());
        1
    }

    /// Decoding the encoded value gives the value back.
    pub proof fn lemma_round_trip(self)
        ensures
            self.spec_bytes().len() == 1,
            DataRetries::spec_from_bytes(self.spec_bytes()) == Ok::<DataRetries, Error>(self),
    {
    }
}

/// The frequency-hopping set and pattern, for frequency-hopping radios.
#[derive(Debug, Clone, Copy, PartialEq, Eq, Default)]
pub struct FHSS {
    pub hopset: u8,
    pub pattern: u8,
}

impl FHSS {
    /// The value stored in the first 2 bytes of `data`.
    pub open spec fn spec_from_bytes(data: Seq<u8>) -> Result<FHSS, Error> {
        if data.len() < 2 {
            Err(Error::ParseError)
        } else {
            Ok(FHSS { hopset: data[0], pattern: data[1] })
        }
    }

    /// The 2 bytes that store the value.
    pub open spec fn spec_bytes(self) -> Seq<u8> {
        seq![self.hopset, self.pattern]
    }

    /// Reads the value from the start of `input`.
    pub fn from_bytes(input: &[u8]) -> (r: Result<FHSS, Error>)
        ensures
            r == FHSS::spec_from_bytes(input@),
    {
        if input.len() < 2 {
            return Err(Error::ParseError);
        }
        Ok(FHSS { hopset: input[0], pattern: input[1] })
    }

    /// Appends the encoded value to `writer` and returns the number of bytes
    /// written.
    pub fn unparse(&self, writer: &mut Vec<u8>) -> (r: usize)
        ensures
            final(writer)@ == old(writer)@ + self.spec_bytes(),
            r == 2,
    {
        writer.push(self.hopset);
        writer.push(self.pattern);
        assert(writer@ =~= old(writer)@ + self.spec_bytes());
        2
    }

    /// Decoding the encoded value gives the value back.
    pub proof fn lemma_round_trip(self)
        ensures
            self.spec_bytes().len() == 2,
            FHSS::spec_from_bytes(self.spec_bytes()) == Ok::<FHSS, Error>(self),
    {
    }
}

} // verus!
