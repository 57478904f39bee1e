//! The fields that hold flags, alone or beside a frequency.

use crate::bytes::{
    bit, flag, lemma_u16_round_trip, lemma_u32_round_trip, read_u16, read_u32, spec_bit,
    spec_flag, spec_u16_bytes, spec_u16_le, spec_u32_bytes, spec_u32_le, write_u16, write_u32,
};
use crate::Error;
use crate::field::ext::{ChannelFlags, XChannelFlags};
use vstd::prelude::*;

verus! {

/// Properties of a transmitted or received frame.
#[derive(Debug, Clone, Copy, PartialEq, Eq, Default)]
pub struct Flags {
    /// The frame was sent or received during the contention-free period.
    pub cfp: bool,
    /// The frame was sent or received with short preamble.
    pub preamble: bool,
    /// The frame was sent or received with WEP encryption.
    pub wep: bool,
    /// The frame was sent or received with fragmentation.
    pub fragmentation: bool,
    /// The frame includes the frame check sequence.
    pub fcs: bool,
    /// The frame has padding between the 802.11 header and the payload.
    pub data_pad: bool,
    /// The frame failed the frame check sequence.
    pub bad_fcs: bool,
    /// The frame used a short guard interval.
    pub sgi: bool,
}

impl Flags {
    /// The flags packed into a 8-bit number.
    pub open spec fn spec_raw(self) -> int {
        spec_flag(self.cfp, 1)
            + spec_flag(self.preamble, 2)
            + spec_flag(self.wep, 4)
            + spec_flag(self.fragmentation, 8)
            + spec_flag(self.fcs, 16)
            + spec_flag(self.data_pad, 32)
            + spec_flag(self.bad_fcs, 64)
            + spec_flag(self.sgi, 128)
    }

    /// The flags that a 8-bit number holds; its other bits are ignored.
    pub open spec fn spec_of_raw(raw: int) -> Flags {
        Flags {
            cfp: spec_bit(raw, 1),
            preamble: spec_bit(raw, 2),
            wep: spec_bit(raw, 4),
            fragmentation: spec_bit(raw, 8),
            fcs: spec_bit(raw, 16),
            data_pad: spec_bit(raw, 32),
            bad_fcs: spec_bit(raw, 64),
            sgi: spec_bit(raw, 128),
        }
    }

    /// Packs the flags into a number.
    pub fn raw(&self) -> (r: u32)
        ensures
            r == self.spec_raw(),
            r < 256,
    {
        flag(self.cfp, 1)
            + flag(self.preamble, 2)
            + flag(self.wep, 4)
            + flag(self.fragmentation, 8)
            + flag(self.fcs, 16)
            + flag(self.data_pad, 32)
            + flag(self.bad_fcs, 64)
            + flag(self.sgi, 128)
    }

    /// Reads the flags from a number.
    pub fn of_raw(raw: u32) -> (r: Flags)
        ensures
            r == Flags::spec_of_raw(raw as int),
    {
        Flags {
            cfp: bit(raw, 1),
            preamble: bit(raw, 2),
            wep: bit(raw, 4),
            fragmentation: bit(raw, 8),
            fcs: bit(raw, 16),
            data_pad: bit(raw, 32),
            bad_fcs: bit(raw, 64),
            sgi: bit(raw, 128),
        }
    }

    /// Packing the flags and reading them again gives the flags back.
    pub proof fn lemma_raw_round_trip(self)
        ensures
            0 <= self.spec_raw() < 256,
            Flags::spec_of_raw(self.spec_raw()) == self,
    {
    }
}

/// Properties of a received frame.
#[derive(Debug, Clone, Copy, PartialEq, Eq, Default)]
pub struct RxFlags {
    /// The PLCP CRC check failed.
    pub bad_plcp: bool,
}

impl RxFlags {
    /// The flags packed into a 16-bit number.
    pub open spec fn spec_raw(self) -> int {
        spec_flag(self.bad_plcp, 2)
    }

    /// The flags that a 16-bit number holds; its other bits are ignored.
    pub open spec fn spec_of_raw(raw: int) -> RxFlags {
        RxFlags {
            bad_plcp: spec_bit(raw, 2),
        }
    }

    /// Packs the flags into a number.
    pub fn raw(&self) -> (r: u32)
        ensures
            r == self.spec_raw(),
            r < 65536,
    {
        flag(self.bad_plcp, 2)
    }

    /// Reads the flags from a number.
    pub fn of_raw(raw: u32) -> (r: RxFlags)
        ensures
            r == RxFlags::spec_of_raw(raw as int),
    {
        RxFlags {
            bad_plcp: bit(raw, 2),
        }
    }

    /// Packing the flags and reading them again gives the flags back.
    pub proof fn lemma_raw_round_trip(self)
        ensures
            0 <= self.spec_raw() < 65536,
            RxFlags::spec_of_raw(self.spec_raw()) == self,
    {
    }
}

/// Properties of a transmitted frame.
#[derive(Debug, Clone, Copy, PartialEq, Eq, Default)]
pub struct TxFlags {
    /// Transmission failed due to excessive retries.
    pub fail: bool,
    /// Transmission used CTS-to-self protection.
    pub cts: bool,
    /// Transmission used an RTS/CTS handshake.
    pub rts: bool,
    /// Transmission shall not expect an acknowledgement.
    pub no_ack: bool,
    /// Transmission carries a sequence number that shall be kept.
    pub no_seq: bool,
}

impl TxFlags {
    /// The flags packed into a 16-bit number.
    pub open spec fn spec_raw(self) -> int {
        spec_flag(self.fail, 1)
            + spec_flag(self.cts, 2)
            + spec_flag(self.rts, 4)
            + spec_flag(self.no_ack, 8)
            + spec_flag(self.no_seq, 16)
    }

    /// The flags that a 16-bit number holds; its other bits are ignored.
    pub open spec fn spec_of_raw(raw: int) -> TxFlags {
        TxFlags {
            fail: spec_bit(raw, 1),
            cts: spec_bit(raw, 2),
            rts: spec_bit(raw, 4),
            no_ack: spec_bit(raw, 8),
            no_seq: spec_bit(raw, 16),
        }
    }

    /// Packs the flags into a number.
    pub fn raw(&self) -> (r: u32)
        ensures
            r == self.spec_raw(),
            r < 65536,
    {
        flag(self.fail, 1)
            + flag(self.cts, 2)
            + flag(self.rts, 4)
            + flag(self.no_ack, 8)
            + flag(self.no_seq, 16)
    }

    /// Reads the flags from a number.
    pub fn of_raw(raw: u32) -> (r: TxFlags)
        ensures
            r == TxFlags::spec_of_raw(raw as int),
    {
        TxFlags {
            fail: bit(raw, 1),
            cts: bit(raw, 2),
            rts: bit(raw, 4),
            no_ack: bit(raw, 8),
            no_seq: bit(raw, 16),
        }
    }

    /// Packing the flags and reading them again gives the flags back.
    pub proof fn lemma_raw_round_trip(self)
        ensures
            0 <= self.spec_raw() < 65536,
            TxFlags::spec_of_raw(self.spec_raw()) == self,
    {
    }
}

impl Flags {
    /// The value stored in the first byte of `data`.
    pub open spec fn spec_from_bytes(data: Seq<u8>) -> Result<Flags, Error> {
        if data.len() < 1 {
            Err(Error::ParseError)
        } else {
            Ok(Flags::spec_of_raw(data[0] as int))
        }
    }

    /// The byte that store the value.
    pub open spec fn spec_bytes(self) -> Seq<u8> {
        seq![self.spec_raw() as u8]
    }

    /// Reads the value from the start of `input`.
    pub fn from_bytes(input: &[u8]) -> (r: Result<Flags, Error>)
        ensures
            r == Flags::spec_from_bytes(input@),
    {
        if input.len() < 1 {
            return Err(Error::ParseError);
        }
        Ok(Flags::of_raw(input[0] as u32))
    }

    /// Appends the encoded value to `writer` and returns the number of bytes
    /// written.
    pub fn unparse(&self, writer: &mut Vec<u8>) -> (r: usize)
        ensures
            final(writer)@ == old(writer)@ + self.spec_bytes(),
            r == 1,
    {
        writer.push(self.raw() as u8);
        assert(writer@ =~= old(writer)@ + self.spec_bytes());
        1
    }

    /// Decoding the encoded value gives the value back.
    pub proof fn lemma_round_trip(self)
        ensures
            self.spec_bytes().len() == 1,
            Flags::spec_from_bytes(self.spec_bytes()) == Ok::<Flags, Error>(self),
    {
        self.lemma_raw_round_trip();
    }
}

impl RxFlags {
    /// The value stored in the first 2 bytes of `data`.
    pub open spec fn spec_from_bytes(data: Seq<u8>) -> Result<RxFlags, Error> {
        if data.len() < 2 {
            Err(Error::ParseError)
        } else {
            Ok(RxFlags::spec_of_raw(spec_u16_le(data, 0)))
        }
    }

    /// The 2 bytes that store the value.
    pub open spec fn spec_bytes(self) -> Seq<u8> {
        spec_u16_bytes(self.spec_raw())
    }

    /// Reads the value from the start of `input`.
    pub fn from_bytes(input: &[u8]) -> (r: Result<RxFlags, Error>)
        ensures
            r == RxFlags::spec_from_bytes(input@),
    {
        if input.len() < 2 {
            return Err(Error::ParseError);
        }
        Ok(RxFlags::of_raw(read_u16(input, 0) as u32))
    }

    /// Appends the encoded value to `writer` and returns the number of bytes
    /// written.
    pub fn unparse(&self, writer: &mut Vec<u8>) -> (r: usize)
        ensures
            final(writer)@ == old(writer)@ + self.spec_bytes(),
            r == 2,
    {
        write_u16(writer, self.raw() as u16);
        assert(writer@ =~= old(writer)@ + self.spec_bytes());
        2
    }

    /// Decoding the encoded value gives the value back.
    pub proof fn lemma_round_trip(self)
        ensures
            self.spec_bytes().len() == 2,
            RxFlags::spec_from_bytes(self.spec_bytes()) == Ok::<RxFlags, Error>(self),
    {
        self.lemma_raw_round_trip();
        lemma_u16_round_trip(self.spec_raw());
    }
}

impl TxFlags {
    /// The value stored in the first 2 bytes of `data`.
    pub open spec fn spec_from_bytes(data: Seq<u8>) -> Result<TxFlags, Error> {
        if data.len() < 2 {
            Err(Error::ParseError)
        } else {
            Ok(TxFlags::spec_of_raw(spec_u16_le(data, 0)))
        }
    }

    /// The 2 bytes that store the value.
    pub open spec fn spec_bytes(self) -> Seq<u8> {
        spec_u16_bytes(self.spec_raw())
    }

    /// Reads the value from the start of `input`.
    pub fn from_bytes(input: &[u8]) -> (r: Result<TxFlags, Error>)
        ensures
            r == TxFlags::spec_from_bytes(input@),
    {
        if input.len() < 2 {
            return Err(Error::ParseError);
        }
        Ok(TxFlags::of_raw(read_u16(input, 0) as u32))
    }

    /// Appends the encoded value to `writer` and returns the number of bytes
    /// written.
    pub fn unparse(&self, writer: &mut Vec<u8>) -> (r: usize)
        ensures
            final(writer)@ == old(writer)@ + self.spec_bytes(),
            r == 2,
    {
        write_u16(writer, self.raw() as u16);
        assert(writer@ =~= old(writer)@ + self.spec_bytes());
        2
    }

    /// Decoding the encoded value gives the value back.
    pub proof fn lemma_round_trip(self)
        ensures
            self.spec_bytes().len() == 2,
            TxFlags::spec_from_bytes(self.spec_bytes()) == Ok::<TxFlags, Error>(self),
    {
        self.lemma_raw_round_trip();
        lemma_u16_round_trip(self.spec_raw());
    }
}

/// The frequency of the channel, in MHz, and its properties.
#[derive(Debug, Clone, Copy, PartialEq, Eq, Default)]
pub struct Channel {
    pub freq: u16,
    pub flags: ChannelFlags,
}

impl Channel {
    /// The value stored in the first 4 bytes of `data`.
    pub open spec fn spec_from_bytes(data: Seq<u8>) -> Result<Channel, Error> {
        if data.len() < 4 {
            Err(Error::ParseError)
        } else {
            Ok(Channel {
                    freq: spec_u16_le(data, 0) as u16,
                    flags: ChannelFlags::spec_of_raw(spec_u16_le(data, 2)),
                })
        }
    }

    /// The 4 bytes that store the value.
    pub open spec fn spec_bytes(self) -> Seq<u8> {
        spec_u16_bytes(self.freq as int) + spec_u16_bytes(self.flags.spec_raw())
    }

    /// Reads the value from the start of `input`.
    pub fn from_bytes(input: &[u8]) -> (r: Result<Channel, Error>)
        ensures
            r == Channel::spec_from_bytes(input@),
    {
        if input.len() < 4 {
            return Err(Error::ParseError);
        }
        Ok(Channel {
                freq: read_u16(input, 0),
                flags: ChannelFlags::of_raw(read_u16(input, 2) as u32),
            })
    }

    /// Appends the encoded value to `writer` and returns the number of bytes
    /// written.
    pub fn unparse(&self, writer: &mut Vec<u8>) -> (r: usize)
        ensures
            final(writer)@ == old(writer)@ + self.spec_bytes(),
            r == 4,
    {
        write_u16(writer, self.freq);
        write_u16(writer, self.flags.raw() as u16);
        assert(writer@ =~= old(writer)@ + self.spec_bytes());
        4
    }

    /// Decoding the encoded value gives the value back.
    pub proof fn lemma_round_trip(self)
        ensures
            self.spec_bytes().len() == 4,
            Channel::spec_from_bytes(self.spec_bytes()) == Ok::<Channel, Error>(self),
    {
        self.flags.lemma_raw_round_trip();
        lemma_u16_round_trip(self.freq as int);
        lemma_u16_round_trip(self.flags.spec_raw());
    }
}

/// The extended channel: its properties, its frequency in MHz, its number
/// and the maximum power.
#[derive(Debug, Clone, Copy, PartialEq, Eq, Default)]
pub struct XChannel {
    pub flags: XChannelFlags,
    pub freq: u16,
    pub channel: u8,
    pub max_power: u8,
}

impl XChannel {
    /// The value stored in the first 8 bytes of `data`.
    pub open spec fn spec_from_bytes(data: Seq<u8>) -> Result<XChannel, Error> {
        if data.len() < 8 {
            Err(Error::ParseError)
        } else {
            Ok(XChannel {
                    flags: XChannelFlags::spec_of_raw(spec_u32_le(data, 0)),
                    freq: spec_u16_le(data, 4) as u16,
                    channel: data[6],
                    max_power: data[7],
                })
        }
    }

    /// The 8 bytes that store the value.
    pub open spec fn spec_bytes(self) -> Seq<u8> {
        spec_u32_bytes(self.flags.spec_raw()) + spec_u16_bytes(self.freq as int) + seq![
            self.channel,
            self.max_power,
        ]
    }

    /// Reads the value from the start of `input`.
    pub fn from_bytes(input: &[u8]) -> (r: Result<XChannel, Error>)
        ensures
            r == XChannel::spec_from_bytes(input@),
    {
        if input.len() < 8 {
            return Err(Error::ParseError);
        }
        Ok(XChannel {
                flags: XChannelFlags::of_raw(read_u32(input, 0)),
                freq: read_u16(input, 4),
                channel: input[6],
                max_power: input[7],
            })
    }

    /// Appends the encoded value to `writer` and returns the number of bytes
    /// written.
    pub fn unparse(&self, writer: &mut Vec<u8>) -> (r: usize)
        ensures
            final(writer)@ == old(writer)@ + self.spec_bytes(),
            r == 8,
    {
        write_u32(writer, self.flags.raw());
        write_u16(writer, self.freq);
        writer.push(self.channel);
        writer.push(self.max_power);
        assert(writer@ =~= old(writer)@ + self.spec_bytes());
        8
    }

    /// Decoding the encoded value gives the value back.
    pub proof fn lemma_round_trip(self)
        ensures
            self.spec_bytes().len() == 8,
            XChannel::spec_from_bytes(self.spec_bytes()) == Ok::<XChannel, Error>(self),
    {
        self.flags.lemma_raw_round_trip();
        lemma_u32_round_trip(self.flags.spec_raw());
        lemma_u16_round_trip(self.freq as int);
    }
}

} // verus!
