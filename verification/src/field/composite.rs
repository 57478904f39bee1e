//! The fields whose parts are announced by flags of their own.

use crate::bytes::{
    bit, flag, lemma_u16_round_trip, lemma_u32_round_trip, lemma_u64_round_trip, read_u16,
    read_u32, read_u64, spec_bit, spec_flag, spec_u16_bytes, spec_u16_le, spec_u32_bytes,
    spec_u32_le, spec_u64_bytes, spec_u64_le, write_u16, write_u32, write_u64,
};
use crate::Error;
use crate::field::ext::{
    ht_rate, spec_ht_rate, spec_vht_rate, vht_rate, Bandwidth, GuardInterval, HTFormat,
    SamplingPosition, TimeUnit, VHTUser, FEC, MAX_BANDWIDTH_CODE,
};
use vstd::prelude::*;

verus! {

/// The modulation and coding scheme of an HT transmission. Each part is
/// present where the capture says that it is known.
#[derive(Debug, Clone, Copy, PartialEq, Eq, Default)]
pub struct MCS {
    /// The bandwidth; its code is at most 3.
    pub bw: Option<Bandwidth>,
    /// The index of the scheme.
    pub index: Option<u8>,
    /// The guard interval.
    pub gi: Option<GuardInterval>,
    /// The HT format.
    pub format: Option<HTFormat>,
    /// The forward error correction code.
    pub fec: Option<FEC>,
    /// The number of space-time block code streams, at most 3.
    pub stbc: Option<u8>,
    /// The number of extension spatial streams, at most 3.
    pub ness: Option<u8>,
    /// The data rate in Kbps, where index, bandwidth and guard interval tell
    /// it.
    pub datarate: Option<u32>,
}

impl MCS {
    /// The byte that says which parts are known.
    pub open spec fn spec_known(self) -> int {
        spec_flag(self.bw is Some, 1) + spec_flag(self.index is Some, 2) + spec_flag(
            self.gi is Some,
            4,
        ) + spec_flag(self.format is Some, 8) + spec_flag(self.fec is Some, 16) + spec_flag(
            self.stbc is Some,
            32,
        ) + spec_flag(self.ness is Some, 64) + spec_flag(
            self.ness is Some && spec_bit(self.ness->0 as int, 2),
            128,
        )
    }

    /// The byte that holds the parts other than the index.
    pub open spec fn spec_flags(self) -> int {
        (if self.bw is Some {
            self.bw->0.code as int % 4
        } else {
            0
        }) + spec_flag(self.gi == Some(GuardInterval::Short), 4) + spec_flag(
            self.format == Some(HTFormat::Greenfield),
            8,
        ) + spec_flag(self.fec == Some(FEC::LDPC), 16) + 32 * (if self.stbc is Some {
            self.stbc->0 as int % 4
        } else {
            0
        }) + spec_flag(self.ness is Some && spec_bit(self.ness->0 as int, 1), 128)
    }

    /// The value that the bytes `known`, `flags` and `index` hold.
    pub open spec fn spec_of_parts(known: int, flags: int, index: u8) -> MCS {
        let bw = if spec_bit(known, 1) {
            Some(Bandwidth { code: (flags % 4) as u8 })
        } else {
            None
        };
        let index = if spec_bit(known, 2) {
            Some(index)
        } else {
            None
        };
        let gi = if spec_bit(known, 4) {
            Some(
                if spec_bit(flags, 4) {
                    GuardInterval::Short
                } else {
                    GuardInterval::Long
                },
            )
        } else {
            None
        };
        MCS {
            bw: bw,
            index: index,
            gi: gi,
            format: if spec_bit(known, 8) {
                Some(
                    if spec_bit(flags, 8) {
                        HTFormat::Greenfield
                    } else {
                        HTFormat::Mixed
                    },
                )
            } else {
                None
            },
            fec: if spec_bit(known, 16) {
                Some(
                    if spec_bit(flags, 16) {
                        FEC::LDPC
                    } else {
                        FEC::BCC
                    },
                )
            } else {
                None
            },
            stbc: if spec_bit(known, 32) {
                Some((flags / 32 % 4) as u8)
            } else {
                None
            },
            ness: if spec_bit(known, 64) {
                Some(
                    (spec_flag(spec_bit(known, 128), 2) + spec_flag(spec_bit(flags, 128), 1)) as u8,
                )
            } else {
                None
            },
            datarate: spec_ht_rate(index, bw, gi),
        }
    }

    /// The value stored in the first 3 bytes of `data`.
    pub open spec fn spec_from_bytes(data: Seq<u8>) -> Result<MCS, Error> {
        if data.len() < 3 {
            Err(Error::ParseError)
        } else {
            Ok(MCS::spec_of_parts(data[0] as int, data[1] as int, data[2]))
        }
    }

    /// The 3 bytes that store the value. A part that is unknown is stored as
    /// zero, and a number too large for its bits loses its upper bits.
    pub open spec fn spec_bytes(self) -> Seq<u8> {
        seq![
            self.spec_known() as u8,
            self.spec_flags() as u8,
            if self.index is Some {
                self.index->0
            } else {
                0u8
            },
        ]
    }

    /// Whether the value is one that a capture can hold: the numbers fit their
    /// bits, and the data rate is the one that the other parts tell.
    pub open spec fn spec_valid(self) -> bool {
        &&& self.bw is Some ==> self.bw->0.code <= 3
        &&& self.stbc is Some ==> self.stbc->0 <= 3
        &&& self.ness is Some ==> self.ness->0 <= 3
        &&& self.datarate == spec_ht_rate(self.index, self.bw, self.gi)
    }

    /// Reads the value from the start of `input`.
    pub fn from_bytes(input: &[u8]) -> (r: Result<MCS, Error>)
        ensures
            r == MCS::spec_from_bytes(input@),
    {
        if input.len() < 3 {
            return Err(Error::ParseError);
        }
        let known = input[0] as u32;
        let flags = input[1] as u32;
        let bw = if bit(known, 1) {
            Some(Bandwidth { code: (flags % 4) as u8 })
        } else {
            None
        };
        let index = if bit(known, 2) {
            Some(input[2])
        } else {
            None
        };
        let gi = if bit(known, 4) {
            Some(
                if bit(flags, 4) {
                    GuardInterval::Short
                } else {
                    GuardInterval::Long
                },
            )
        } else {
            None
        };
        let format = if bit(known, 8) {
            Some(
                if bit(flags, 8) {
                    HTFormat::Greenfield
                } else {
                    HTFormat::Mixed
                },
            )
        } else {
            None
        };
        let fec = if bit(known, 16) {
            Some(
                if bit(flags, 16) {
                    FEC::LDPC
                } else {
                    FEC::BCC
                },
            )
        } else {
            None
        };
        let stbc = if bit(known, 32) {
            Some((flags / 32 % 4) as u8)
        } else {
            None
        };
        let ness = if bit(known, 64) {
            Some((flag(bit(known, 128), 2) + flag(bit(flags, 128), 1)) as u8)
        } else {
            None
        };
        Ok(MCS { bw, index, gi, format, fec, stbc, ness, datarate: ht_rate(index, bw, gi) })
    }

    fn known(&self) -> (r: u8)
        ensures
            r == self.spec_known(),
    {
        let ness_high = match self.ness {
            Some(n) => bit(n as u32, 2),
            None => false,
        };
        (flag(self.bw.is_some(), 1) + flag(self.index.is_some(), 2) + flag(self.gi.is_some(), 4)
            + flag(self.format.is_some(), 8) + flag(self.fec.is_some(), 16) + flag(
            self.stbc.is_some(),
            32,
        ) + flag(self.ness.is_some(), 64) + flag(ness_high, 128)) as u8
    }

    fn flags(&self) -> (r: u8)
        ensures
            r == self.spec_flags(),
    {
        let bw: u32 = match self.bw {
            Some(b) => (b.code % 4) as u32,
            None => 0,
        };
        let stbc: u32 = match self.stbc {
            Some(s) => (s % 4) as u32,
            None => 0,
        };
        let ness_low = match self.ness {
            Some(n) => bit(n as u32, 1),
            None => false,
        };
        let short = match self.gi {
            Some(GuardInterval::Short) => true,
            _ => false,
        };
        let greenfield = match self.format {
            Some(HTFormat::Greenfield) => true,
            _ => false,
        };
        let ldpc = match self.fec {
            Some(FEC::LDPC) => true,
            _ => false,
        };
        (bw + flag(short, 4) + flag(greenfield, 8) + flag(ldpc, 16) + 32 * stbc + flag(
            ness_low,
            128,
        )) as u8
    }

    /// Appends the encoded value to `writer` and returns the number of bytes
    /// written.
    pub fn unparse(&self, writer: &mut Vec<u8>) -> (r: usize)
        ensures
            final(writer)@ == old(writer)@ + self.spec_bytes(),
            r == 3,
    {
        writer.push(self.known());
        writer.push(self.flags());
        writer.push(
            match self.index {
                Some(index) => index,
                None => 0,
            },
        );
        assert(writer@ =~= old(writer)@ + self.spec_bytes());
        3
    }

    proof fn lemma_known_bits(self)
        ensures
            0 <= self.spec_known() < 256,
            spec_bit(self.spec_known(), 1) == (self.bw is Some),
            spec_bit(self.spec_known(), 2) == (self.index is Some),
            spec_bit(self.spec_known(), 4) == (self.gi is Some),
            spec_bit(self.spec_known(), 8) == (self.format is Some),
            spec_bit(self.spec_known(), 16) == (self.fec is Some),
            spec_bit(self.spec_known(), 32) == (self.stbc is Some),
            spec_bit(self.spec_known(), 64) == (self.ness is Some),
            spec_bit(self.spec_known(), 128) == (self.ness is Some && spec_bit(
                self.ness->0 as int,
                2,
            )),
    {
    }

    proof fn lemma_flags_layout(low: int, short: bool, greenfield: bool, ldpc: bool, stbc: int, ness: bool)
        requires
            0 <= low < 4,
            0 <= stbc < 4,
        ensures
            ({
                let v = low + spec_flag(short, 4) + spec_flag(greenfield, 8) + spec_flag(ldpc, 16)
                    + 32 * stbc + spec_flag(ness, 128);
                &&& 0 <= v < 256
                &&& v % 4 == low
                &&& spec_bit(v, 4) == short
                &&& spec_bit(v, 8) == greenfield
                &&& spec_bit(v, 16) == ldpc
                &&& v / 32 % 4 == stbc
                &&& spec_bit(v, 128) == ness
            }),
    {
    }

    /// Decoding the encoded value gives the value back.
    pub proof fn lemma_round_trip(self)
        requires
            self.spec_valid(),
        ensures
            self.spec_bytes().len() == 3,
            MCS::spec_from_bytes(self.spec_bytes()) == Ok::<MCS, Error>(self),
    {
        let known = self.spec_known();
        let flags = self.spec_flags();
        self.lemma_known_bits();
        MCS::lemma_flags_layout(
            if self.bw is Some {
                self.bw->0.code as int % 4
            } else {
                0
            },
            self.gi == Some(GuardInterval::Short),
            self.format == Some(HTFormat::Greenfield),
            self.fec == Some(FEC::LDPC),
            if self.stbc is Some {
                self.stbc->0 as int % 4
            } else {
                0
            },
            self.ness is Some && spec_bit(self.ness->0 as int, 1),
        );
        let back = MCS::spec_of_parts(known, flags, self.spec_bytes()[2]);
        assert(back.bw == self.bw);
        assert(back.index == self.index);
        assert(back.gi == self.gi);
        assert(back.format == self.format);
        assert(back.fec == self.fec);
        assert(back.stbc == self.stbc);
        assert(back.ness == self.ness);
    }
}

/// The place of a frame in an aggregate of frames.
#[derive(Debug, Clone, Copy, PartialEq, Eq, Default)]
pub struct AMPDUStatus {
    /// The number of the aggregate, the same for all its frames.
    pub reference: u32,
    /// Whether the frame is a subframe of length zero, where the driver
    /// reports such subframes.
    pub zero_length: Option<bool>,
    /// Whether the frame is the last of its aggregate, where that is known.
    pub last: Option<bool>,
    /// The CRC of the delimiter, where it is known.
    pub delimiter_crc: Option<u8>,
}

impl AMPDUStatus {
    /// The 16 bits of flags.
    pub open spec fn spec_flags(self) -> int {
        spec_flag(self.zero_length is Some, 1) + spec_flag(self.zero_length == Some(true), 2)
            + spec_flag(self.last is Some, 4) + spec_flag(self.last == Some(true), 8) + spec_flag(
            self.delimiter_crc is Some,
            32,
        )
    }

    /// The value stored in the first 8 bytes of `data`.
    pub open spec fn spec_from_bytes(data: Seq<u8>) -> Result<AMPDUStatus, Error> {
        if data.len() < 8 {
            Err(Error::ParseError)
        } else {
            let flags = spec_u16_le(data, 4);
            Ok(
                AMPDUStatus {
                    reference: spec_u32_le(data, 0) as u32,
                    zero_length: if spec_bit(flags, 1) {
                        Some(spec_bit(flags, 2))
                    } else {
                        None
                    },
                    last: if spec_bit(flags, 4) {
                        Some(spec_bit(flags, 8))
                    } else {
                        None
                    },
                    delimiter_crc: if spec_bit(flags, 32) {
                        Some(data[6])
                    } else {
                        None
                    },
                },
            )
        }
    }

    /// The 8 bytes that store the value. An unknown CRC is stored as zero.
    pub open spec fn spec_bytes(self) -> Seq<u8> {
        spec_u32_bytes(self.reference as int) + spec_u16_bytes(self.spec_flags()) + seq![
            if self.delimiter_crc is Some {
                self.delimiter_crc->0
            } else {
                0u8
            },
            0u8,
        ]
    }

    /// Reads the value from the start of `input`.
    pub fn from_bytes(input: &[u8]) -> (r: Result<AMPDUStatus, Error>)
        ensures
            r == AMPDUStatus::spec_from_bytes(input@),
    {
        if input.len() < 8 {
            return Err(Error::ParseError);
        }
        let flags = read_u16(input, 4) as u32;
        Ok(
            AMPDUStatus {
                reference: read_u32(input, 0),
                zero_length: if bit(flags, 1) {
                    Some(bit(flags, 2))
                } else {
                    None
                },
                last: if bit(flags, 4) {
                    Some(bit(flags, 8))
                } else {
                    None
                },
                delimiter_crc: if bit(flags, 32) {
                    Some(input[6])
                } else {
                    None
                },
            },
        )
    }

    fn flags(&self) -> (r: u16)
        ensures
            r == self.spec_flags(),
    {
        let zero = match self.zero_length {
            Some(true) => true,
            _ => false,
        };
        let last = match self.last {
            Some(true) => true,
            _ => false,
        };
        (flag(self.zero_length.is_some(), 1) + flag(zero, 2) + flag(self.last.is_some(), 4) + flag(
            last,
            8,
        ) + flag(self.delimiter_crc.is_some(), 32)) as u16
    }

    /// Appends the encoded value to `writer` and returns the number of bytes
    /// written.
    pub fn unparse(&self, writer: &mut Vec<u8>) -> (r: usize)
        ensures
            final(writer)@ == old(writer)@ + self.spec_bytes(),
            r == 8,
    {
        write_u32(writer, self.reference);
        write_u16(writer, self.flags());
        writer.push(
            match self.delimiter_crc {
                Some(crc) => crc,
                None => 0,
            },
        );
        writer.push(0u8);
        assert(writer@ =~= old(writer)@ + self.spec_bytes());
        8
    }

    /// Decoding the encoded value gives the value back.
    pub proof fn lemma_round_trip(self)
        ensures
            self.spec_bytes().len() == 8,
            AMPDUStatus::spec_from_bytes(self.spec_bytes()) == Ok::<AMPDUStatus, Error>(self),
    {
        let flags = self.spec_flags();
        let data = self.spec_bytes();
        lemma_u32_round_trip(self.reference as int);
        lemma_u16_round_trip(flags);
        assert(forall|i: int| 0 <= i < 4 ==> data[i] == spec_u32_bytes(self.reference as int)[i]);
        assert(forall|i: int| 0 <= i < 2 ==> data[i + 4] == spec_u16_bytes(flags)[i]);
        assert(spec_u32_le(data, 0) == self.reference);
        assert(spec_u16_le(data, 4) == flags);
        assert(spec_bit(flags, 1) == (self.zero_length is Some));
        assert(spec_bit(flags, 2) == (self.zero_length == Some(true)));
        assert(spec_bit(flags, 4) == (self.last is Some));
        assert(spec_bit(flags, 8) == (self.last == Some(true)));
        assert(spec_bit(flags, 32) == (self.delimiter_crc is Some));
        assert(data[6] == if self.delimiter_crc is Some {
            self.delimiter_crc->0
        } else {
            0u8
        });
        let back = AMPDUStatus::spec_from_bytes(data)->Ok_0;
        assert(back.reference == self.reference);
        assert(back.zero_length == self.zero_length);
        assert(back.last == self.last);
        assert(back.delimiter_crc == self.delimiter_crc);
    }
}

/// The time at which a frame was sent or received.
#[derive(Debug, Clone, Copy, PartialEq, Eq)]
pub struct Timestamp {
    /// The time, in the unit that `unit` names.
    pub timestamp: u64,
    /// The unit of the time.
    pub unit: TimeUnit,
    /// The point of the frame at which the time was taken.
    pub position: SamplingPosition,
    /// The accuracy of the time, in its unit, where it is known.
    pub accuracy: Option<u16>,
}

impl Timestamp {
    /// The value stored in the first 12 bytes of `data`. A unit or a position
    /// without a meaning makes the data invalid.
    pub open spec fn spec_from_bytes(data: Seq<u8>) -> Result<Timestamp, Error> {
        if data.len() < 12 {
            Err(Error::ParseError)
        } else {
            let unit = TimeUnit::spec_new(data[10] as int % 16);
            let position = SamplingPosition::spec_new(data[10] as int / 16);
            if unit is None || position is None {
                Err(Error::InvalidFormat)
            } else {
                Ok(
                    Timestamp {
                        timestamp: spec_u64_le(data, 0) as u64,
                        unit: unit->0,
                        position: position->0,
                        accuracy: if spec_bit(data[11] as int, 2) {
                            Some(spec_u16_le(data, 8) as u16)
                        } else {
                            None
                        },
                    },
                )
            }
        }
    }

    /// The 12 bytes that store the value. An unknown accuracy is stored as
    /// zero.
    pub open spec fn spec_bytes(self) -> Seq<u8> {
        spec_u64_bytes(self.timestamp as int) + spec_u16_bytes(
            if self.accuracy is Some {
                self.accuracy->0 as int
            } else {
                0
            },
        ) + seq![
            (self.unit.spec_code() + 16 * self.position.spec_code()) as u8,
            spec_flag(self.accuracy is Some, 2) as u8,
        ]
    }

    /// Reads the value from the start of `input`.
    pub fn from_bytes(input: &[u8]) -> (r: Result<Timestamp, Error>)
        ensures
            r == Timestamp::spec_from_bytes(input@),
    {
        if input.len() < 12 {
            return Err(Error::ParseError);
        }
        let unit = match TimeUnit::new(input[10] % 16) {
            Ok(unit) => unit,
            Err(e) => {
                return Err(e);
            },
        };
        let position = match SamplingPosition::new(input[10] / 16) {
            Ok(position) => position,
            Err(e) => {
                return Err(e);
            },
        };
        Ok(
            Timestamp {
                timestamp: read_u64(input, 0),
                unit,
                position,
                accuracy: if bit(input[11] as u32, 2) {
                    Some(read_u16(input, 8))
                } else {
                    None
                },
            },
        )
    }

    /// Appends the encoded value to `writer` and returns the number of bytes
    /// written.
    pub fn unparse(&self, writer: &mut Vec<u8>) -> (r: usize)
        ensures
            final(writer)@ == old(writer)@ + self.spec_bytes(),
            r == 12,
    {
        write_u64(writer, self.timestamp);
        write_u16(
            writer,
            match self.accuracy {
                Some(accuracy) => accuracy,
                None => 0,
            },
        );
        writer.push(self.unit.code() + 16 * self.position.code());
        writer.push(flag(self.accuracy.is_some(), 2) as u8);
        assert(writer@ =~= old(writer)@ + self.spec_bytes());
        12
    }

    /// Decoding the encoded value gives the value back.
    pub proof fn lemma_round_trip(self)
        ensures
            self.spec_bytes().len() == 12,
            Timestamp::spec_from_bytes(self.spec_bytes()) == Ok::<Timestamp, Error>(self),
    {
        let data = self.spec_bytes();
        let accuracy = if self.accuracy is Some {
            self.accuracy->0 as int
        } else {
            0
        };
        lemma_u64_round_trip(self.timestamp as int);
        lemma_u16_round_trip(accuracy);
        let head = spec_u64_bytes(self.timestamp as int);
        assert(head.len() == 8);
        assert(forall|i: int| 0 <= i < 8 ==> data[i] == head[i]);
        assert(forall|i: int| 0 <= i < 2 ==> data[i + 8] == spec_u16_bytes(accuracy)[i]);
        assert(spec_u32_le(data, 0) == spec_u32_le(head, 0));
        assert(spec_u32_le(data, 4) == spec_u32_le(head, 4));
        assert(spec_u64_le(data, 0) == self.timestamp);
        assert(spec_u16_le(data, 8) == accuracy);
        assert(data[10] == self.unit.spec_code() + 16 * self.position.spec_code());
        assert(data[10] as int % 16 == self.unit.spec_code());
        assert(data[10] as int / 16 == self.position.spec_code());
        assert(spec_bit(data[11] as int, 2) == (self.accuracy is Some));
    }
}

/// The properties of a VHT transmission. Each part is present where the
/// capture says that it is known.
#[derive(Debug, Clone, Copy, PartialEq, Eq, Default)]
pub struct VHT {
    /// Whether all spatial streams of all users use space-time block coding.
    pub stbc: Option<bool>,
    /// Whether the station may not doze during the transmit opportunity.
    pub txop_ps: Option<bool>,
    /// The guard interval.
    pub gi: Option<GuardInterval>,
    /// Whether the number of symbols with short guard interval is ambiguous.
    pub sgi_nsym_da: Option<bool>,
    /// Whether one or more users need an extra LDPC symbol.
    pub ldpc_extra: Option<bool>,
    /// Whether the frame was beamformed.
    pub beamformed: Option<bool>,
    /// The bandwidth.
    pub bw: Option<Bandwidth>,
    /// The group of a multi-user transmission.
    pub group_id: Option<u8>,
    /// The abbreviated address of the receiver.
    pub partial_aid: Option<u16>,
    /// The users of the transmission, at most four.
    pub users: [Option<VHTUser>; 4],
}

impl VHT {
    /// The user that a byte of scheme and streams holds, if it holds one: the
    /// low four bits are the number of spatial streams, zero for no user, the
    /// high four bits the index of the scheme.
    pub open spec fn spec_user(
        byte: u8,
        ldpc: bool,
        stbc: Option<bool>,
        bw: Option<Bandwidth>,
        gi: Option<GuardInterval>,
    ) -> Option<VHTUser> {
        if byte as int % 16 == 0 {
            None
        } else {
            Some(
                VHTUser {
                    index: (byte as int / 16) as u8,
                    fec: if ldpc {
                        FEC::LDPC
                    } else {
                        FEC::BCC
                    },
                    nss: (byte as int % 16) as u8,
                    nsts: (if stbc == Some(true) {
                        2 * (byte as int % 16)
                    } else {
                        byte as int % 16
                    }) as u8,
                    datarate: spec_vht_rate(
                        (byte as int / 16) as u8,
                        bw,
                        gi,
                        (byte as int % 16) as u8,
                    ),
                },
            )
        }
    }

    /// The byte of scheme and streams for a user.
    pub open spec fn spec_user_byte(user: Option<VHTUser>) -> int {
        if user is Some {
            user->0.nss as int % 16 + 16 * (user->0.index as int % 16)
        } else {
            0
        }
    }

    /// Whether a user is present and uses the LDPC code.
    pub open spec fn spec_ldpc(user: Option<VHTUser>) -> bool {
        user is Some && user->0.fec == FEC::LDPC
    }

    /// The 16 bits that say which parts are known.
    pub open spec fn spec_known(self) -> int {
        spec_flag(self.stbc is Some, 1) + spec_flag(self.txop_ps is Some, 2) + spec_flag(
            self.gi is Some,
            4,
        ) + spec_flag(self.sgi_nsym_da is Some, 8) + spec_flag(self.ldpc_extra is Some, 16)
            + spec_flag(self.beamformed is Some, 32) + spec_flag(self.bw is Some, 64) + spec_flag(
            self.group_id is Some,
            128,
        ) + 256 * spec_flag(self.partial_aid is Some, 1)
    }

    /// The byte of flags.
    pub open spec fn spec_flags(self) -> int {
        spec_flag(self.stbc == Some(true), 1) + spec_flag(self.txop_ps == Some(true), 2)
            + spec_flag(self.gi == Some(GuardInterval::Short), 4) + spec_flag(
            self.sgi_nsym_da == Some(true),
            8,
        ) + spec_flag(self.ldpc_extra == Some(true), 16) + spec_flag(
            self.beamformed == Some(true),
            32,
        )
    }

    /// The byte that holds the code of each user, one bit for each.
    pub open spec fn spec_coding(self) -> int {
        spec_flag(VHT::spec_ldpc(self.users[0]), 1) + spec_flag(VHT::spec_ldpc(self.users[1]), 2)
            + spec_flag(VHT::spec_ldpc(self.users[2]), 4) + spec_flag(
            VHT::spec_ldpc(self.users[3]),
            8,
        )
    }

    /// The value stored in the first 12 bytes of `data`. A bandwidth that is
    /// said to be known and has no meaning makes the data invalid.
    pub open spec fn spec_from_bytes(data: Seq<u8>) -> Result<VHT, Error> {
        if data.len() < 12 {
            Err(Error::ParseError)
        } else {
            let known = spec_u16_le(data, 0);
            let flags = data[2] as int;
            let coding = data[8] as int;
            if spec_bit(known, 64) && data[3] as int % 32 > MAX_BANDWIDTH_CODE {
                Err(Error::InvalidFormat)
            } else {
                let stbc = if spec_bit(known, 1) {
                    Some(spec_bit(flags, 1))
                } else {
                    None
                };
                let gi = if spec_bit(known, 4) {
                    Some(
                        if spec_bit(flags, 4) {
                            GuardInterval::Short
                        } else {
                            GuardInterval::Long
                        },
                    )
                } else {
                    None
                };
                let bw = if spec_bit(known, 64) {
                    Some(Bandwidth { code: (data[3] as int % 32) as u8 })
                } else {
                    None
                };
                Ok(
                    VHT {
                        stbc: stbc,
                        txop_ps: if spec_bit(known, 2) {
                            Some(spec_bit(flags, 2))
                        } else {
                            None
                        },
                        gi: gi,
                        sgi_nsym_da: if spec_bit(known, 8) {
                            Some(spec_bit(flags, 8))
                        } else {
                            None
                        },
                        ldpc_extra: if spec_bit(known, 16) {
                            Some(spec_bit(flags, 16))
                        } else {
                            None
                        },
                        beamformed: if spec_bit(known, 32) {
                            Some(spec_bit(flags, 32))
                        } else {
                            None
                        },
                        bw: bw,
                        group_id: if spec_bit(known, 128) {
                            Some(data[9])
                        } else {
                            None
                        },
                        partial_aid: if spec_bit(known, 256) {
                            Some(spec_u16_le(data, 10) as u16)
                        } else {
                            None
                        },
                        users: [
                            VHT::spec_user(data[4], spec_bit(coding, 1), stbc, bw, gi),
                            VHT::spec_user(data[5], spec_bit(coding, 2), stbc, bw, gi),
                            VHT::spec_user(data[6], spec_bit(coding, 4), stbc, bw, gi),
                            VHT::spec_user(data[7], spec_bit(coding, 8), stbc, bw, gi),
                        ],
                    },
                )
            }
        }
    }

    /// The 12 bytes that store the value. A part that is unknown is stored as
    /// zero, and a number too large for its bits loses its upper bits.
    pub open spec fn spec_bytes(self) -> Seq<u8> {
        spec_u16_bytes(self.spec_known()) + seq![
            self.spec_flags() as u8,
            if self.bw is Some {
                (self.bw->0.code as int % 32) as u8
            } else {
                0u8
            },
            VHT::spec_user_byte(self.users[0]) as u8,
            VHT::spec_user_byte(self.users[1]) as u8,
            VHT::spec_user_byte(self.users[2]) as u8,
            VHT::spec_user_byte(self.users[3]) as u8,
            self.spec_coding() as u8,
            if self.group_id is Some {
                self.group_id->0
            } else {
                0u8
            },
        ] + spec_u16_bytes(
            if self.partial_aid is Some {
                self.partial_aid->0 as int
            } else {
                0
            },
        )
    }

    /// Whether a user is one that a capture can hold beside the given parts:
    /// the numbers fit their bits, there is at least one spatial stream, and
    /// the space-time streams and the data rate are those that the other parts
    /// tell.
    pub open spec fn spec_valid_user(
        user: Option<VHTUser>,
        stbc: Option<bool>,
        bw: Option<Bandwidth>,
        gi: Option<GuardInterval>,
    ) -> bool {
        user is Some ==> {
            &&& 1 <= user->0.nss <= 15
            &&& user->0.index <= 15
            &&& user->0.nsts == if stbc == Some(true) {
                2 * user->0.nss
            } else {
                user->0.nss as int
            }
            &&& user->0.datarate == spec_vht_rate(user->0.index, bw, gi, user->0.nss)
        }
    }

    /// Whether the value is one that a capture can hold.
    pub open spec fn spec_valid(self) -> bool {
        &&& self.bw is Some ==> self.bw->0.code <= MAX_BANDWIDTH_CODE
        &&& VHT::spec_valid_user(self.users[0], self.stbc, self.bw, self.gi)
        &&& VHT::spec_valid_user(self.users[1], self.stbc, self.bw, self.gi)
        &&& VHT::spec_valid_user(self.users[2], self.stbc, self.bw, self.gi)
        &&& VHT::spec_valid_user(self.users[3], self.stbc, self.bw, self.gi)
    }

    fn user(
        byte: u8,
        ldpc: bool,
        stbc: Option<bool>,
        bw: Option<Bandwidth>,
        gi: Option<GuardInterval>,
    ) -> (r: Option<VHTUser>)
        ensures
            r == VHT::spec_user(byte, ldpc, stbc, bw, gi),
    {
        let nss = byte % 16;
        if nss == 0 {
            return None;
        }
        let index = byte / 16;
        let doubled = match stbc {
            Some(true) => true,
            _ => false,
        };
        Some(
            VHTUser {
                index,
                fec: if ldpc {
                    FEC::LDPC
                } else {
                    FEC::BCC
                },
                nss,
                nsts: if doubled {
                    2 * nss
                } else {
                    nss
                },
                datarate: vht_rate(index, bw, gi, nss),
            },
        )
    }

    fn user_byte(user: &Option<VHTUser>) -> (r: u8)
        ensures
            r == VHT::spec_user_byte(*user),
    {
        match user {
            Some(u) => u.nss % 16 + 16 * (u.index % 16),
            None => 0,
        }
    }

    fn ldpc(user: &Option<VHTUser>) -> (r: bool)
        ensures
            r == VHT::spec_ldpc(*user),
    {
        match user {
            Some(u) => match u.fec {
                FEC::LDPC => true,
                FEC::BCC => false,
            },
            None => false,
        }
    }

    /// Reads the value from the start of `input`.
    pub fn from_bytes(input: &[u8]) -> (r: Result<VHT, Error>)
        ensures
            r == VHT::spec_from_bytes(input@),
    {
        if input.len() < 12 {
            return Err(Error::ParseError);
        }
        let known = read_u16(input, 0) as u32;
        let flags = input[2] as u32;
        let coding = input[8] as u32;
        let bw = if bit(known, 64) {
            match Bandwidth::new(input[3] % 32) {
                Ok(bw) => Some(bw),
                Err(e) => {
                    return Err(e);
                },
            }
        } else {
            None
        };
        let stbc = if bit(known, 1) {
            Some(bit(flags, 1))
        } else {
            None
        };
        let gi = if bit(known, 4) {
            Some(
                if bit(flags, 4) {
                    GuardInterval::Short
                } else {
                    GuardInterval::Long
                },
            )
        } else {
            None
        };
        let r = VHT {
            stbc,
            txop_ps: if bit(known, 2) {
                Some(bit(flags, 2))
            } else {
                None
            },
            gi,
            sgi_nsym_da: if bit(known, 8) {
                Some(bit(flags, 8))
            } else {
                None
            },
            ldpc_extra: if bit(known, 16) {
                Some(bit(flags, 16))
            } else {
                None
            },
            beamformed: if bit(known, 32) {
                Some(bit(flags, 32))
            } else {
                None
            },
            bw,
            group_id: if bit(known, 128) {
                Some(input[9])
            } else {
                None
            },
            partial_aid: if bit(known, 256) {
                Some(read_u16(input, 10))
            } else {
                None
            },
            users: [
                VHT::user(input[4], bit(coding, 1), stbc, bw, gi),
                VHT::user(input[5], bit(coding, 2), stbc, bw, gi),
                VHT::user(input[6], bit(coding, 4), stbc, bw, gi),
                VHT::user(input[7], bit(coding, 8), stbc, bw, gi),
            ],
        };
        assert(r.users =~= VHT::spec_from_bytes(input@)->Ok_0.users);
        Ok(r)
    }

    fn known(&self) -> (r: u16)
        ensures
            r == self.spec_known(),
    {
        let low = flag(self.stbc.is_some(), 1) + flag(self.txop_ps.is_some(), 2) + flag(
            self.gi.is_some(),
            4,
        ) + flag(self.sgi_nsym_da.is_some(), 8) + flag(self.ldpc_extra.is_some(), 16) + flag(
            self.beamformed.is_some(),
            32,
        ) + flag(self.bw.is_some(), 64) + flag(self.group_id.is_some(), 128);
        (low + 256 * flag(self.partial_aid.is_some(), 1)) as u16
    }

    fn flags(&self) -> (r: u8)
        ensures
            r == self.spec_flags(),
    {
        let stbc = match self.stbc {
            Some(true) => true,
            _ => false,
        };
        let txop_ps = match self.txop_ps {
            Some(true) => true,
            _ => false,
        };
        let short = match self.gi {
            Some(GuardInterval::Short) => true,
            _ => false,
        };
        let sgi_nsym_da = match self.sgi_nsym_da {
            Some(true) => true,
            _ => false,
        };
        let ldpc_extra = match self.ldpc_extra {
            Some(true) => true,
            _ => false,
        };
        let beamformed = match self.beamformed {
            Some(true) => true,
            _ => false,
        };
        (flag(stbc, 1) + flag(txop_ps, 2) + flag(short, 4) + flag(sgi_nsym_da, 8) + flag(
            ldpc_extra,
            16,
        ) + flag(beamformed, 32)) as u8
    }

    fn coding(&self) -> (r: u8)
        ensures
            r == self.spec_coding(),
    {
        (flag(VHT::ldpc(&self.users[0]), 1) + flag(VHT::ldpc(&self.users[1]), 2) + flag(
            VHT::ldpc(&self.users[2]),
            4,
        ) + flag(VHT::ldpc(&self.users[3]), 8)) as u8
    }

    /// Appends the encoded value to `writer` and returns the number of bytes
    /// written.
    pub fn unparse(&self, writer: &mut Vec<u8>) -> (r: usize)
        ensures
            final(writer)@ == old(writer)@ + self.spec_bytes(),
            r == 12,
    {
        write_u16(writer, self.known());
        writer.push(self.flags());
        writer.push(
            match self.bw {
                Some(bw) => bw.code % 32,
                None => 0,
            },
        );
        writer.push(VHT::user_byte(&self.users[0]));
        writer.push(VHT::user_byte(&self.users[1]));
        writer.push(VHT::user_byte(&self.users[2]));
        writer.push(VHT::user_byte(&self.users[3]));
        writer.push(self.coding());
        writer.push(
            match self.group_id {
                Some(id) => id,
                None => 0,
            },
        );
        write_u16(
            writer,
            match self.partial_aid {
                Some(aid) => aid,
                None => 0,
            },
        );
        assert(writer@ =~= old(writer)@ + self.spec_bytes());
        12
    }

    proof fn lemma_known_bits(self)
        ensures
            0 <= self.spec_known() < 512,
            spec_bit(self.spec_known(), 1) == (self.stbc is Some),
            spec_bit(self.spec_known(), 2) == (self.txop_ps is Some),
            spec_bit(self.spec_known(), 4) == (self.gi is Some),
            spec_bit(self.spec_known(), 8) == (self.sgi_nsym_da is Some),
            spec_bit(self.spec_known(), 16) == (self.ldpc_extra is Some),
            spec_bit(self.spec_known(), 32) == (self.beamformed is Some),
            spec_bit(self.spec_known(), 64) == (self.bw is Some),
            spec_bit(self.spec_known(), 128) == (self.group_id is Some),
            spec_bit(self.spec_known(), 256) == (self.partial_aid is Some),
    {
    }

    proof fn lemma_flags_bits(self)
        ensures
            0 <= self.spec_flags() < 64,
            spec_bit(self.spec_flags(), 1) == (self.stbc == Some(true)),
            spec_bit(self.spec_flags(), 2) == (self.txop_ps == Some(true)),
            spec_bit(self.spec_flags(), 4) == (self.gi == Some(GuardInterval::Short)),
            spec_bit(self.spec_flags(), 8) == (self.sgi_nsym_da == Some(true)),
            spec_bit(self.spec_flags(), 16) == (self.ldpc_extra == Some(true)),
            spec_bit(self.spec_flags(), 32) == (self.beamformed == Some(true)),
    {
    }

    proof fn lemma_coding_bits(self)
        ensures
            0 <= self.spec_coding() < 16,
            spec_bit(self.spec_coding(), 1) == VHT::spec_ldpc(self.users[0]),
            spec_bit(self.spec_coding(), 2) == VHT::spec_ldpc(self.users[1]),
            spec_bit(self.spec_coding(), 4) == VHT::spec_ldpc(self.users[2]),
            spec_bit(self.spec_coding(), 8) == VHT::spec_ldpc(self.users[3]),
    {
    }

    proof fn lemma_user_round_trip(
        user: Option<VHTUser>,
        stbc: Option<bool>,
        bw: Option<Bandwidth>,
        gi: Option<GuardInterval>,
    )
        requires
            VHT::spec_valid_user(user, stbc, bw, gi),
        ensures
            0 <= VHT::spec_user_byte(user) < 256,
            VHT::spec_user(
                VHT::spec_user_byte(user) as u8,
                VHT::spec_ldpc(user),
                stbc,
                bw,
                gi,
            ) == user,
    {
    }

    /// Decoding the encoded value gives the value back.
    pub proof fn lemma_round_trip(self)
        requires
            self.spec_valid(),
        ensures
            self.spec_bytes().len() == 12,
            VHT::spec_from_bytes(self.spec_bytes()) == Ok::<VHT, Error>(self),
    {
        let data = self.spec_bytes();
        let aid = if self.partial_aid is Some {
            self.partial_aid->0 as int
        } else {
            0
        };
        self.lemma_known_bits();
        self.lemma_flags_bits();
        self.lemma_coding_bits();
        lemma_u16_round_trip(self.spec_known());
        lemma_u16_round_trip(aid);
        VHT::lemma_user_round_trip(self.users[0], self.stbc, self.bw, self.gi);
        VHT::lemma_user_round_trip(self.users[1], self.stbc, self.bw, self.gi);
        VHT::lemma_user_round_trip(self.users[2], self.stbc, self.bw, self.gi);
        VHT::lemma_user_round_trip(self.users[3], self.stbc, self.bw, self.gi);
        assert(data.len() == 12);
        assert(forall|i: int| 0 <= i < 2 ==> data[i] == spec_u16_bytes(self.spec_known())[i]);
        assert(forall|i: int| 0 <= i < 2 ==> data[i + 10] == spec_u16_bytes(aid)[i]);
        assert(spec_u16_le(data, 0) == self.spec_known());
        assert(spec_u16_le(data, 10) == aid);
        assert(data[2] == self.spec_flags());
        assert(data[4] == VHT::spec_user_byte(self.users[0]));
        assert(data[5] == VHT::spec_user_byte(self.users[1]));
        assert(data[6] == VHT::spec_user_byte(self.users[2]));
        assert(data[7] == VHT::spec_user_byte(self.users[3]));
        assert(data[8] == self.spec_coding());
        let back = VHT::spec_from_bytes(data)->Ok_0;
        assert(back.stbc == self.stbc);
        assert(back.gi == self.gi);
        assert(back.bw == self.bw);
        assert(back.users[0] == self.users[0]);
        assert(back.users[1] == self.users[1]);
        assert(back.users[2] == self.users[2]);
        assert(back.users[3] == self.users[3]);
        assert(back.users =~= self.users);
        assert(back.txop_ps == self.txop_ps);
        assert(back.sgi_nsym_da == self.sgi_nsym_da);
        assert(back.ldpc_extra == self.ldpc_extra);
        assert(back.beamformed == self.beamformed);
        assert(back.group_id == self.group_id);
        assert(back.partial_aid == self.partial_aid);
    }
}

} // verus!
