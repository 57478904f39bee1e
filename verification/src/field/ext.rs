//! The smaller values that the fields are made of.

use crate::bytes::{bit, flag, spec_bit, spec_flag};
use crate::Error;
use vstd::prelude::*;

verus! {

/// Properties of a channel.
#[derive(Debug, Clone, Copy, PartialEq, Eq, Default)]
pub struct ChannelFlags {
    /// Turbo channel.
    pub turbo: bool,
    /// Complementary Code Keying (CCK) channel.
    pub cck: bool,
    /// Orthogonal Frequency-Division Multiplexing (OFDM) channel.
    pub ofdm: bool,
    /// 2 GHz spectrum channel.
    pub ghz2: bool,
    /// 5 GHz spectrum channel.
    pub ghz5: bool,
    /// Only passive scan allowed.
    pub passive: bool,
    /// Dynamic CCK-OFDM channel.
    pub dynamic: bool,
    /// Gaussian Frequency Shift Keying (GFSK) channel.
    pub gfsk: bool,
}

impl ChannelFlags {
    /// The flags packed into a 16-bit number.
    pub open spec fn spec_raw(self) -> int {
        spec_flag(self.turbo, 16)
            + spec_flag(self.cck, 32)
            + spec_flag(self.ofdm, 64)
            + spec_flag(self.ghz2, 128)
            + spec_flag(self.ghz5, 256)
            + spec_flag(self.passive, 512)
            + spec_flag(self.dynamic, 1024)
            + spec_flag(self.gfsk, 2048)
    }

    /// The flags that a 16-bit number holds; its other bits are ignored.
    pub open spec fn spec_of_raw(raw: int) -> ChannelFlags {
        ChannelFlags {
            turbo: spec_bit(raw, 16),
            cck: spec_bit(raw, 32),
            ofdm: spec_bit(raw, 64),
            ghz2: spec_bit(raw, 128),
            ghz5: spec_bit(raw, 256),
            passive: spec_bit(raw, 512),
            dynamic: spec_bit(raw, 1024),
            gfsk: spec_bit(raw, 2048),
        }
    }

    /// Packs the flags into a number.
    pub fn raw(&self) -> (r: u32)
        ensures
            r == self.spec_raw(),
            r < 65536,
    {
        flag(self.turbo, 16)
            + flag(self.cck, 32)
            + flag(self.ofdm, 64)
            + flag(self.ghz2, 128)
            + flag(self.ghz5, 256)
            + flag(self.passive, 512)
            + flag(self.dynamic, 1024)
            + flag(self.gfsk, 2048)
    }

    /// Reads the flags from a number.
    pub fn of_raw(raw: u32) -> (r: ChannelFlags)
        ensures
            r == ChannelFlags::spec_of_raw(raw as int),
    {
        ChannelFlags {
            turbo: bit(raw, 16),
            cck: bit(raw, 32),
            ofdm: bit(raw, 64),
            ghz2: bit(raw, 128),
            ghz5: bit(raw, 256),
            passive: bit(raw, 512),
            dynamic: bit(raw, 1024),
            gfsk: bit(raw, 2048),
        }
    }

    /// Packing the flags and reading them again gives the flags back.
    pub proof fn lemma_raw_round_trip(self)
        ensures
            0 <= self.spec_raw() < 65536,
            ChannelFlags::spec_of_raw(self.spec_raw()) == self,
    {
    }
}

/// Properties of an extended channel.
#[derive(Debug, Clone, Copy, PartialEq, Eq, Default)]
pub struct XChannelFlags {
    /// Turbo channel.
    pub turbo: bool,
    /// Complementary Code Keying (CCK) channel.
    pub cck: bool,
    /// Orthogonal Frequency-Division Multiplexing (OFDM) channel.
    pub ofdm: bool,
    /// 2 GHz spectrum channel.
    pub ghz2: bool,
    /// 5 GHz spectrum channel.
    pub ghz5: bool,
    /// Only passive scan allowed.
    pub passive: bool,
    /// Dynamic CCK-OFDM channel.
    pub dynamic: bool,
    /// Gaussian Frequency Shift Keying (GFSK) channel.
    pub gfsk: bool,
    /// GSM channel.
    pub gsm: bool,
    /// Static Turbo channel.
    pub sturbo: bool,
    /// Half rate channel.
    pub half: bool,
    /// Quarter rate channel.
    pub quarter: bool,
    /// HT channel, 20 MHz wide.
    pub ht20: bool,
    /// HT channel, 40 MHz wide, extension channel above.
    pub ht40u: bool,
    /// HT channel, 40 MHz wide, extension channel below.
    pub ht40d: bool,
}

impl XChannelFlags {
    /// The flags below bit weight 4096, packed.
    pub open spec fn spec_raw_low(self) -> int {
        spec_flag(self.turbo, 16)
            + spec_flag(self.cck, 32)
            + spec_flag(self.ofdm, 64)
            + spec_flag(self.ghz2, 128)
            + spec_flag(self.ghz5, 256)
            + spec_flag(self.passive, 512)
            + spec_flag(self.dynamic, 1024)
            + spec_flag(self.gfsk, 2048)
    }

    /// The flags from bit weight 4096 on, packed and divided by 4096.
    pub open spec fn spec_raw_high(self) -> int {
        spec_flag(self.gsm, 1)
            + spec_flag(self.sturbo, 2)
            + spec_flag(self.half, 4)
            + spec_flag(self.quarter, 8)
            + spec_flag(self.ht20, 16)
            + spec_flag(self.ht40u, 32)
            + spec_flag(self.ht40d, 64)
    }

    /// The flags packed into a 32-bit number.
    pub open spec fn spec_raw(self) -> int {
        self.spec_raw_low() + 4096 * self.spec_raw_high()
    }

    /// The flags that a 32-bit number holds; its other bits are ignored.
    pub open spec fn spec_of_raw(raw: int) -> XChannelFlags {
        XChannelFlags {
            turbo: spec_bit(raw, 16),
            cck: spec_bit(raw, 32),
            ofdm: spec_bit(raw, 64),
            ghz2: spec_bit(raw, 128),
            ghz5: spec_bit(raw, 256),
            passive: spec_bit(raw, 512),
            dynamic: spec_bit(raw, 1024),
            gfsk: spec_bit(raw, 2048),
            gsm: spec_bit(raw, 4096),
            sturbo: spec_bit(raw, 8192),
            half: spec_bit(raw, 16384),
            quarter: spec_bit(raw, 32768),
            ht20: spec_bit(raw, 65536),
            ht40u: spec_bit(raw, 131072),
            ht40d: spec_bit(raw, 262144),
        }
    }

    fn raw_low(&self) -> (r: u32)
        ensures
            r == self.spec_raw_low(),
            r < 4096,
    {
        flag(self.turbo, 16)
            + flag(self.cck, 32)
            + flag(self.ofdm, 64)
            + flag(self.ghz2, 128)
            + flag(self.ghz5, 256)
            + flag(self.passive, 512)
            + flag(self.dynamic, 1024)
            + flag(self.gfsk, 2048)
    }

    fn raw_high(&self) -> (r: u32)
        ensures
            r == self.spec_raw_high(),
            r < 1048576,
    {
        flag(self.gsm, 1)
            + flag(self.sturbo, 2)
            + flag(self.half, 4)
            + flag(self.quarter, 8)
            + flag(self.ht20, 16)
            + flag(self.ht40u, 32)
            + flag(self.ht40d, 64)
    }

    /// Packs the flags into a number.
    pub fn raw(&self) -> (r: u32)
        ensures
            r == self.spec_raw(),
            r < 4294967296,
    {
        self.raw_low() + 4096 * self.raw_high()
    }

    /// Reads the flags from a number.
    pub fn of_raw(raw: u32) -> (r: XChannelFlags)
        ensures
            r == XChannelFlags::spec_of_raw(raw as int),
    {
        XChannelFlags {
            turbo: bit(raw, 16),
            cck: bit(raw, 32),
            ofdm: bit(raw, 64),
            ghz2: bit(raw, 128),
            ghz5: bit(raw, 256),
            passive: bit(raw, 512),
            dynamic: bit(raw, 1024),
            gfsk: bit(raw, 2048),
            gsm: bit(raw, 4096),
            sturbo: bit(raw, 8192),
            half: bit(raw, 16384),
            quarter: bit(raw, 32768),
            ht20: bit(raw, 65536),
            ht40u: bit(raw, 131072),
            ht40d: bit(raw, 262144),
        }
    }

    proof fn lemma_low_bits(self)
        ensures
            0 <= self.spec_raw_low() < 4096,
            spec_bit(self.spec_raw_low(), 16) == self.turbo,
            spec_bit(self.spec_raw_low(), 32) == self.cck,
            spec_bit(self.spec_raw_low(), 64) == self.ofdm,
            spec_bit(self.spec_raw_low(), 128) == self.ghz2,
            spec_bit(self.spec_raw_low(), 256) == self.ghz5,
            spec_bit(self.spec_raw_low(), 512) == self.passive,
            spec_bit(self.spec_raw_low(), 1024) == self.dynamic,
            spec_bit(self.spec_raw_low(), 2048) == self.gfsk,
    {
    }

    proof fn lemma_high_bits(self)
        ensures
            0 <= self.spec_raw_high() < 1048576,
            spec_bit(self.spec_raw_high(), 1) == self.gsm,
            spec_bit(self.spec_raw_high(), 2) == self.sturbo,
            spec_bit(self.spec_raw_high(), 4) == self.half,
            spec_bit(self.spec_raw_high(), 8) == self.quarter,
            spec_bit(self.spec_raw_high(), 16) == self.ht20,
            spec_bit(self.spec_raw_high(), 32) == self.ht40u,
            spec_bit(self.spec_raw_high(), 64) == self.ht40d,
    {
    }

    proof fn lemma_halves(low: int, high: int)
        requires
            0 <= low < 4096,
            0 <= high,
        ensures
            spec_bit(low + 4096 * high, 16) == spec_bit(low, 16),
            spec_bit(low + 4096 * high, 32) == spec_bit(low, 32),
            spec_bit(low + 4096 * high, 64) == spec_bit(low, 64),
            spec_bit(low + 4096 * high, 128) == spec_bit(low, 128),
            spec_bit(low + 4096 * high, 256) == spec_bit(low, 256),
            spec_bit(low + 4096 * high, 512) == spec_bit(low, 512),
            spec_bit(low + 4096 * high, 1024) == spec_bit(low, 1024),
            spec_bit(low + 4096 * high, 2048) == spec_bit(low, 2048),
            spec_bit(low + 4096 * high, 4096) == spec_bit(high, 1),
            spec_bit(low + 4096 * high, 8192) == spec_bit(high, 2),
            spec_bit(low + 4096 * high, 16384) == spec_bit(high, 4),
            spec_bit(low + 4096 * high, 32768) == spec_bit(high, 8),
            spec_bit(low + 4096 * high, 65536) == spec_bit(high, 16),
            spec_bit(low + 4096 * high, 131072) == spec_bit(high, 32),
            spec_bit(low + 4096 * high, 262144) == spec_bit(high, 64),
    {
        assert(((low + 4096 * high) / 16) % 2 == (low / 16) % 2) by (nonlinear_arith)
            requires
                0 <= low < 4096,
                0 <= high,
        ;
        assert(((low + 4096 * high) / 32) % 2 == (low / 32) % 2) by (nonlinear_arith)
            requires
                0 <= low < 4096,
                0 <= high,
        ;
        assert(((low + 4096 * high) / 64) % 2 == (low / 64) % 2) by (nonlinear_arith)
            requires
                0 <= low < 4096,
                0 <= high,
        ;
        assert(((low + 4096 * high) / 128) % 2 == (low / 128) % 2) by (nonlinear_arith)
            requires
                0 <= low < 4096,
                0 <= high,
        ;
        assert(((low + 4096 * high) / 256) % 2 == (low / 256) % 2) by (nonlinear_arith)
            requires
                0 <= low < 4096,
                0 <= high,
        ;
        assert(((low + 4096 * high) / 512) % 2 == (low / 512) % 2) by (nonlinear_arith)
            requires
                0 <= low < 4096,
                0 <= high,
        ;
        assert(((low + 4096 * high) / 1024) % 2 == (low / 1024) % 2) by (nonlinear_arith)
            requires
                0 <= low < 4096,
                0 <= high,
        ;
        assert(((low + 4096 * high) / 2048) % 2 == (low / 2048) % 2) by (nonlinear_arith)
            requires
                0 <= low < 4096,
                0 <= high,
        ;
        assert(((low + 4096 * high) / 4096) % 2 == (high / 1) % 2) by (nonlinear_arith)
            requires
                0 <= low < 4096,
                0 <= high,
        ;
        assert(((low + 4096 * high) / 8192) % 2 == (high / 2) % 2) by (nonlinear_arith)
            requires
                0 <= low < 4096,
                0 <= high,
        ;
        assert(((low + 4096 * high) / 16384) % 2 == (high / 4) % 2) by (nonlinear_arith)
            requires
                0 <= low < 4096,
                0 <= high,
        ;
        assert(((low + 4096 * high) / 32768) % 2 == (high / 8) % 2) by (nonlinear_arith)
            requires
                0 <= low < 4096,
                0 <= high,
        ;
        assert(((low + 4096 * high) / 65536) % 2 == (high / 16) % 2) by (nonlinear_arith)
            requires
                0 <= low < 4096,
                0 <= high,
        ;
        assert(((low + 4096 * high) / 131072) % 2 == (high / 32) % 2) by (nonlinear_arith)
            requires
                0 <= low < 4096,
                0 <= high,
        ;
        assert(((low + 4096 * high) / 262144) % 2 == (high / 64) % 2) by (nonlinear_arith)
            requires
                0 <= low < 4096,
                0 <= high,
        ;
    }

    /// Packing the flags and reading them again gives the flags back.
    pub proof fn lemma_raw_round_trip(self)
        ensures
            0 <= self.spec_raw() < 4294967296,
            XChannelFlags::spec_of_raw(self.spec_raw()) == self,
    {
        self.lemma_low_bits();
        self.lemma_high_bits();
        XChannelFlags::lemma_halves(self.spec_raw_low(), self.spec_raw_high());
    }
}

/// The guard interval between symbols.
#[derive(Debug, Clone, Copy, PartialEq, Eq)]
pub enum GuardInterval {
    /// 800 ns.
    Long,
    /// 400 ns.
    Short,
}

/// The format of an HT frame.
#[derive(Debug, Clone, Copy, PartialEq, Eq)]
pub enum HTFormat {
    Mixed,
    Greenfield,
}

/// The forward error correction code.
#[derive(Debug, Clone, Copy, PartialEq, Eq)]
pub enum FEC {
    /// Binary convolutional code.
    BCC,
    /// Low-density parity check.
    LDPC,
}

/// The unit of a timestamp.
#[derive(Debug, Clone, Copy, PartialEq, Eq)]
pub enum TimeUnit {
    Milliseconds,
    Microseconds,
    Nanoseconds,
}

/// The point of the frame at which a timestamp was taken.
#[derive(Debug, Clone, Copy, PartialEq, Eq)]
pub enum SamplingPosition {
    /// The first bit of the MPDU.
    StartMPDU,
    /// The signal acquisition at the start of the PLCP.
    StartPLCP,
    /// The end of the PPDU.
    EndPPDU,
    /// The end of the MPDU.
    EndMPDU,
    /// Not known, or defined by the vendor.
    Unknown,
}

impl TimeUnit {
    /// The unit that a code stands for.
    pub open spec fn spec_new(code: int) -> Option<TimeUnit> {
        if code == 0 {
            Some(TimeUnit::Milliseconds)
        } else if code == 1 {
            Some(TimeUnit::Microseconds)
        } else if code == 2 {
            Some(TimeUnit::Nanoseconds)
        } else {
            None
        }
    }

    /// The code of the unit.
    pub open spec fn spec_code(self) -> int {
        match self {
            TimeUnit::Milliseconds => 0,
            TimeUnit::Microseconds => 1,
            TimeUnit::Nanoseconds => 2,
        }
    }

    /// Returns the unit that `code` stands for.
    pub fn new(code: u8) -> (r: Result<TimeUnit, Error>)
        ensures
            match TimeUnit::spec_new(code as int) {
                Some(unit) => r == Ok::<TimeUnit, Error>(unit),
                None => r == Err::<TimeUnit, Error>(Error::InvalidFormat),
            },
    {
        match code {
            0 => Ok(TimeUnit::Milliseconds),
            1 => Ok(TimeUnit::Microseconds),
            2 => Ok(TimeUnit::Nanoseconds),
            _ => Err(Error::InvalidFormat),
        }
    }

    /// Returns the code of the unit.
    pub fn code(&self) -> (r: u8)
        ensures
            r == self.spec_code(),
            TimeUnit::spec_new(r as int) == Some(*self),
    {
        match *self {
            TimeUnit::Milliseconds => 0,
            TimeUnit::Microseconds => 1,
            TimeUnit::Nanoseconds => 2,
        }
    }
}

impl SamplingPosition {
    /// The position that a code stands for.
    pub open spec fn spec_new(code: int) -> Option<SamplingPosition> {
        if code == 0 {
            Some(SamplingPosition::StartMPDU)
        } else if code == 1 {
            Some(SamplingPosition::StartPLCP)
        } else if code == 2 {
            Some(SamplingPosition::EndPPDU)
        } else if code == 3 {
            Some(SamplingPosition::EndMPDU)
        } else if code == 15 {
            Some(SamplingPosition::Unknown)
        } else {
            None
        }
    }

    /// The code of the position.
    pub open spec fn spec_code(self) -> int {
        match self {
            SamplingPosition::StartMPDU => 0,
            SamplingPosition::StartPLCP => 1,
            SamplingPosition::EndPPDU => 2,
            SamplingPosition::EndMPDU => 3,
            SamplingPosition::Unknown => 15,
        }
    }

    /// Returns the position that `code` stands for.
    pub fn new(code: u8) -> (r: Result<SamplingPosition, Error>)
        ensures
            match SamplingPosition::spec_new(code as int) {
                Some(position) => r == Ok::<SamplingPosition, Error>(position),
                None => r == Err::<SamplingPosition, Error>(Error::InvalidFormat),
            },
    {
        match code {
            0 => Ok(SamplingPosition::StartMPDU),
            1 => Ok(SamplingPosition::StartPLCP),
            2 => Ok(SamplingPosition::EndPPDU),
            3 => Ok(SamplingPosition::EndMPDU),
            15 => Ok(SamplingPosition::Unknown),
            _ => Err(Error::InvalidFormat),
        }
    }

    /// Returns the code of the position.
    pub fn code(&self) -> (r: u8)
        ensures
            r == self.spec_code(),
            SamplingPosition::spec_new(r as int) == Some(*self),
    {
        match *self {
            SamplingPosition::StartMPDU => 0,
            SamplingPosition::StartPLCP => 1,
            SamplingPosition::EndPPDU => 2,
            SamplingPosition::EndMPDU => 3,
            SamplingPosition::Unknown => 15,
        }
    }
}

/// The largest code of a bandwidth.
pub const MAX_BANDWIDTH_CODE: u8 = 25;

/// The bandwidth of a transmission, and the part of it that was used.
#[derive(Debug, Clone, Copy, PartialEq, Eq)]
pub struct Bandwidth {
    /// The code of the bandwidth in a capture, from 0 to 25.
    pub code: u8,
}

impl Bandwidth {
    /// The whole bandwidth in MHz.
    pub open spec fn spec_bandwidth(self) -> int {
        if self.code == 0 {
            20
        } else if self.code <= 3 {
            40
        } else if self.code <= 10 {
            80
        } else {
            160
        }
    }

    /// The width in MHz of the sideband used, where only a part of the
    /// bandwidth was used.
    pub open spec fn spec_sideband(self) -> Option<u8> {
        let c = self.code;
        if c == 0 || c == 1 || c == 4 || c == 11 {
            None
        } else if c == 12 || c == 13 {
            Some(80u8)
        } else if c == 5 || c == 6 || (14 <= c && c <= 17) {
            Some(40u8)
        } else {
            Some(20u8)
        }
    }

    /// The position of the sideband used, counted from the lowest.
    pub open spec fn spec_sideband_index(self) -> Option<u8> {
        let c = self.code;
        if c == 0 || c == 1 || c == 4 || c == 11 {
            None
        } else if c <= 3 {
            Some((c - 2) as u8)
        } else if c <= 6 {
            Some((c - 5) as u8)
        } else if c <= 10 {
            Some((c - 7) as u8)
        } else if c <= 13 {
            Some((c - 12) as u8)
        } else if c <= 17 {
            Some((c - 14) as u8)
        } else {
            Some((c - 18) as u8)
        }
    }

    /// Returns the bandwidth that `value` stands for.
    pub fn new(value: u8) -> (r: Result<Bandwidth, Error>)
        ensures
            value <= MAX_BANDWIDTH_CODE ==> r == Ok::<Bandwidth, Error>((Bandwidth { code: value })),
            value > MAX_BANDWIDTH_CODE ==> r == Err::<Bandwidth, Error>(Error::InvalidFormat),
    {
        if value > MAX_BANDWIDTH_CODE {
            Err(Error::InvalidFormat)
        } else {
            Ok(Bandwidth { code: value })
        }
    }

    /// Returns the whole bandwidth in MHz.
    pub fn bandwidth(&self) -> (r: u8)
        ensures
            r == self.spec_bandwidth(),
    {
        if self.code == 0 {
            20
        } else if self.code <= 3 {
            40
        } else if self.code <= 10 {
            80
        } else {
            160
        }
    }

    /// Returns the width in MHz of the sideband used, if only a part of the
    /// bandwidth was used.
    pub fn sideband(&self) -> (r: Option<u8>)
        ensures
            r == self.spec_sideband(),
    {
        let c = self.code;
        if c == 0 || c == 1 || c == 4 || c == 11 {
            None
        } else if c == 12 || c == 13 {
            Some(80)
        } else if c == 5 || c == 6 || (14 <= c && c <= 17) {
            Some(40)
        } else {
            Some(20)
        }
    }

    /// Returns the position of the sideband used, counted from the lowest.
    pub fn sideband_index(&self) -> (r: Option<u8>)
        ensures
            r == self.spec_sideband_index(),
    {
        let c = self.code;
        if c == 0 || c == 1 || c == 4 || c == 11 {
            None
        } else if c <= 3 {
            Some(c - 2)
        } else if c <= 6 {
            Some(c - 5)
        } else if c <= 10 {
            Some(c - 7)
        } else if c <= 13 {
            Some(c - 12)
        } else if c <= 17 {
            Some(c - 14)
        } else {
            Some(c - 18)
        }
    }
}

/// The number of data subcarriers in a channel of the given width in MHz.
pub open spec fn spec_subcarriers(mhz: int) -> int {
    if mhz == 20 {
        52
    } else if mhz == 40 {
        108
    } else if mhz == 80 {
        234
    } else {
        468
    }
}

/// Six times the number of data bits that one subcarrier carries per symbol
/// with modulation and coding scheme `scheme`, from 0 to 9.
pub open spec fn spec_sixths(scheme: int) -> int {
    if scheme == 0 {
        3
    } else if scheme == 1 {
        6
    } else if scheme == 2 {
        9
    } else if scheme == 3 {
        12
    } else if scheme == 4 {
        18
    } else if scheme == 5 {
        24
    } else if scheme == 6 {
        27
    } else if scheme == 7 {
        30
    } else if scheme == 8 {
        36
    } else {
        40
    }
}

/// The data rate in Kbps, rounded down: the data bits of one symbol over all
/// subcarriers and streams, divided by the duration of a symbol, which is
/// 4 microseconds with the long guard interval and 3.6 with the short one.
pub open spec fn spec_rate(mhz: int, scheme: int, gi: GuardInterval, streams: int) -> int {
    let sixths = spec_subcarriers(mhz) * spec_sixths(scheme) * streams;
    match gi {
        GuardInterval::Long => sixths * 125 / 3,
        GuardInterval::Short => sixths * 1250 / 27,
    }
}

/// The data rate in Kbps of an HT transmission, where index, bandwidth and
/// guard interval are known and the index is one of the 32 defined ones.
pub open spec fn spec_ht_rate(
    index: Option<u8>,
    bw: Option<Bandwidth>,
    gi: Option<GuardInterval>,
) -> Option<u32> {
    if index is Some && bw is Some && gi is Some && index->0 < 32 {
        Some(
            spec_rate(
                if bw->0.code == 0 {
                    20
                } else {
                    40
                },
                index->0 as int % 8,
                gi->0,
                index->0 as int / 8 + 1,
            ) as u32,
        )
    } else {
        None
    }
}

/// The data rate in Kbps of one user of a VHT transmission, where bandwidth
/// and guard interval are known and the index is one of the 10 defined ones.
pub open spec fn spec_vht_rate(
    index: u8,
    bw: Option<Bandwidth>,
    gi: Option<GuardInterval>,
    nss: u8,
) -> Option<u32> {
    if bw is Some && gi is Some && index < 10 {
        Some(spec_rate(bw->0.spec_bandwidth(), index as int, gi->0, nss as int) as u32)
    } else {
        None
    }
}

fn subcarriers(mhz: u8) -> (r: u32)
    ensures
        r == spec_subcarriers(mhz as int),
{
    if mhz == 20 {
        52
    } else if mhz == 40 {
        108
    } else if mhz == 80 {
        234
    } else {
        468
    }
}

fn sixths(scheme: u8) -> (r: u32)
    ensures
        r == spec_sixths(scheme as int),
        3 <= r <= 40,
{
    match scheme {
        0 => 3,
        1 => 6,
        2 => 9,
        3 => 12,
        4 => 18,
        5 => 24,
        6 => 27,
        7 => 30,
        8 => 36,
        _ => 40,
    }
}

fn rate(mhz: u8, scheme: u8, gi: GuardInterval, streams: u8) -> (r: u32)
    ensures
        r == spec_rate(mhz as int, scheme as int, gi, streams as int),
{
    let carriers = subcarriers(mhz);
    let bits = sixths(scheme);
    assert(carriers * bits <= 468 * 40) by (nonlinear_arith)
        requires
            0 <= carriers <= 468,
            0 <= bits <= 40,
    ;
    let per_stream: u32 = carriers * bits;
    assert(per_stream * streams <= 18720 * 255) by (nonlinear_arith)
        requires
            0 <= per_stream <= 18720,
            0 <= streams <= 255,
    ;
    let total: u64 = (per_stream * (streams as u32)) as u64;
    match gi {
        GuardInterval::Long => (total * 125 / 3) as u32,
        GuardInterval::Short => (total * 1250 / 27) as u32,
    }
}

/// Returns the data rate in Kbps of an HT transmission, if index, bandwidth
/// and guard interval are known and the index is one of the 32 defined ones.
pub fn ht_rate(index: Option<u8>, bw: Option<Bandwidth>, gi: Option<GuardInterval>) -> (r: Option<
    u32,
>)
    ensures
        r == spec_ht_rate(index, bw, gi),
{
    match (index, bw, gi) {
        (Some(index), Some(bw), Some(gi)) => {
            if index < 32 {
                let mhz: u8 = if bw.code == 0 {
                    20
                } else {
                    40
                };
                Some(rate(mhz, index % 8, gi, index / 8 + 1))
            } else {
                None
            }
        },
        _ => None,
    }
}

/// Returns the data rate in Kbps of one user of a VHT transmission, if
/// bandwidth and guard interval are known and the index is one of the 10
/// defined ones.
pub fn vht_rate(index: u8, bw: Option<Bandwidth>, gi: Option<GuardInterval>, nss: u8) -> (r: Option<
    u32,
>)
    ensures
        r == spec_vht_rate(index, bw, gi, nss),
{
    match (bw, gi) {
        (Some(bw), Some(gi)) => {
            if index < 10 {
                Some(rate(bw.bandwidth(), index, gi, nss))
            } else {
                None
            }
        },
        _ => None,
    }
}

/// One user of a VHT transmission.
#[derive(Debug, Clone, Copy, PartialEq, Eq)]
pub struct VHTUser {
    /// The index of the modulation and coding scheme.
    pub index: u8,
    /// The forward error correction code.
    pub fec: FEC,
    /// The number of spatial streams.
    pub nss: u8,
    /// The number of space-time streams.
    pub nsts: u8,
    /// The data rate in Kbps, where it can be told.
    pub datarate: Option<u32>,
}

} // verus!
