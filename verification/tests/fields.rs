use radiotap::bytes::{
    bit, byte_of_i8, flag, i8_of, read_u16, read_u32, read_u64, write_u16, write_u32, write_u64,
    write_zeros,
};
use radiotap::field::ext::{
    ht_rate, vht_rate, Bandwidth, ChannelFlags, GuardInterval, SamplingPosition, TimeUnit,
    XChannelFlags,
};
use radiotap::field::{
    AMPDUStatus, Channel, Field, Flags, Kind, Rate, RxFlags, Timestamp, TxFlags, VendorNamespace,
    XChannel, FHSS, TSFT,
};
use radiotap::order::{fold_length, sort_by_bit};
use radiotap::Error;

const KINDS: [Kind; 23] = [
    Kind::TSFT,
    Kind::Flags,
    Kind::Rate,
    Kind::Channel,
    Kind::FHSS,
    Kind::AntennaSignal,
    Kind::AntennaNoise,
    Kind::LockQuality,
    Kind::TxAttenuation,
    Kind::TxAttenuationDb,
    Kind::TxPower,
    Kind::Antenna,
    Kind::AntennaSignalDb,
    Kind::AntennaNoiseDb,
    Kind::RxFlags,
    Kind::TxFlags,
    Kind::RTSRetries,
    Kind::DataRetries,
    Kind::XChannel,
    Kind::MCS,
    Kind::AMPDUStatus,
    Kind::VHT,
    Kind::Timestamp,
];

#[test]
fn kind_catalog() {
    let sizes = [8, 1, 1, 4, 2, 1, 1, 2, 2, 2, 1, 1, 1, 1, 2, 2, 1, 1, 8, 3, 8, 12, 12];
    let aligns = [8, 1, 1, 2, 2, 1, 1, 2, 2, 2, 1, 1, 1, 1, 2, 2, 1, 1, 4, 1, 4, 2, 8];
    for (i, kind) in KINDS.iter().enumerate() {
        assert_eq!(kind.bit() as usize, i);
        assert_eq!(kind.size(), sizes[i]);
        assert_eq!(kind.align(), aligns[i]);
        assert_eq!(Kind::new(i as u8).unwrap(), *kind);
        assert!(!kind.is_vendor());
    }
    let vendor = Kind::VendorNamespace(None);
    assert_eq!(vendor.bit(), 30);
    assert_eq!(vendor.size(), 6);
    assert_eq!(vendor.align(), 2);
    assert!(vendor.is_vendor());
}

#[test]
fn unsupported_field() {
    assert_eq!(Kind::new(23).unwrap_err(), Error::UnsupportedField);
    assert_eq!(Kind::new(30).unwrap_err(), Error::UnsupportedField);
    assert_eq!(Kind::new(255).unwrap_err(), Error::UnsupportedField);
}

#[test]
fn every_field_reads_back() {
    for kind in KINDS.iter() {
        // Bytes that are valid for every kind: a timestamp in milliseconds, a
        // bandwidth of 20 MHz.
        let data = [1u8, 2, 3, 0, 5, 6, 7, 8, 9, 10, 0, 2];
        let field = Field::from_bytes(kind, &data[..kind.size()]).unwrap().unwrap();
        assert_eq!(field.kind(), *kind);
        let mut bytes = Vec::new();
        assert_eq!(field.unparse(&mut bytes), kind.size());
        assert_eq!(Field::from_bytes(kind, &bytes).unwrap(), Some(field));
        assert_eq!(
            Field::from_bytes(kind, &data[..kind.size() - 1]).unwrap_err(),
            Error::ParseError
        );
    }
    assert_eq!(Field::from_bytes(&Kind::VendorNamespace(None), &[]).unwrap(), None);
}

#[test]
fn integers_are_little_endian() {
    let data = [1, 2, 3, 4, 5, 6, 7, 8, 9];
    assert_eq!(read_u16(&data, 1), 0x0302);
    assert_eq!(read_u32(&data, 1), 0x05040302);
    assert_eq!(read_u64(&data, 1), 0x0908070605040302);
    let mut out = Vec::new();
    write_u16(&mut out, 0x0302);
    write_u32(&mut out, 0x07060504);
    write_u64(&mut out, 0x0f0e0d0c0b0a0908);
    write_zeros(&mut out, 2);
    assert_eq!(out, vec![2, 3, 4, 5, 6, 7, 8, 9, 10, 11, 12, 13, 14, 15, 0, 0]);
    assert_eq!(i8_of(255), -1);
    assert_eq!(i8_of(128), -128);
    assert_eq!(i8_of(127), 127);
    assert_eq!(byte_of_i8(-1), 255);
    assert_eq!(byte_of_i8(-128), 128);
    assert_eq!(byte_of_i8(5), 5);
    assert!(bit(0x50, 16));
    assert!(!bit(0x50, 32));
    assert!(bit(0x8000_0000, 0x8000_0000));
    assert_eq!(flag(true, 64), 64);
    assert_eq!(flag(false, 64), 0);
}

#[test]
fn flag_bits() {
    let flags = Flags::from_bytes(&[0x95]).unwrap();
    assert_eq!(
        flags,
        Flags { cfp: true, wep: true, fcs: true, sgi: true, ..Default::default() }
    );
    assert_eq!(flags.raw(), 0x95);
    assert_eq!(RxFlags::from_bytes(&[2, 0]).unwrap(), RxFlags { bad_plcp: true });
    assert_eq!(RxFlags::from_bytes(&[253, 255]).unwrap(), RxFlags { bad_plcp: false });
    assert_eq!(
        TxFlags::from_bytes(&[0x19, 0]).unwrap(),
        TxFlags { fail: true, no_ack: true, no_seq: true, ..Default::default() }
    );
    let channel = ChannelFlags::of_raw(0x0a50);
    assert_eq!(
        channel,
        ChannelFlags { turbo: true, ofdm: true, passive: true, gfsk: true, ..Default::default() }
    );
    assert_eq!(channel.raw(), 0x0a50);
    let x = XChannelFlags::of_raw(0x0007_f000);
    assert_eq!(
        x,
        XChannelFlags {
            gsm: true,
            sturbo: true,
            half: true,
            quarter: true,
            ht20: true,
            ht40u: true,
            ht40d: true,
            ..Default::default()
        }
    );
    assert_eq!(x.raw(), 0x0007_f000);
    let mut out = Vec::new();
    XChannel { flags: x, freq: 0x1234, channel: 7, max_power: 9 }.unparse(&mut out);
    assert_eq!(out, vec![0, 0xf0, 7, 0, 0x34, 0x12, 7, 9]);
    assert_eq!(
        Channel::from_bytes(&[0x6c, 0x09, 0x80, 0x04]).unwrap(),
        Channel {
            freq: 2412,
            flags: ChannelFlags { ghz2: true, dynamic: true, ..Default::default() }
        }
    );
}

#[test]
fn simple_fields() {
    assert_eq!(TSFT::from_bytes(&[1, 0, 0, 0, 0, 0, 0, 1]).unwrap().value, (1 << 56) + 1);
    assert_eq!(Rate::from_bytes(&[108]).unwrap(), Rate { value: 108 });
    assert_eq!(FHSS::from_bytes(&[3, 4]).unwrap(), FHSS { hopset: 3, pattern: 4 });
    assert_eq!(FHSS::from_bytes(&[3]).unwrap_err(), Error::ParseError);
    let mut out = Vec::new();
    assert_eq!(TSFT { value: 0x0102030405060708 }.unparse(&mut out), 8);
    assert_eq!(out, vec![8, 7, 6, 5, 4, 3, 2, 1]);
}

#[test]
fn ampdu_status_flags() {
    let status = AMPDUStatus::from_bytes(&[1, 0, 0, 0, 0x2d, 0, 99, 0]).unwrap();
    assert_eq!(
        status,
        AMPDUStatus {
            reference: 1,
            zero_length: Some(false),
            last: Some(true),
            delimiter_crc: Some(99),
        }
    );
    let mut out = Vec::new();
    status.unparse(&mut out);
    assert_eq!(out, vec![1, 0, 0, 0, 0x2d, 0, 99, 0]);
}

#[test]
fn timestamp_codes() {
    let stamp = Timestamp::from_bytes(&[5, 0, 0, 0, 0, 0, 0, 0, 7, 0, 0xf2, 2]).unwrap();
    assert_eq!(
        stamp,
        Timestamp {
            timestamp: 5,
            unit: TimeUnit::Nanoseconds,
            position: SamplingPosition::Unknown,
            accuracy: Some(7),
        }
    );
    assert_eq!(TimeUnit::new(1).unwrap(), TimeUnit::Microseconds);
    assert_eq!(TimeUnit::Microseconds.code(), 1);
    assert_eq!(TimeUnit::new(3).unwrap_err(), Error::InvalidFormat);
    assert_eq!(SamplingPosition::new(2).unwrap(), SamplingPosition::EndPPDU);
    assert_eq!(SamplingPosition::EndMPDU.code(), 3);
    assert_eq!(SamplingPosition::new(4).unwrap_err(), Error::InvalidFormat);
    assert_eq!(
        Timestamp::from_bytes(&[5, 0, 0, 0, 0, 0, 0, 0, 7, 0, 0x42, 2]).unwrap_err(),
        Error::InvalidFormat
    );
}

#[test]
fn vendor_namespace_descriptor() {
    assert_eq!(
        VendorNamespace::from_bytes(&[0, 0x50, 0xf2, 1, 4, 1, 9]).unwrap(),
        VendorNamespace { oui: [0, 0x50, 0xf2], sub_namespace: 1, skip_length: 260 }
    );
    assert_eq!(VendorNamespace::from_bytes(&[0, 0x50, 0xf2, 1, 4]).unwrap_err(), Error::ParseError);
}

#[test]
fn bandwidth_codes() {
    assert_eq!(Bandwidth::new(26).unwrap_err(), Error::InvalidFormat);
    let widths = [20, 40, 40, 40, 80, 80, 80, 80, 80, 80, 80, 160];
    for (code, width) in widths.iter().enumerate() {
        assert_eq!(Bandwidth::new(code as u8).unwrap().bandwidth(), *width);
    }
    assert_eq!(Bandwidth::new(25).unwrap().bandwidth(), 160);
    assert_eq!(Bandwidth::new(0).unwrap().sideband(), None);
    assert_eq!(Bandwidth::new(3).unwrap().sideband(), Some(20));
    assert_eq!(Bandwidth::new(3).unwrap().sideband_index(), Some(1));
    assert_eq!(Bandwidth::new(6).unwrap().sideband(), Some(40));
    assert_eq!(Bandwidth::new(10).unwrap().sideband_index(), Some(3));
    assert_eq!(Bandwidth::new(13).unwrap().sideband(), Some(80));
    assert_eq!(Bandwidth::new(17).unwrap().sideband(), Some(40));
    assert_eq!(Bandwidth::new(25).unwrap().sideband(), Some(20));
    assert_eq!(Bandwidth::new(25).unwrap().sideband_index(), Some(7));
}

#[test]
fn data_rates() {
    let long = Some(GuardInterval::Long);
    let short = Some(GuardInterval::Short);
    let mhz20 = Some(Bandwidth { code: 0 });
    let mhz40 = Some(Bandwidth { code: 1 });
    let mhz80 = Some(Bandwidth { code: 4 });
    let mhz160 = Some(Bandwidth { code: 11 });
    assert_eq!(ht_rate(Some(0), mhz20, long), Some(6_500));
    assert_eq!(ht_rate(Some(0), mhz20, short), Some(7_222));
    assert_eq!(ht_rate(Some(7), mhz20, long), Some(65_000));
    assert_eq!(ht_rate(Some(7), mhz40, short), Some(150_000));
    assert_eq!(ht_rate(Some(15), mhz40, long), Some(270_000));
    assert_eq!(ht_rate(Some(31), mhz40, short), Some(600_000));
    assert_eq!(ht_rate(Some(32), mhz40, short), None);
    assert_eq!(ht_rate(None, mhz40, short), None);
    assert_eq!(ht_rate(Some(1), None, short), None);
    assert_eq!(ht_rate(Some(1), mhz40, None), None);
    assert_eq!(vht_rate(0, mhz80, long, 1), Some(29_250));
    assert_eq!(vht_rate(9, mhz80, short, 1), Some(433_333));
    assert_eq!(vht_rate(9, mhz160, short, 8), Some(6_933_333));
    assert_eq!(vht_rate(1, mhz80, long, 4), Some(234_000));
    assert_eq!(vht_rate(10, mhz80, long, 4), None);
    assert_eq!(vht_rate(1, None, long, 4), None);
}

#[test]
fn sort_is_stable_and_ascending() {
    let kinds = vec![
        Kind::VHT,
        Kind::VendorNamespace(None),
        Kind::TSFT,
        Kind::Rate,
        Kind::VendorNamespace(Some(VendorNamespace {
            oui: [1, 2, 3],
            sub_namespace: 4,
            skip_length: 5,
        })),
        Kind::Flags,
    ];
    let sorted = sort_by_bit(&kinds);
    assert_eq!(
        sorted,
        vec![Kind::TSFT, Kind::Flags, Kind::Rate, Kind::VHT, kinds[1], kinds[4]]
    );
    assert_eq!(sort_by_bit(&vec![]), vec![]);
    assert_eq!(fold_length(8, &sorted[..4].to_vec()), 8 + 8 + 1 + 1 + 12);
    assert_eq!(fold_length(3, &vec![Kind::Timestamp]), 20);
}
