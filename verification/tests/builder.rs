use radiotap::builder::RadiotapBuilder;
use radiotap::field::ext::{
    Bandwidth, ChannelFlags, GuardInterval, SamplingPosition, TimeUnit, XChannelFlags,
};
use radiotap::field::{
    AMPDUStatus, Antenna, AntennaNoise, AntennaNoiseDb, AntennaSignal, AntennaSignalDb, Channel,
    DataRetries, Field, Flags, Header, Kind, LockQuality, RTSRetries, Rate, RxFlags, Timestamp,
    TxAttenuation, TxAttenuationDb, TxFlags, TxPower, XChannel, FHSS, MCS, TSFT, VHT,
};
use radiotap::Radiotap;

/// A rate in Mbps as the number of 500 Kbps units that a capture stores.
fn half_mbps(mbps: f32) -> u8 {
    (mbps * 2.0) as u8
}

/// The capture that the builder gives for one field.
fn single(kind: Kind) -> Radiotap {
    Radiotap {
        header: Header { version: 0, length: 8 + kind.size(), size: 8, present: vec![kind] },
        ..Default::default()
    }
}

#[test]
fn set_none() {
    let actual = Radiotap::build().done();
    let expected = Radiotap::default();
    assert_eq!(actual, expected);
}

#[test]
fn set_multiple() {
    let actual = Radiotap::build()
        .tsft(TSFT { value: 42 })
        .timestamp(Timestamp {
            timestamp: 700,
            unit: TimeUnit::Microseconds,
            position: SamplingPosition::StartMPDU,
            accuracy: None,
        })
        .rate(Rate { value: half_mbps(15.0) })
        .flags(Flags { wep: true, fragmentation: true, data_pad: true, ..Default::default() })
        .channel(Channel {
            freq: 2500,
            flags: ChannelFlags { turbo: true, ..Default::default() },
        })
        .done();
    let expected = Radiotap {
        header: Header {
            version: 0,
            length: 36, // header length + length of all fields + alignment of the timestamp field
            size: 8,
            present: vec![Kind::TSFT, Kind::Flags, Kind::Rate, Kind::Channel, Kind::Timestamp],
        },
        tsft: Some(TSFT { value: 42 }),
        flags: Some(Flags { wep: true, fragmentation: true, data_pad: true, ..Default::default() }),
        rate: Some(Rate { value: half_mbps(15.0) }),
        channel: Some(Channel {
            freq: 2500,
            flags: ChannelFlags { turbo: true, ..Default::default() },
        }),
        timestamp: Some(Timestamp {
            timestamp: 700,
            unit: TimeUnit::Microseconds,
            position: SamplingPosition::StartMPDU,
            accuracy: None,
        }),
        ..Default::default()
    };
    assert_eq!(actual, expected);
}

#[test]
fn set_twice() {
    let actual = Radiotap::build().tsft(TSFT { value: 42 }).tsft(TSFT { value: 84 }).done();
    let expected = Radiotap {
        header: Header {
            version: 0,
            length: 16,
            size: 8,
            // only one entry in the present vector
            present: vec![Kind::TSFT],
        },
        // last update wins
        tsft: Some(TSFT { value: 84 }),
        ..Default::default()
    };
    assert_eq!(actual, expected);
}

#[test]
fn default_header() {
    let header = Header::default();
    assert_eq!(header, Header { version: 0, length: 8, size: 8, present: vec![] });
    let tap = RadiotapBuilder::default().done();
    assert_eq!(tap.header, header);
    assert_eq!(tap.tsft, None);
    assert_eq!(tap.vht, None);
}

#[test]
fn order_of_calls_does_not_matter() {
    let one = Radiotap::build()
        .channel(Channel { freq: 2412, flags: ChannelFlags::default() })
        .tsft(TSFT { value: 1 })
        .rate(Rate { value: 2 })
        .done();
    let other = Radiotap::build()
        .rate(Rate { value: 2 })
        .channel(Channel { freq: 2412, flags: ChannelFlags::default() })
        .tsft(TSFT { value: 1 })
        .done();
    assert_eq!(one, other);
    assert_eq!(one.header.present, vec![Kind::TSFT, Kind::Rate, Kind::Channel]);
}

#[test]
fn length_folds_alignment_and_size() {
    // 8 -> 16 for the TSFT, 16 -> 17 for the rate, 17 -> 18 to align the
    // channel, 18 -> 22 for the channel.
    let tap = Radiotap::build()
        .tsft(TSFT { value: 0 })
        .rate(Rate { value: 0 })
        .channel(Channel { freq: 0, flags: ChannelFlags::default() })
        .done();
    assert_eq!(tap.header.length, 22);
    let tap = Radiotap::build().tsft(TSFT { value: 0 }).done();
    assert_eq!(tap.header.length, 16);
    let tap = Radiotap::build().tsft(TSFT { value: 0 }).rate(Rate { value: 0 }).done();
    assert_eq!(tap.header.length, 17);
}

#[test]
fn padding_before_an_unaligned_field() {
    // The flags end at offset 9; the 4-byte boundary of the extended channel
    // is 12, so that (4 - 9 % 4) % 4 = 3 bytes of padding come before it.
    let tap = Radiotap::build()
        .flags(Flags::default())
        .xchannel(XChannel { flags: XChannelFlags::default(), freq: 1, channel: 2, max_power: 3 })
        .done();
    assert_eq!(tap.header.length, 8 + 1 + 3 + 8);
    let mut bytes = Vec::new();
    assert_eq!(tap.unparse(&mut bytes).unwrap(), 20);
    assert_eq!(&bytes[8..], &[0, 0, 0, 0, 0, 0, 0, 0, 1, 0, 2, 3]);
    assert_eq!(radiotap::bytes::padding(9, 4), 3);
    assert_eq!(radiotap::bytes::padding(12, 4), 0);
    assert_eq!(radiotap::bytes::padding(17, 2), 1);
    assert_eq!(radiotap::bytes::padding(17, 8), 7);
    assert_eq!(radiotap::bytes::padding(0, 8), 0);
}

#[test]
fn set_takes_any_field() {
    let actual = RadiotapBuilder::new()
        .set(Field::Antenna(Antenna { value: 2 }))
        .set(Field::Rate(Rate { value: 12 }))
        .set(Field::Antenna(Antenna { value: 3 }))
        .done();
    assert_eq!(actual.header.present, vec![Kind::Rate, Kind::Antenna]);
    assert_eq!(actual.antenna, Some(Antenna { value: 3 }));
    assert_eq!(actual.get(&Kind::Rate), Some(Field::Rate(Rate { value: 12 })));
    assert_eq!(actual.get(&Kind::TSFT), None);
    assert_eq!(actual.get(&Kind::VendorNamespace(None)), None);
}

#[test]
fn tsft() {
    let value = TSFT { value: 42 };
    let actual = RadiotapBuilder::new().tsft(value).done();
    assert_eq!(actual, Radiotap { tsft: Some(value), ..single(Kind::TSFT) });
}

#[test]
fn flags() {
    let value = Flags { fragmentation: true, data_pad: true, ..Default::default() };
    let actual = RadiotapBuilder::new().flags(value).done();
    assert_eq!(actual, Radiotap { flags: Some(value), ..single(Kind::Flags) });
}

#[test]
fn rate() {
    let value = Rate { value: half_mbps(1.0) };
    let actual = RadiotapBuilder::new().rate(value).done();
    assert_eq!(actual, Radiotap { rate: Some(value), ..single(Kind::Rate) });
}

#[test]
fn channel() {
    let value = Channel { freq: 5180, flags: ChannelFlags { ghz5: true, ..Default::default() } };
    let actual = RadiotapBuilder::new().channel(value).done();
    assert_eq!(actual, Radiotap { channel: Some(value), ..single(Kind::Channel) });
}

#[test]
fn fhss() {
    let value = FHSS { hopset: 1, pattern: 2 };
    let actual = RadiotapBuilder::new().fhss(value).done();
    assert_eq!(actual, Radiotap { fhss: Some(value), ..single(Kind::FHSS) });
}

#[test]
fn antenna_signal() {
    let value = AntennaSignal { value: -42 };
    let actual = RadiotapBuilder::new().antenna_signal(value).done();
    assert_eq!(actual, Radiotap { antenna_signal: Some(value), ..single(Kind::AntennaSignal) });
}

#[test]
fn antenna_noise() {
    let value = AntennaNoise { value: 42 };
    let actual = RadiotapBuilder::new().antenna_noise(value).done();
    assert_eq!(actual, Radiotap { antenna_noise: Some(value), ..single(Kind::AntennaNoise) });
}

#[test]
fn lock_quality() {
    let value = LockQuality { value: 14 };
    let actual = RadiotapBuilder::new().lock_quality(value).done();
    assert_eq!(actual, Radiotap { lock_quality: Some(value), ..single(Kind::LockQuality) });
}

#[test]
fn tx_attenuation() {
    let value = TxAttenuation { value: 0 };
    let actual = RadiotapBuilder::new().tx_attenuation(value).done();
    assert_eq!(actual, Radiotap { tx_attenuation: Some(value), ..single(Kind::TxAttenuation) });
}

#[test]
fn tx_attenuation_db() {
    let value = TxAttenuationDb { value: 10 };
    let actual = RadiotapBuilder::new().tx_attenuation_db(value).done();
    assert_eq!(
        actual,
        Radiotap { tx_attenuation_db: Some(value), ..single(Kind::TxAttenuationDb) }
    );
}

#[test]
fn tx_power() {
    let value = TxPower { value: 17 };
    let actual = RadiotapBuilder::new().tx_power(value).done();
    assert_eq!(actual, Radiotap { tx_power: Some(value), ..single(Kind::TxPower) });
}

#[test]
fn antenna() {
    let value = Antenna { value: 1 };
    let actual = RadiotapBuilder::new().antenna(value).done();
    assert_eq!(actual, Radiotap { antenna: Some(value), ..single(Kind::Antenna) });
}

#[test]
fn antenna_signal_db() {
    let value = AntennaSignalDb { value: 13 };
    let actual = RadiotapBuilder::new().antenna_signal_db(value).done();
    assert_eq!(
        actual,
        Radiotap { antenna_signal_db: Some(value), ..single(Kind::AntennaSignalDb) }
    );
}

#[test]
fn antenna_noise_db() {
    let value = AntennaNoiseDb { value: 12 };
    let actual = RadiotapBuilder::new().antenna_noise_db(value).done();
    assert_eq!(actual, Radiotap { antenna_noise_db: Some(value), ..single(Kind::AntennaNoiseDb) });
}

#[test]
fn rx_flags() {
    let value = RxFlags { bad_plcp: true };
    let actual = RadiotapBuilder::new().rx_flags(value).done();
    assert_eq!(actual, Radiotap { rx_flags: Some(value), ..single(Kind::RxFlags) });
}

#[test]
fn tx_flags() {
    let value = TxFlags { no_ack: true, rts: true, ..Default::default() };
    let actual = RadiotapBuilder::new().tx_flags(value).done();
    assert_eq!(actual, Radiotap { tx_flags: Some(value), ..single(Kind::TxFlags) });
}

#[test]
fn rts_retries() {
    let value = RTSRetries { value: 44 };
    let actual = RadiotapBuilder::new().rts_retries(value).done();
    assert_eq!(actual, Radiotap { rts_retries: Some(value), ..single(Kind::RTSRetries) });
}

#[test]
fn data_retries() {
    let value = DataRetries { value: 0 };
    let actual = RadiotapBuilder::new().data_retries(value).done();
    assert_eq!(actual, Radiotap { data_retries: Some(value), ..single(Kind::DataRetries) });
}

#[test]
fn xchannel() {
    let value = XChannel {
        flags: XChannelFlags { turbo: true, ..Default::default() },
        freq: 2400,
        channel: 42,
        max_power: 10,
    };
    let actual = RadiotapBuilder::new().xchannel(value).done();
    assert_eq!(actual, Radiotap { xchannel: Some(value), ..single(Kind::XChannel) });
}

#[test]
fn mcs() {
    let value = MCS { index: Some(42), ..Default::default() };
    let actual = RadiotapBuilder::new().mcs(value).done();
    assert_eq!(actual, Radiotap { mcs: Some(value), ..single(Kind::MCS) });
}

#[test]
fn ampdu_status() {
    let value = AMPDUStatus { reference: 10, zero_length: Some(true), ..Default::default() };
    let actual = RadiotapBuilder::new().ampdu_status(value).done();
    assert_eq!(actual, Radiotap { ampdu_status: Some(value), ..single(Kind::AMPDUStatus) });
}

#[test]
fn vht() {
    let value = VHT {
        beamformed: Some(true),
        gi: Some(GuardInterval::Short),
        bw: Some(Bandwidth::new(11).unwrap()),
        ..Default::default()
    };
    let actual = RadiotapBuilder::new().vht(value).done();
    assert_eq!(actual, Radiotap { vht: Some(value), ..single(Kind::VHT) });
}

#[test]
fn timestamp() {
    let value = Timestamp {
        timestamp: 600,
        unit: TimeUnit::Milliseconds,
        position: SamplingPosition::EndMPDU,
        accuracy: None,
    };
    let actual = RadiotapBuilder::new().timestamp(value).done();
    assert_eq!(actual, Radiotap { timestamp: Some(value), ..single(Kind::Timestamp) });
}
