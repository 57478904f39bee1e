use radiotap::field::ext::{
    Bandwidth, ChannelFlags, GuardInterval, HTFormat, SamplingPosition, TimeUnit, VHTUser,
    XChannelFlags, FEC,
};
use radiotap::field::{
    AMPDUStatus, Antenna, AntennaNoise, AntennaNoiseDb, AntennaSignal, AntennaSignalDb, Channel,
    DataRetries, Flags, Header, Kind, LockQuality, RTSRetries, Rate, RxFlags, Timestamp,
    TxAttenuation, TxAttenuationDb, TxFlags, TxPower, XChannel, FHSS, MCS, TSFT, VHT,
};
use radiotap::{Error, Radiotap};

/// A rate in Mbps as the number of 500 Kbps units that a capture stores.
fn half_mbps(mbps: f32) -> u8 {
    (mbps * 2.0) as u8
}

/// A rate in Mbps as a number of Kbps.
fn kbps(mbps: f32) -> u32 {
    (mbps * 1000.0) as u32
}

#[test]
fn unparse() {
    let reference = Radiotap::build()
        .tsft(TSFT { value: 42 })
        .flags(Flags { wep: true, data_pad: true, ..Default::default() })
        .rate(Rate { value: half_mbps(4.5) })
        .channel(Channel {
            freq: 2400,
            flags: ChannelFlags { turbo: true, ..Default::default() },
        })
        .fhss(FHSS { hopset: 1, pattern: 2 })
        .antenna_signal(AntennaSignal { value: 1 })
        .antenna_noise(AntennaNoise { value: 2 })
        .lock_quality(LockQuality { value: 3 })
        .tx_attenuation(TxAttenuation { value: 4 })
        .tx_attenuation_db(TxAttenuationDb { value: 5 })
        .tx_power(TxPower { value: 6 })
        .antenna(Antenna { value: 7 })
        .antenna_signal_db(AntennaSignalDb { value: 8 })
        .antenna_noise_db(AntennaNoiseDb { value: 9 })
        .rx_flags(RxFlags { bad_plcp: true })
        .tx_flags(TxFlags { fail: true, cts: false, rts: true, ..Default::default() })
        .rts_retries(RTSRetries { value: 1 })
        .data_retries(DataRetries { value: 2 })
        .xchannel(XChannel {
            flags: XChannelFlags {
                turbo: true,
                cck: false,
                ofdm: true,
                ghz2: true,
                gsm: true,
                sturbo: false,
                half: true,
                ..Default::default()
            },
            freq: 1234,
            channel: 42,
            max_power: 24,
        })
        .ampdu_status(AMPDUStatus {
            reference: 17,
            zero_length: Some(true),
            last: Some(false),
            delimiter_crc: Some(42),
        })
        .timestamp(Timestamp {
            timestamp: 1234,
            unit: TimeUnit::Nanoseconds,
            position: SamplingPosition::StartMPDU,
            accuracy: Some(1234),
        })
        .mcs(MCS {
            bw: Some(Bandwidth::new(3).unwrap()),
            index: Some(1),
            gi: Some(GuardInterval::Short),
            format: Some(HTFormat::Greenfield),
            fec: Some(FEC::BCC),
            stbc: Some(3),
            ness: Some(2),
            datarate: Some(kbps(30.0)),
        })
        .vht(VHT {
            stbc: Some(true),
            txop_ps: Some(false),
            gi: Some(GuardInterval::Long),
            sgi_nsym_da: Some(false),
            ldpc_extra: Some(true),
            beamformed: Some(true),
            bw: Some(Bandwidth::new(4).unwrap()),
            group_id: Some(42),
            partial_aid: Some(1234),
            users: [
                None,
                None,
                Some(VHTUser {
                    index: 1,
                    fec: FEC::LDPC,
                    nss: 4,
                    nsts: 8,
                    datarate: Some(kbps(234.0)),
                }),
                None,
            ],
        })
        .done();

    // unparse() followed by parse() must return the value that was written.
    let mut buff = Vec::new();
    let length = reference.unparse(&mut buff).unwrap();
    let actual = Radiotap::parse(&buff).unwrap().0;
    assert_eq!(actual.header.length, length);
    assert_eq!(actual, reference);
}

#[test]
fn unparse_exact_bytes() {
    let tap = Radiotap::build()
        .channel(Channel {
            freq: 2462,
            flags: ChannelFlags { cck: true, ghz2: true, ..Default::default() },
        })
        .rate(Rate { value: 2 })
        .antenna_signal(AntennaSignal { value: -29 })
        .done();
    let mut bytes = Vec::new();
    assert_eq!(tap.unparse(&mut bytes).unwrap(), 15);
    assert_eq!(
        bytes,
        vec![
            0, 0, 15, 0, // version, padding, length
            44, 0, 0, 0, // bits 2, 3 and 5
            2, // rate
            0, // padding
            158, 9, 160, 0, // channel
            227, // signal
        ]
    );
}

#[test]
fn unparse_appends() {
    let tap = Radiotap::build().rate(Rate { value: 9 }).done();
    let mut bytes = vec![1, 2, 3];
    assert_eq!(tap.unparse(&mut bytes).unwrap(), 9);
    assert_eq!(bytes, vec![1, 2, 3, 0, 0, 9, 0, 4, 0, 0, 0, 9]);
}

#[test]
fn unparse_empty() {
    let tap = Radiotap::default();
    let mut bytes = Vec::new();
    assert_eq!(tap.unparse(&mut bytes).unwrap(), 8);
    assert_eq!(bytes, vec![0, 0, 8, 0, 0, 0, 0, 0]);
    assert_eq!(Radiotap::parse(&bytes).unwrap().0, tap);
}

#[test]
fn unparse_refuses_a_length_of_more_than_16_bits() {
    let mut tap = Radiotap::default();
    tap.header.length = 65536;
    let mut bytes = vec![7];
    assert_eq!(tap.unparse(&mut bytes).unwrap_err(), Error::InvalidLength);
    assert_eq!(bytes, vec![7]);
    tap.header.length = 65535;
    assert_eq!(tap.unparse(&mut bytes).unwrap(), 8);
    assert_eq!(bytes, vec![7, 0, 0, 255, 255, 0, 0, 0, 0]);
    assert_eq!(tap.header.unparse(&mut bytes).unwrap(), 8);
}

#[test]
fn unparse_passes_over_a_kind_without_value() {
    let tap = Radiotap {
        header: Header {
            version: 0,
            length: 9,
            size: 8,
            present: vec![Kind::Rate, Kind::Channel],
        },
        rate: Some(Rate { value: 5 }),
        ..Default::default()
    };
    let mut bytes = Vec::new();
    // The channel has no value: only the padding before it is written.
    assert_eq!(tap.unparse(&mut bytes).unwrap(), 10);
    assert_eq!(bytes, vec![0, 0, 9, 0, 12, 0, 0, 0, 5, 0]);
}

#[test]
fn header_with_vendor_namespace() {
    let header = Header {
        version: 0,
        length: 8,
        size: 8,
        present: vec![Kind::Rate, Kind::VendorNamespace(None)],
    };
    let mut bytes = Vec::new();
    assert_eq!(header.unparse(&mut bytes).unwrap(), 8);
    assert_eq!(bytes, vec![0, 0, 8, 0, 4, 0, 0, 64]);
    assert_eq!(Header::from_bytes(&bytes).unwrap(), header);
}

#[test]
fn round_trip_of_every_other_field() {
    let reference = Radiotap::build()
        .vht(VHT {
            gi: Some(GuardInterval::Short),
            bw: Some(Bandwidth::new(0).unwrap()),
            users: [
                Some(VHTUser {
                    index: 9,
                    fec: FEC::BCC,
                    nss: 2,
                    nsts: 2,
                    datarate: Some(192_592),
                }),
                None,
                None,
                Some(VHTUser { index: 12, fec: FEC::LDPC, nss: 1, nsts: 1, datarate: None }),
            ],
            ..Default::default()
        })
        .mcs(MCS { ness: Some(1), stbc: Some(0), ..Default::default() })
        .tx_power(TxPower { value: -128 })
        .antenna_noise(AntennaNoise { value: 127 })
        .tsft(TSFT { value: u64::MAX })
        .lock_quality(LockQuality { value: 65535 })
        .timestamp(Timestamp {
            timestamp: 1 << 40,
            unit: TimeUnit::Milliseconds,
            position: SamplingPosition::Unknown,
            accuracy: None,
        })
        .done();
    let mut bytes = vec![];
    let length = reference.unparse(&mut bytes).unwrap();
    assert_eq!(length, reference.header.length);
    let (actual, rest) = Radiotap::parse(&bytes).unwrap();
    assert!(rest.is_empty());
    assert_eq!(actual, reference);
}
