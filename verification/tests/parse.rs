use radiotap::field::ext::{Bandwidth, GuardInterval, VHTUser, FEC};
use radiotap::field::{
    AntennaNoise, AntennaSignal, Header, Kind, Rate, Timestamp, VendorNamespace, MCS, VHT,
};
use radiotap::{Error, Radiotap, RadiotapIterator};

/// A rate in Mbps as the number of 500 Kbps units that a capture stores.
fn half_mbps(mbps: f32) -> u8 {
    (mbps * 2.0) as u8
}

const VENDOR_FRAME: [u8; 39] = [
    0, 0, 39, 0, 46, 72, 0, 192, 0, 0, 0, 128, 0, 0, 0, 160, 4, 0, 0, 0, 16, 2, 158, 9, 160, 0, 227,
    5, 0, 0, 255, 255, 255, 255, 2, 0, 222, 173, 4,
];

const VHT_FRAME: [u8; 56] = [
    0, 0, 56, 0, 107, 8, 52, 0, 185, 31, 155, 154, 0, 0, 0, 0, 20, 0, 124, 21, 64, 1, 213, 166, 1,
    0, 0, 0, 64, 1, 1, 0, 124, 21, 100, 34, 249, 1, 0, 0, 0, 0, 0, 0, 255, 1, 80, 4, 115, 0, 0, 0,
    1, 63, 0, 0,
];

#[test]
fn good_vendor() {
    let frame = [
        0, 0, 39, 0, 46, 72, 0, 192, 0, 0, 0, 128, 0, 0, 0, 160, 4, 0, 0, 0, 16, 2, 158, 9, 160, 0,
        227, 5, 0, 0, 255, 255, 255, 255, 2, 0, 222, 173, 4,
    ];

    assert_eq!(
        Radiotap::from_bytes(&frame).unwrap().rate.unwrap(),
        Rate { value: half_mbps(2.0) }
    );
}

#[test]
fn bad_version() {
    let frame = [
        1, 0, 39, 0, 46, 72, 0, 192, 0, 0, 0, 128, 0, 0, 0, 160, 4, 0, 0, 0, 16, 2, 158, 9, 160, 0,
        227, 5, 0, 0, 255, 255, 255, 255, 2, 0, 222, 173, 4,
    ];

    match Radiotap::from_bytes(&frame).unwrap_err() {
        Error::UnsupportedVersion => {}
        e => panic!("Error not UnsupportedVersion: {:?}", e),
    };
}

#[test]
fn bad_header_length() {
    let frame = [
        0, 0, 40, 0, 46, 72, 0, 192, 0, 0, 0, 128, 0, 0, 0, 160, 4, 0, 0, 0, 16, 2, 158, 9, 160, 0,
        227, 5, 0, 0, 255, 255, 255, 255, 2, 0, 222, 173, 4,
    ];

    match Radiotap::from_bytes(&frame).unwrap_err() {
        Error::InvalidLength => {}
        e => panic!("Error not InvalidLength: {:?}", e),
    };
}

#[test]
fn bad_actual_length() {
    let frame = [
        0, 0, 39, 0, 47, 72, 0, 192, 0, 0, 0, 128, 0, 0, 0, 160, 4, 0, 0, 0, 16, 2, 158, 9, 160, 0,
        227, 5, 0, 0, 255, 255, 255, 255, 2, 0, 222, 173, 4,
    ];

    match Radiotap::from_bytes(&frame).unwrap_err() {
        Error::IncompleteError => {}
        e => panic!("Error not IncompleteError: {:?}", e),
    };
}

#[test]
fn bad_vendor() {
    let frame = [
        0, 0, 34, 0, 46, 72, 0, 192, 0, 0, 0, 128, 0, 0, 0, 160, 4, 0, 0, 0, 16, 2, 158, 9, 160, 0,
        227, 5, 0, 0, 255, 255, 255, 255,
    ];

    match Radiotap::from_bytes(&frame).unwrap_err() {
        Error::IncompleteError => {}
        e => panic!("Error not IncompleteError: {:?}", e),
    };
}

#[test]
fn vendor_frame_header() {
    let header = Header::from_bytes(&VENDOR_FRAME).unwrap();
    assert_eq!(
        header,
        Header {
            version: 0,
            length: 39,
            size: 20,
            present: vec![
                Kind::Flags,
                Kind::Rate,
                Kind::Channel,
                Kind::AntennaSignal,
                Kind::Antenna,
                Kind::RxFlags,
                Kind::VendorNamespace(None),
                Kind::Rate,
            ],
        }
    );
}

#[test]
fn vendor_frame_fields() {
    let tap = Radiotap::from_bytes(&VENDOR_FRAME).unwrap();
    assert_eq!(tap.flags.unwrap().fcs, true);
    assert_eq!(tap.flags.unwrap().wep, false);
    assert_eq!(tap.channel.unwrap().freq, 2462);
    assert_eq!(tap.channel.unwrap().flags.ghz2, true);
    assert_eq!(tap.channel.unwrap().flags.cck, true);
    assert_eq!(tap.channel.unwrap().flags.ofdm, false);
    assert_eq!(tap.antenna_signal, Some(AntennaSignal { value: -29 }));
    assert_eq!(tap.antenna.unwrap().value, 5);
    assert_eq!(tap.rx_flags.unwrap().bad_plcp, false);
    assert_eq!(tap.tsft, None);
    assert_eq!(tap.header.length, 39);
}

#[test]
fn vendor_data_excludes_descriptor() {
    let capture = RadiotapIterator::from_bytes(&VENDOR_FRAME).unwrap();
    let mut walk = capture.into_iter();
    let mut seen = Vec::new();
    while let Some(item) = walk.next() {
        let (kind, data) = item.unwrap();
        seen.push((kind, data.to_vec()));
    }
    assert_eq!(seen.len(), 8);
    assert_eq!(seen[0], (Kind::Flags, vec![16]));
    assert_eq!(seen[1], (Kind::Rate, vec![2]));
    assert_eq!(seen[2], (Kind::Channel, vec![158, 9, 160, 0]));
    assert_eq!(seen[5], (Kind::RxFlags, vec![0, 0]));
    assert_eq!(
        seen[6],
        (
            Kind::VendorNamespace(Some(VendorNamespace {
                oui: [255, 255, 255],
                sub_namespace: 255,
                skip_length: 2,
            })),
            vec![222, 173]
        )
    );
    // The field behind the vendor data starts right after it.
    assert_eq!(seen[7], (Kind::Rate, vec![4]));
    assert!(walk.next().is_none());
}

#[test]
fn walk_ends_after_an_error() {
    let frame = [
        0, 0, 39, 0, 47, 72, 0, 192, 0, 0, 0, 128, 0, 0, 0, 160, 4, 0, 0, 0, 16, 2, 158, 9, 160, 0,
        227, 5, 0, 0, 255, 255, 255, 255, 2, 0, 222, 173, 4,
    ];
    let capture = RadiotapIterator::from_bytes(&frame).unwrap();
    let mut walk = capture.into_iter();
    let mut good = 0;
    let mut last = None;
    while let Some(item) = walk.next() {
        match item {
            Ok(_) => good += 1,
            Err(e) => last = Some(e),
        }
    }
    // TSFT, Flags, Rate, Channel and AntennaSignal fit; Antenna does not.
    assert_eq!(good, 5);
    assert_eq!(last, Some(Error::IncompleteError));
    assert!(walk.next().is_none());
}

#[test]
fn truncated_last_field() {
    // A header of 8 bytes that announces a TSFT, and a capture of 12 bytes.
    let frame = [0, 0, 12, 0, 1, 0, 0, 0, 1, 2, 3, 4];
    assert_eq!(Radiotap::from_bytes(&frame).unwrap_err(), Error::IncompleteError);
}

#[test]
fn empty_input_is_a_parse_error() {
    assert_eq!(Radiotap::from_bytes(&[]).unwrap_err(), Error::ParseError);
    assert_eq!(Radiotap::from_bytes(&[0, 0, 8]).unwrap_err(), Error::ParseError);
    // The presence word is cut off.
    assert_eq!(Radiotap::from_bytes(&[0, 0, 6, 0, 0, 0]).unwrap_err(), Error::ParseError);
}

#[test]
fn version_is_checked_first() {
    assert_eq!(Radiotap::from_bytes(&[7]).unwrap_err(), Error::UnsupportedVersion);
    assert_eq!(
        Radiotap::from_bytes(&[2, 0, 255, 255, 255, 255, 255, 255]).unwrap_err(),
        Error::UnsupportedVersion
    );
}

#[test]
fn length_below_header_size() {
    // The header takes 8 bytes and declares 4.
    let frame = [0, 0, 4, 0, 0, 0, 0, 0];
    assert_eq!(Radiotap::from_bytes(&frame).unwrap_err(), Error::InvalidLength);
}

#[test]
fn invalid_timestamp_unit() {
    // Bit 22 announces a timestamp; its unit is 3, which has no meaning.
    let mut frame = vec![0, 0, 20, 0, 0, 0, 64, 0];
    frame.extend_from_slice(&[1, 0, 0, 0, 0, 0, 0, 0, 0, 0, 3, 0]);
    assert_eq!(Radiotap::from_bytes(&frame).unwrap_err(), Error::InvalidFormat);
    assert_eq!(Timestamp::from_bytes(&frame[8..]).unwrap_err(), Error::InvalidFormat);
}

#[test]
fn unknown_bits_are_passed_over() {
    // Bit 2 and bit 25 are set; bit 25 has no kind.
    let frame = [0, 0, 9, 0, 4, 0, 0, 2, 11];
    let tap = Radiotap::from_bytes(&frame).unwrap();
    assert_eq!(tap.header.present, vec![Kind::Rate]);
    assert_eq!(tap.rate, Some(Rate { value: 11 }));
}

#[test]
fn parse_returns_the_remainder() {
    let mut input = vec![0, 0, 9, 0, 4, 0, 0, 0, 22];
    input.extend_from_slice(&[0, 0, 10, 0, 96, 0, 0, 0, 200, 160, 77]);
    let (first, rest) = Radiotap::parse(&input).unwrap();
    assert_eq!(first.rate, Some(Rate { value: 22 }));
    assert_eq!(rest.len(), 11);
    let (second, rest) = Radiotap::parse(rest).unwrap();
    assert_eq!(second.antenna_signal, Some(AntennaSignal { value: -56 }));
    assert_eq!(second.antenna_noise, Some(AntennaNoise { value: -96 }));
    assert_eq!(rest, &[77]);
    let (capture, rest) = RadiotapIterator::parse(&input).unwrap();
    assert_eq!(rest.len(), 11);
    assert_eq!(capture.into_iter().next().unwrap().unwrap(), (Kind::Rate, &[22u8][..]));
}

#[test]
fn later_value_wins() {
    // Two presence words in the Radiotap namespace, each announcing a rate.
    let frame = [0, 0, 14, 0, 4, 0, 0, 160, 4, 0, 0, 0, 10, 20];
    let tap = Radiotap::from_bytes(&frame).unwrap();
    assert_eq!(tap.header.present, vec![Kind::Rate, Kind::Rate]);
    assert_eq!(tap.header.size, 12);
    assert_eq!(tap.rate, Some(Rate { value: 20 }));
}

#[test]
fn vht_frame() {
    let tap = Radiotap::from_bytes(&VHT_FRAME).unwrap();
    assert_eq!(
        tap.header.present,
        vec![
            Kind::TSFT,
            Kind::Flags,
            Kind::Channel,
            Kind::AntennaSignal,
            Kind::AntennaNoise,
            Kind::Antenna,
            Kind::XChannel,
            Kind::AMPDUStatus,
            Kind::VHT,
        ]
    );
    assert_eq!(tap.tsft.unwrap().value, 2593857465);
    assert_eq!(tap.channel.unwrap().freq, 5500);
    assert_eq!(tap.antenna_signal.unwrap().value, -43);
    assert_eq!(tap.antenna_noise.unwrap().value, -90);
    assert_eq!(tap.xchannel.unwrap().channel, 100);
    assert_eq!(tap.xchannel.unwrap().max_power, 34);
    assert!(tap.xchannel.unwrap().flags.ht20);
    assert!(tap.xchannel.unwrap().flags.ghz5);
    assert_eq!(tap.ampdu_status.unwrap().reference, 505);
    assert_eq!(tap.ampdu_status.unwrap().zero_length, None);
    assert_eq!(
        tap.vht,
        Some(VHT {
            stbc: Some(false),
            txop_ps: Some(false),
            gi: Some(GuardInterval::Long),
            sgi_nsym_da: Some(false),
            ldpc_extra: Some(true),
            beamformed: Some(false),
            bw: Some(Bandwidth::new(4).unwrap()),
            group_id: Some(63),
            partial_aid: Some(0),
            users: [
                Some(VHTUser {
                    index: 7,
                    fec: FEC::LDPC,
                    nss: 3,
                    nsts: 3,
                    datarate: Some(877_500),
                }),
                None,
                None,
                None,
            ],
        })
    );
}

#[test]
fn mcs_from_bytes() {
    // Bandwidth, index and guard interval are known: 40 MHz, index 7, short.
    let mcs = MCS::from_bytes(&[7, 5, 7]).unwrap();
    assert_eq!(mcs.bw, Some(Bandwidth { code: 1 }));
    assert_eq!(mcs.index, Some(7));
    assert_eq!(mcs.gi, Some(GuardInterval::Short));
    assert_eq!(mcs.format, None);
    assert_eq!(mcs.datarate, Some(150_000));
    assert_eq!(MCS::from_bytes(&[7, 5]).unwrap_err(), Error::ParseError);
}
