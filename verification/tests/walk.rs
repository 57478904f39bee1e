use radiotap::field::{Field, Kind, Rate, TSFT};
use radiotap::{Error, Radiotap, RadiotapIterator};

#[test]
fn error_messages() {
    assert_eq!(Error::ParseError.message(), "failed to fill whole buffer");
    assert_eq!(Error::IncompleteError.message(), "incomplete radiotap capture");
    assert_eq!(Error::InvalidLength.message(), "invalid radiotap length");
    assert_eq!(Error::InvalidFormat.message(), "invalid radiotap capture");
    assert_eq!(Error::UnsupportedVersion.message(), "unsupported radiotap header version");
    assert_eq!(Error::UnsupportedField.message(), "unsupported radiotap field");
}

#[test]
fn a_walk_can_be_started_again() {
    let frame = [0, 0, 17, 0, 5, 0, 0, 0, 1, 2, 3, 4, 5, 6, 7, 8, 9];
    let capture = RadiotapIterator::from_bytes(&frame).unwrap();
    let mut first = capture.into_iter();
    assert_eq!(first.next().unwrap().unwrap(), (Kind::TSFT, &frame[8..16]));
    // A copy of a walk goes on from where the walk stands.
    let mut copy = first.clone();
    assert_eq!(first.next().unwrap().unwrap(), (Kind::Rate, &frame[16..]));
    assert!(first.next().is_none());
    assert_eq!(copy.next().unwrap().unwrap(), (Kind::Rate, &frame[16..]));
    assert!(copy.next().is_none());
    // A new walk starts at the first field.
    let mut second = capture.clone().into_iter();
    assert_eq!(second.next().unwrap().unwrap(), (Kind::TSFT, &frame[8..16]));
}

#[test]
fn fields_are_aligned_from_the_start_of_the_capture() {
    // Two presence words make a header of 12 bytes; the TSFT starts at 16.
    let mut frame = vec![0, 0, 24, 0, 1, 0, 0, 128, 0, 0, 0, 0];
    frame.extend_from_slice(&[9, 9, 9, 9, 1, 0, 0, 0, 0, 0, 0, 0]);
    let capture = RadiotapIterator::from_bytes(&frame).unwrap();
    let mut walk = capture.into_iter();
    assert_eq!(walk.next().unwrap().unwrap(), (Kind::TSFT, &frame[16..24]));
    assert_eq!(Radiotap::from_bytes(&frame).unwrap().tsft, Some(TSFT { value: 1 }));
}

#[test]
fn set_and_get() {
    let mut tap = Radiotap::default();
    tap.set(Field::Rate(Rate { value: 3 }));
    tap.set(Field::Rate(Rate { value: 4 }));
    assert_eq!(tap.rate, Some(Rate { value: 4 }));
    assert_eq!(tap.get(&Kind::Rate), Some(Field::Rate(Rate { value: 4 })));
    // The header is not touched.
    assert_eq!(tap.header.present, vec![]);
    assert_eq!(tap.header.length, 8);
}

#[test]
fn vendor_data_too_long() {
    // The descriptor fits, the 3 bytes of vendor data that it announces do
    // not.
    let frame = [0, 0, 16, 0, 0, 0, 0, 64, 1, 2, 3, 4, 3, 0, 7, 7];
    let capture = RadiotapIterator::from_bytes(&frame).unwrap();
    let mut walk = capture.into_iter();
    assert_eq!(walk.next().unwrap().unwrap_err(), Error::IncompleteError);
    assert!(walk.next().is_none());
    let frame = [0, 0, 17, 0, 0, 0, 0, 64, 1, 2, 3, 4, 3, 0, 7, 7, 7];
    let capture = RadiotapIterator::from_bytes(&frame).unwrap();
    let (kind, data) = capture.into_iter().next().unwrap().unwrap();
    assert!(kind.is_vendor());
    assert_eq!(data, &[7, 7, 7]);
    assert_eq!(Radiotap::from_bytes(&frame).unwrap().header.present, vec![Kind::VendorNamespace(None)]);
}
