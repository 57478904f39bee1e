//! Radiotap struct builder.

use crate::field::header::{spec_default_header, MIN_HEADER_SIZE, VERSION};
use crate::field::kind::lemma_bit_identifies_kind;
use crate::field::{
    AMPDUStatus, Antenna, AntennaNoise, AntennaNoiseDb, AntennaSignal, AntennaSignalDb, Channel,
    DataRetries, Field, Flags, HeaderView, Kind, LockQuality, RTSRetries, Rate, RxFlags,
    Timestamp, TxAttenuation, TxAttenuationDb, TxFlags, TxPower, XChannel, FHSS, MCS, TSFT, VHT,
};
use crate::order::{
    fold_length, lemma_ascending_bound, lemma_ascending_unique, lemma_sort, sort_by_bit,
    spec_ascending, spec_distinct, spec_fold_length, spec_plain, spec_sort,
};
use crate::{
    lemma_same_slots, lemma_with_slot, spec_consistent, spec_empty, Radiotap, RadiotapView,
};
use vstd::prelude::*;

verus! {

/// A convenience struct for building [`Radiotap`] values in code. It takes
/// care of populating [`Radiotap::header`] based on which fields are set.
pub struct RadiotapBuilder {
    inner: Radiotap,
}

impl View for RadiotapBuilder {
    type V = RadiotapView;

    /// The capture under construction. Its presence list holds the kinds in
    /// the order in which they were first set.
    closed spec fn view(&self) -> RadiotapView {
        self.inner@
    }
}

/// What holds of every capture under construction: the header is the
/// smallest one but for its presence list, which names each kind that has a
/// value once, and no other.
pub open spec fn spec_building(v: RadiotapView) -> bool {
    &&& v.header.version == VERSION
    &&& v.header.size == MIN_HEADER_SIZE
    &&& v.header.length == MIN_HEADER_SIZE
    &&& spec_distinct(v.header.present)
    &&& spec_plain(v.header.present)
    &&& forall|kind: Kind| (#[trigger] v.slot(kind)) is Some <==> v.header.present.contains(kind)
}

/// The capture under construction after `field` has been set: the value is
/// stored for its kind, and the kind is added to the end of the presence
/// list unless the list names it already.
pub open spec fn spec_set(v: RadiotapView, field: Field) -> RadiotapView {
    v.with(field).with_header(
        HeaderView {
            present: if v.header.present.contains(field.spec_kind()) {
                v.header.present
            } else {
                v.header.present.push(field.spec_kind())
            },
            ..v.header
        },
    )
}

/// The finished capture: the presence list in ascending order of the bits,
/// and the length that the fields in that order take behind the header.
pub open spec fn spec_done(v: RadiotapView) -> RadiotapView {
    v.with_header(
        HeaderView {
            length: spec_fold_length(v.header.length, spec_sort(v.header.present)),
            present: spec_sort(v.header.present),
            ..v.header
        },
    )
}

fn names(present: &Vec<Kind>, kind: &Kind) -> (r: bool)
    requires
        !kind.spec_is_vendor(),
    ensures
        r == present@.contains(*kind),
{
    let mut i: usize = 0;
    while i < present.len()
        invariant
            i <= present.len(),
            !kind.spec_is_vendor(),
            forall|j: int| 0 <= j < i ==> present@[j] != *kind,
        decreases present.len() - i,
    {
        if present[i].bit() == kind.bit() {
            proof {
                lemma_bit_identifies_kind(present@[i as int], *kind);
            }
            return true;
        }
        i = i + 1;
    }
    false
}

impl Default for RadiotapBuilder {
    fn default() -> (r: RadiotapBuilder)
        ensures
            r@ == spec_empty(spec_default_header()),
    {
        RadiotapBuilder::new()
    }
}

impl RadiotapBuilder {
    #[verifier::type_invariant]
    spec fn inv(self) -> bool {
        spec_building(self.inner@)
    }

    /// Returns a builder with no field set.
    pub fn new() -> (r: RadiotapBuilder)
        ensures
            r@ == spec_empty(spec_default_header()),
            spec_building(r@),
    {
        let inner = Radiotap::default();
        assert(forall|kind: Kind| (#[trigger] inner@.slot(kind)) is None);
        RadiotapBuilder { inner }
    }

    /// Sets the value of a field: stores the value for its kind, in place of
    /// an earlier one, and adds the kind to the presence list unless it is
    /// there already.
    pub fn set(self, field: Field) -> (r: RadiotapBuilder)
        ensures
            r@ == spec_set(self@, field),
            spec_building(r@),
    {
        proof {
            use_type_invariant(&self);
        }
        let ghost before = self.inner@;
        let mut inner = self.inner;
        let kind = field.kind();
        inner.set(field);
        if !names(&inner.header.present, &kind) {
            inner.header.present.push(kind);
        }
        proof {
            lemma_with_slot(before, field, kind);
            assert(inner@ == spec_set(before, field));
            lemma_set_keeps_building(before, field);
        }
        RadiotapBuilder { inner }
    }

    /// Returns a fully constructed [`Radiotap`] value: the fields that were
    /// set, in a header that lists them in ascending order of their bits and
    /// gives the length that they take.
    pub fn done(self) -> (r: Radiotap)
        ensures
            r@ == spec_done(self@),
            spec_consistent(r@),
    {
        proof {
            use_type_invariant(&self);
        }
        let ghost before = self.inner@;
        let mut inner = self.inner;
        let sorted = sort_by_bit(&inner.header.present);
        proof {
            lemma_sort(before.header.present);
            if sorted@.len() > 0 {
                lemma_ascending_bound(sorted@, 0);
            }
        }
        let length = fold_length(inner.header.length, &sorted);
        inner.header.present = sorted;
        inner.header.length = length;
        proof {
            let after = inner@;
            assert(after == spec_done(before));
            assert forall|k: Kind| (#[trigger] after.slot(k)) is Some <==> after.header.present.contains(
                k,
            ) by {
                assert(after.slot(k) == before.slot(k));
            }
        }
        inner
    }

    /// Sets the value of the [`Radiotap::tsft`] field.
    pub fn tsft(self, tsft: TSFT) -> (r: RadiotapBuilder)
        ensures
            r@ == spec_set(self@, Field::TSFT(tsft)),
            spec_building(r@),
    {
        self.set(Field::TSFT(tsft))
    }

    /// Sets the value of the [`Radiotap::flags`] field.
    pub fn flags(self, flags: Flags) -> (r: RadiotapBuilder)
        ensures
            r@ == spec_set(self@, Field::Flags(flags)),
            spec_building(r@),
    {
        self.set(Field::Flags(flags))
    }

    /// Sets the value of the [`Radiotap::rate`] field.
    pub fn rate(self, rate: Rate) -> (r: RadiotapBuilder)
        ensures
            r@ == spec_set(self@, Field::Rate(rate)),
            spec_building(r@),
    {
        self.set(Field::Rate(rate))
    }

    /// Sets the value of the [`Radiotap::channel`] field.
    pub fn channel(self, channel: Channel) -> (r: RadiotapBuilder)
        ensures
            r@ == spec_set(self@, Field::Channel(channel)),
            spec_building(r@),
    {
        self.set(Field::Channel(channel))
    }

    /// Sets the value of the [`Radiotap::fhss`] field.
    pub fn fhss(self, fhss: FHSS) -> (r: RadiotapBuilder)
        ensures
            r@ == spec_set(self@, Field::FHSS(fhss)),
            spec_building(r@),
    {
        self.set(Field::FHSS(fhss))
    }

    /// Sets the value of the [`Radiotap::antenna_signal`] field.
    pub fn antenna_signal(self, antenna_signal: AntennaSignal) -> (r: RadiotapBuilder)
        ensures
            r@ == spec_set(self@, Field::AntennaSignal(antenna_signal)),
            spec_building(r@),
    {
        self.set(Field::AntennaSignal(antenna_signal))
    }

    /// Sets the value of the [`Radiotap::antenna_noise`] field.
    pub fn antenna_noise(self, antenna_noise: AntennaNoise) -> (r: RadiotapBuilder)
        ensures
            r@ == spec_set(self@, Field::AntennaNoise(antenna_noise)),
            spec_building(r@),
    {
        self.set(Field::AntennaNoise(antenna_noise))
    }

    /// Sets the value of the [`Radiotap::lock_quality`] field.
    pub fn lock_quality(self, lock_quality: LockQuality) -> (r: RadiotapBuilder)
        ensures
            r@ == spec_set(self@, Field::LockQuality(lock_quality)),
            spec_building(r@),
    {
        self.set(Field::LockQuality(lock_quality))
    }

    /// Sets the value of the [`Radiotap::tx_attenuation`] field.
    pub fn tx_attenuation(self, tx_attenuation: TxAttenuation) -> (r: RadiotapBuilder)
        ensures
            r@ == spec_set(self@, Field::TxAttenuation(tx_attenuation)),
            spec_building(r@),
    {
        self.set(Field::TxAttenuation(tx_attenuation))
    }

    /// Sets the value of the [`Radiotap::tx_attenuation_db`] field.
    pub fn tx_attenuation_db(self, tx_attenuation_db: TxAttenuationDb) -> (r: RadiotapBuilder)
        ensures
            r@ == spec_set(self@, Field::TxAttenuationDb(tx_attenuation_db)),
            spec_building(r@),
    {
        self.set(Field::TxAttenuationDb(tx_attenuation_db))
    }

    /// Sets the value of the [`Radiotap::tx_power`] field.
    pub fn tx_power(self, tx_power: TxPower) -> (r: RadiotapBuilder)
        ensures
            r@ == spec_set(self@, Field::TxPower(tx_power)),
            spec_building(r@),
    {
        self.set(Field::TxPower(tx_power))
    }

    /// Sets the value of the [`Radiotap::antenna`] field.
    pub fn antenna(self, antenna: Antenna) -> (r: RadiotapBuilder)
        ensures
            r@ == spec_set(self@, Field::Antenna(antenna)),
            spec_building(r@),
    {
        self.set(Field::Antenna(antenna))
    }

    /// Sets the value of the [`Radiotap::antenna_signal_db`] field.
    pub fn antenna_signal_db(self, antenna_signal_db: AntennaSignalDb) -> (r: RadiotapBuilder)
        ensures
            r@ == spec_set(self@, Field::AntennaSignalDb(antenna_signal_db)),
            spec_building(r@),
    {
        self.set(Field::AntennaSignalDb(antenna_signal_db))
    }

    /// Sets the value of the [`Radiotap::antenna_noise_db`] field.
    pub fn antenna_noise_db(self, antenna_noise_db: AntennaNoiseDb) -> (r: RadiotapBuilder)
        ensures
            r@ == spec_set(self@, Field::AntennaNoiseDb(antenna_noise_db)),
            spec_building(r@),
    {
        self.set(Field::AntennaNoiseDb(antenna_noise_db))
    }

    /// Sets the value of the [`Radiotap::rx_flags`] field.
    pub fn rx_flags(self, rx_flags: RxFlags) -> (r: RadiotapBuilder)
        ensures
            r@ == spec_set(self@, Field::RxFlags(rx_flags)),
            spec_building(r@),
    {
        self.set(Field::RxFlags(rx_flags))
    }

    /// Sets the value of the [`Radiotap::tx_flags`] field.
    pub fn tx_flags(self, tx_flags: TxFlags) -> (r: RadiotapBuilder)
        ensures
            r@ == spec_set(self@, Field::TxFlags(tx_flags)),
            spec_building(r@),
    {
        self.set(Field::TxFlags(tx_flags))
    }

    /// Sets the value of the [`Radiotap::rts_retries`] field.
    pub fn rts_retries(self, rts_retries: RTSRetries) -> (r: RadiotapBuilder)
        ensures
            r@ == spec_set(self@, Field::RTSRetries(rts_retries)),
            spec_building(r@),
    {
        self.set(Field::RTSRetries(rts_retries))
    }

    /// Sets the value of the [`Radiotap::data_retries`] field.
    pub fn data_retries(self, data_retries: DataRetries) -> (r: RadiotapBuilder)
        ensures
            r@ == spec_set(self@, Field::DataRetries(data_retries)),
            spec_building(r@),
    {
        self.set(Field::DataRetries(data_retries))
    }

    /// Sets the value of the [`Radiotap::xchannel`] field.
    pub fn xchannel(self, xchannel: XChannel) -> (r: RadiotapBuilder)
        ensures
            r@ == spec_set(self@, Field::XChannel(xchannel)),
            spec_building(r@),
    {
        self.set(Field::XChannel(xchannel))
    }

    /// Sets the value of the [`Radiotap::mcs`] field.
    pub fn mcs(self, mcs: MCS) -> (r: RadiotapBuilder)
        ensures
            r@ == spec_set(self@, Field::MCS(mcs)),
            spec_building(r@),
    {
        self.set(Field::MCS(mcs))
    }

    /// Sets the value of the [`Radiotap::ampdu_status`] field.
    pub fn ampdu_status(self, ampdu_status: AMPDUStatus) -> (r: RadiotapBuilder)
        ensures
            r@ == spec_set(self@, Field::AMPDUStatus(ampdu_status)),
            spec_building(r@),
    {
        self.set(Field::AMPDUStatus(ampdu_status))
    }

    /// Sets the value of the [`Radiotap::vht`] field.
    pub fn vht(self, vht: VHT) -> (r: RadiotapBuilder)
        ensures
            r@ == spec_set(self@, Field::VHT(vht)),
            spec_building(r@),
    {
        self.set(Field::VHT(vht))
    }

    /// Sets the value of the [`Radiotap::timestamp`] field.
    pub fn timestamp(self, timestamp: Timestamp) -> (r: RadiotapBuilder)
        ensures
            r@ == spec_set(self@, Field::Timestamp(timestamp)),
            spec_building(r@),
    {
        self.set(Field::Timestamp(timestamp))
    }
}

/// Setting a field twice leaves its kind once in the presence list, where
/// the first call put it, and leaves the value of the second call.
pub proof fn lemma_set_twice(v: RadiotapView, first: Field, second: Field)
    requires
        spec_building(v),
        first.spec_kind() == second.spec_kind(),
    ensures
        ({
            let once = spec_set(v, first);
            let twice = spec_set(once, second);
            let kind = first.spec_kind();
            &&& twice.slot(kind) == Some(second)
            &&& twice.header == once.header
            &&& twice == spec_set(v, second)
            &&& twice.header.present.contains(kind)
            &&& forall|i: int, j: int|
                0 <= i < twice.header.present.len() && 0 <= j < twice.header.present.len()
                    && twice.header.present[i] == kind && twice.header.present[j] == kind ==> i
                    == j
        }),
{
    let once = spec_set(v, first);
    let twice = spec_set(once, second);
    let kind = first.spec_kind();
    lemma_set_keeps_building(v, first);
    lemma_with_slot(v, first, kind);
    lemma_with_slot(v, second, kind);
    lemma_with_slot(once, second, kind);
    assert(once.header.present.contains(kind)) by {
        if !v.header.present.contains(kind) {
            assert(v.header.present.push(kind)[v.header.present.len() as int] == kind);
        }
    }
    assert(twice.header == once.header);
    assert forall|k: Kind| #[trigger] twice.slot(k) == spec_set(v, second).slot(k) by {
        lemma_with_slot(v, first, k);
        lemma_with_slot(v, second, k);
        lemma_with_slot(once, second, k);
    }
    lemma_same_slots(twice, spec_set(v, second));
    assert forall|i: int, j: int|
        0 <= i < twice.header.present.len() && 0 <= j < twice.header.present.len()
            && twice.header.present[i] == kind && twice.header.present[j] == kind implies i
        == j by {
        if i < j {
            assert(twice.header.present[i].spec_bit() != twice.header.present[j].spec_bit());
        }
        if j < i {
            assert(twice.header.present[j].spec_bit() != twice.header.present[i].spec_bit());
        }
    }
}

/// Setting a field leaves a capture under construction in that state.
pub proof fn lemma_set_keeps_building(v: RadiotapView, field: Field)
    requires
        spec_building(v),
    ensures
        spec_building(spec_set(v, field)),
        forall|k: Kind| #[trigger]
            spec_set(v, field).header.present.contains(k) <==> (v.header.present.contains(k) || k
                == field.spec_kind()),
{
    let kind = field.spec_kind();
    let after = spec_set(v, field);
    let present = v.header.present;
    lemma_with_slot(v, field, kind);
    assert forall|k: Kind| #[trigger]
        after.header.present.contains(k) <==> (present.contains(k) || k == kind) by {
        if !present.contains(kind) {
            let grown = present.push(kind);
            assert(grown[present.len() as int] == kind);
            if present.contains(k) {
                let i = choose|i: int| 0 <= i < present.len() && present[i] == k;
                assert(grown[i] == k);
            }
        }
    }
    assert forall|k: Kind| (#[trigger] after.slot(k)) is Some <==> after.header.present.contains(
        k,
    ) by {
        lemma_with_slot(v, field, k);
        assert(after.slot(k) == v.with(field).slot(k));
    }
    if !present.contains(kind) {
        assert forall|i: int| 0 <= i < present.len() implies (#[trigger] present[i]).spec_bit()
            != kind.spec_bit() by {
            if present[i].spec_bit() == kind.spec_bit() {
                lemma_bit_identifies_kind(present[i], kind);
                assert(present.contains(present[i]));
            }
        }
    }
}

/// The finished capture does not depend on the order in which the fields
/// were set: two captures under construction that hold the same values give
/// the same capture, with the same presence list in ascending order and the
/// same length.
pub proof fn lemma_done_ignores_order(a: RadiotapView, b: RadiotapView)
    requires
        spec_building(a),
        spec_building(b),
        forall|kind: Kind| #[trigger] a.slot(kind) == b.slot(kind),
    ensures
        spec_done(a) == spec_done(b),
        spec_ascending(spec_done(a).header.present),
        spec_consistent(spec_done(a)),
{
    lemma_sort(a.header.present);
    lemma_sort(b.header.present);
    let sa = spec_sort(a.header.present);
    let sb = spec_sort(b.header.present);
    assert forall|k: Kind| #[trigger] sa.contains(k) <==> sb.contains(k) by {
        assert(a.slot(k) == b.slot(k));
        assert(a.slot(k) is Some <==> a.header.present.contains(k));
        assert(b.slot(k) is Some <==> b.header.present.contains(k));
    }
    lemma_ascending_unique(sa, sb);
    assert forall|kind: Kind| #[trigger] spec_done(a).slot(kind) == spec_done(b).slot(kind) by {
        assert(a.slot(kind) == b.slot(kind));
    }
    lemma_same_slots(spec_done(a), spec_done(b));
    assert forall|k: Kind| (#[trigger] spec_done(a).slot(k)) is Some <==> sa.contains(k) by {
        assert(a.slot(k) is Some <==> a.header.present.contains(k));
    }
}

/// Two fields of different kinds can be set in either order.
pub proof fn lemma_set_in_either_order(v: RadiotapView, one: Field, other: Field)
    requires
        spec_building(v),
        one.spec_kind() != other.spec_kind(),
    ensures
        spec_done(spec_set(spec_set(v, one), other)) == spec_done(
            spec_set(spec_set(v, other), one),
        ),
{
    let a = spec_set(spec_set(v, one), other);
    let b = spec_set(spec_set(v, other), one);
    lemma_set_keeps_building(v, one);
    lemma_set_keeps_building(v, other);
    lemma_set_keeps_building(spec_set(v, one), other);
    lemma_set_keeps_building(spec_set(v, other), one);
    assert forall|kind: Kind| #[trigger] a.slot(kind) == b.slot(kind) by {
        lemma_with_slot(v, one, kind);
        lemma_with_slot(v, other, kind);
        lemma_with_slot(spec_set(v, one), other, kind);
        lemma_with_slot(spec_set(v, other), one, kind);
    }
    lemma_done_ignores_order(a, b);
}

/// A builder in which no field was set gives the capture without fields:
/// the smallest header and no value.
pub proof fn lemma_done_empty()
    ensures
        spec_building(spec_empty(spec_default_header())),
        spec_done(spec_empty(spec_default_header())) == spec_empty(spec_default_header()),
{
    let v = spec_empty(spec_default_header());
    assert(forall|kind: Kind| (#[trigger] v.slot(kind)) is None);
    assert(spec_sort(v.header.present) =~= v.header.present);
    assert(spec_done(v).header.present =~= v.header.present);
}

} // verus!
