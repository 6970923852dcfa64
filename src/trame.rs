//! The decoded frame record and its timestamp.
use vstd::prelude::*;

verus! {

/// An instant in UTC, as milliseconds since the Unix epoch.
#[derive(Clone, Copy, Debug, PartialEq, Eq, Structural)]
pub struct Timestamp {
    pub millis: i64,
}

/// One decoded telemetry burst.
#[derive(Debug)]
pub struct Trame {
    pub fn_id: Option<i32>,
    pub logical_canal: i32,
    pub contenu_segment: Vec<u8>,
    /// Reserved: always 0.
    pub freq: i32,
    pub date: Timestamp,
    /// Reserved: always absent.
    pub localisation: Option<i32>,
    pub length: i32,
    pub sub_type: i32,
}

/// The mathematical value of a frame: its fields, with the payload as a sequence.
pub struct TrameModel {
    pub fn_id: Option<i32>,
    pub logical_canal: i32,
    pub contenu_segment: Seq<u8>,
    pub freq: i32,
    pub date: Timestamp,
    pub localisation: Option<i32>,
    pub length: i32,
    pub sub_type: i32,
}

impl View for Trame {
    type V = TrameModel;

    open spec fn view(&self) -> TrameModel {
        TrameModel {
            fn_id: self.fn_id,
            logical_canal: self.logical_canal,
            contenu_segment: self.contenu_segment@,
            freq: self.freq,
            date: self.date,
            localisation: self.localisation,
            length: self.length,
            sub_type: self.sub_type,
        }
    }
}

/// The frame that an object with no property entries yields, dated `now`.
pub open spec fn default_frame(now: Timestamp) -> TrameModel {
    TrameModel {
        fn_id: None,
        logical_canal: 0,
        contenu_segment: Seq::empty(),
        freq: 0,
        date: now,
        localisation: None,
        length: 0,
        sub_type: 0,
    }
}

impl Trame {
    /// A frame with every field at its default, dated `now`.
    pub fn new(now: Timestamp) -> (r: Trame)
        ensures
            r@ == default_frame(now),
    {
        Trame {
            fn_id: None,
            logical_canal: 0,
            contenu_segment: Vec::new(),
            freq: 0,
            date: now,
            localisation: None,
            length: 0,
            sub_type: 0,
        }
    }
}

impl Timestamp {
    /// Relies on chrono's `Utc::now` and `DateTime::timestamp_millis`: the
    /// current wall-clock instant. `Utc::now` fails on a clock set before the
    /// epoch, so any value it returns is at or after it.
    #[verifier::external_body]
    pub(crate) fn now() -> (r: Timestamp)
        ensures
            r.millis >= 0,
    {
        Timestamp { millis: chrono::Utc::now().timestamp_millis() }
    }
}

} // verus!
