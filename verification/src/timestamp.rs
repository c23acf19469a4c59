//! Instants of time, held as seconds and nanoseconds since the Unix epoch.
//!
//! The calendar arithmetic is chrono's. This module calls it through a few
//! private functions whose contracts are stated here and believed by the
//! verifier without proof.

use vstd::prelude::*;

verus! {

/// Whether `chrono::DateTime::<Utc>::from_timestamp(secs, nanos)` yields a
/// date-time, that is, whether the instant lies in chrono's range.
pub uninterp spec fn representable(secs: i64, nanos: u32) -> bool;

/// What `chrono::DateTime::<Utc>::to_rfc3339` writes for the instant.
pub uninterp spec fn rfc3339_text(secs: i64, nanos: u32) -> Seq<char>;

/// What `chrono::DateTime::parse_from_rfc3339` reads from a text, moved to UTC:
/// its seconds and nanoseconds, or `None` where the text is refused.
pub uninterp spec fn rfc3339_instant(text: Seq<char>) -> Option<(i64, u32)>;

/// What `chrono::DateTime::<Utc>::format` writes for the instant with the
/// pattern `%Y-%m-%d %H:%M:%S`.
pub uninterp spec fn display_text(secs: i64, nanos: u32) -> Seq<char>;

/// Calls `chrono::Utc::now` and takes the reading apart with
/// `DateTime::timestamp` and `DateTime::timestamp_subsec_nanos`. Nothing is
/// said about which instant comes back, only that chrono can represent it:
/// chrono documents that `from_timestamp` restores a date-time from these two
/// numbers. chrono panics where the system clock reads a time before the Unix
/// epoch.
#[verifier::external_body]
fn clock_reading() -> (r: (i64, u32))
    ensures
        representable(r.0, r.1),
{
    let t = chrono::Utc::now();
    (t.timestamp(), t.timestamp_subsec_nanos())
}

/// Calls `chrono::DateTime::<Utc>::from_timestamp` and reports whether it
/// returned a date-time.
#[verifier::external_body]
fn in_range(secs: i64, nanos: u32) -> (r: bool)
    ensures
        r == representable(secs, nanos),
{
    chrono::DateTime::from_timestamp(secs, nanos).is_some()
}

/// Calls `chrono::DateTime::<Utc>::to_rfc3339` on the instant. The instant must
/// be in chrono's range, since the date-time is made with `from_timestamp`.
#[verifier::external_body]
fn render_rfc3339(secs: i64, nanos: u32) -> (r: String)
    requires
        representable(secs, nanos),
    ensures
        r@ == rfc3339_text(secs, nanos),
{
    chrono::DateTime::from_timestamp(secs, nanos).unwrap().to_rfc3339()
}

/// Calls `chrono::DateTime::parse_from_rfc3339`, moves the result to UTC with
/// `with_timezone`, and takes it apart as `clock_reading` does. A text that
/// chrono refuses gives `None`.
#[verifier::external_body]
fn read_rfc3339(text: &str) -> (r: Option<(i64, u32)>)
    ensures
        r == rfc3339_instant(text@),
        r matches Some(p) ==> representable(p.0, p.1),
{
    match chrono::DateTime::parse_from_rfc3339(text) {
        Ok(t) => {
            let u = t.with_timezone(&chrono::Utc);
            Some((u.timestamp(), u.timestamp_subsec_nanos()))
        },
        Err(_) => None,
    }
}

/// Calls `chrono::DateTime::<Utc>::format` with the pattern
/// `%Y-%m-%d %H:%M:%S` and collects what it displays.
#[verifier::external_body]
fn render_display(secs: i64, nanos: u32) -> (r: String)
    requires
        representable(secs, nanos),
    ensures
        r@ == display_text(secs, nanos),
{
    chrono::DateTime::from_timestamp(secs, nanos).unwrap().format("%Y-%m-%d %H:%M:%S").to_string()
}

/// An instant that chrono can represent.
#[derive(Clone, Copy, Debug, PartialEq, Eq)]
pub struct Timestamp {
    secs: i64,
    nanos: u32,
}

impl Timestamp {
    #[verifier::type_invariant]
    spec fn in_chrono_range(self) -> bool {
        representable(self.secs, self.nanos)
    }

    /// Whole seconds since the Unix epoch.
    pub closed spec fn seconds(self) -> i64 {
        self.secs
    }

    /// Nanoseconds since the last whole second.
    pub closed spec fn subsec_nanos(self) -> u32 {
        self.nanos
    }

    /// The instant that an RFC 3339 text denotes, or `None` where chrono
    /// refuses the text: `rfc3339_instant`, as a value of this type.
    pub closed spec fn parsed(text: Seq<char>) -> Option<Timestamp> {
        match rfc3339_instant(text) {
            Some(p) => Some(Timestamp { secs: p.0, nanos: p.1 }),
            None => None,
        }
    }

    /// The instant comes back exactly when it is written as RFC 3339 text and
    /// read again: nothing of it is lost, down to the nanosecond.
    pub open spec fn keeps_through_text(self) -> bool {
        Timestamp::parsed(rfc3339_text(self.seconds(), self.subsec_nanos())) == Some(self)
    }

    /// `self` is not later than `other`.
    pub open spec fn at_or_before(self, other: Timestamp) -> bool {
        self.seconds() < other.seconds() || (self.seconds() == other.seconds()
            && self.subsec_nanos() <= other.subsec_nanos())
    }

    /// Two instants with the same seconds and nanoseconds are the same value.
    pub proof fn lemma_same_parts(self, other: Timestamp)
        requires
            self.seconds() == other.seconds(),
            self.subsec_nanos() == other.subsec_nanos(),
        ensures
            self == other,
    {
    }

    /// The current time of the system clock.
    pub fn now() -> (r: Timestamp)
        ensures
            representable(r.seconds(), r.subsec_nanos()),
    {
        // Which instant the clock gives cannot be said in advance; whichever
        // it is, chrono can represent it, so `from_parts` restores it from
        // its seconds and nanoseconds.
        let (secs, nanos) = clock_reading();
        Timestamp { secs, nanos }
    }

    /// The instant `secs` seconds and `nanos` nanoseconds after the epoch, or
    /// `None` where it lies outside chrono's range.
    pub fn from_parts(secs: i64, nanos: u32) -> (r: Option<Timestamp>)
        ensures
            r.is_some() == representable(secs, nanos),
            r matches Some(t) ==> t.seconds() == secs && t.subsec_nanos() == nanos,
    {
        if in_range(secs, nanos) {
            Some(Timestamp { secs, nanos })
        } else {
            None
        }
    }

    pub fn secs(&self) -> (r: i64)
        ensures
            r == self.seconds(),
    {
        self.secs
    }

    pub fn nanos(&self) -> (r: u32)
        ensures
            r == self.subsec_nanos(),
    {
        self.nanos
    }

    /// Whether `self` is not later than `other`.
    pub fn is_at_or_before(&self, other: &Timestamp) -> (r: bool)
        ensures
            r == self.at_or_before(*other),
    {
        self.secs < other.secs || (self.secs == other.secs && self.nanos <= other.nanos)
    }

    /// Whether the two instants are the same.
    pub fn same_instant(&self, other: &Timestamp) -> (r: bool)
        ensures
            r == (*self == *other),
    {
        self.secs == other.secs && self.nanos == other.nanos
    }

    /// The instant in RFC 3339 form, as it is stored.
    pub fn to_rfc3339(&self) -> (r: String)
        ensures
            r@ == rfc3339_text(self.seconds(), self.subsec_nanos()),
    {
        proof {
            use_type_invariant(self);
        }
        render_rfc3339(self.secs, self.nanos)
    }

    /// The instant that an RFC 3339 text denotes, or `None` where the text is
    /// not one.
    pub fn parse_rfc3339(text: &str) -> (r: Option<Timestamp>)
        ensures
            r == Timestamp::parsed(text@),
            r.is_some() == rfc3339_instant(text@).is_some(),
            r matches Some(t) ==> rfc3339_instant(text@) == Some(
                (t.seconds(), t.subsec_nanos()),
            ),
    {
        match read_rfc3339(text) {
            Some((secs, nanos)) => Some(Timestamp { secs, nanos }),
            None => None,
        }
    }

    /// Whether the instant comes back exactly from its RFC 3339 text. The text
    /// is written and read again, and the result compared: an instant either
    /// passes whole or is known not to pass, so no precision is lost unseen.
    pub fn survives_text(&self) -> (r: bool)
        ensures
            r == self.keeps_through_text(),
    {
        let text = self.to_rfc3339();
        match Timestamp::parse_rfc3339(text.as_str()) {
            Some(back) => back.secs == self.secs && back.nanos == self.nanos,
            None => false,
        }
    }

    /// The instant as a list shows it: date and time of day, to the second.
    pub fn to_display(&self) -> (r: String)
        ensures
            r@ == display_text(self.seconds(), self.subsec_nanos()),
    {
        proof {
            use_type_invariant(self);
        }
        render_display(self.secs, self.nanos)
    }
}

} // verus!
