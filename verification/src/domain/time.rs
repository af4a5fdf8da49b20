use vstd::prelude::*;

verus! {

/// The first second that a date can name.
pub const FIRST_SECOND: i64 = -8_334_601_228_800;

/// The last second that a date can name.
pub const LAST_SECOND: i64 = 8_210_266_876_799;

/// A moment that a date can name, as seconds since the beginning of 1970 in universal time
/// and the nanoseconds that have passed of the next one.
#[derive(Debug, Clone, Copy, PartialEq, Eq, PartialOrd, Ord, Hash, Structural)]
pub struct Timestamp {
    seconds: i64,
    nanos: u32,
}

/// The text of a moment by `chrono::DateTime::to_rfc3339`.
pub uninterp spec fn rfc3339_text(seconds: i64, nanos: u32) -> Seq<char>;

/// Writes a moment with `chrono::DateTime::<Utc>::from_timestamp` and `to_rfc3339`. The result
/// is claimed to depend on the moment alone, and the moment to be one that `from_timestamp`
/// accepts.
#[verifier::external_body]
fn write_rfc3339(seconds: i64, nanos: u32) -> (text: String)
    requires
        FIRST_SECOND <= seconds <= LAST_SECOND,
        nanos < 1_000_000_000,
    ensures
        text@ == rfc3339_text(seconds, nanos),
{
    chrono::DateTime::<chrono::Utc>::from_timestamp(seconds, nanos).expect("a date").to_rfc3339()
}

/// The text of a moment by `chrono::DateTime::to_rfc3339_opts` with as many digits of the
/// second as it needs and a `Z` for universal time.
pub uninterp spec fn rfc3339_z_text(seconds: i64, nanos: u32) -> Seq<char>;

/// Writes a moment with `chrono::DateTime::<Utc>::from_timestamp` and `to_rfc3339_opts`, which
/// is how `chrono` writes it into a document. The result is claimed to depend on the moment
/// alone, and the moment to be one that `from_timestamp` accepts.
#[verifier::external_body]
fn write_rfc3339_z(seconds: i64, nanos: u32) -> (text: String)
    requires
        FIRST_SECOND <= seconds <= LAST_SECOND,
        nanos < 1_000_000_000,
    ensures
        text@ == rfc3339_z_text(seconds, nanos),
{
    let moment = chrono::DateTime::<chrono::Utc>::from_timestamp(seconds, nanos).expect("a date");
    moment.to_rfc3339_opts(chrono::SecondsFormat::AutoSi, true)
}

/// The current moment by `chrono::Utc::now`, as seconds and nanoseconds. It depends on the
/// clock; whatever the clock says, it is a moment that a date can name.
#[verifier::external_body]
fn clock() -> (now: (i64, u32))
    ensures
        FIRST_SECOND <= now.0 <= LAST_SECOND,
        now.1 < 1_000_000_000,
{
    let now = chrono::Utc::now();
    (now.timestamp(), now.timestamp_subsec_nanos())
}

/// Whether seconds and nanoseconds make up a moment that a date can name.
pub open spec fn is_moment(seconds: int, nanos: int) -> bool {
    FIRST_SECOND <= seconds <= LAST_SECOND && 0 <= nanos < 1_000_000_000
}

impl Timestamp {
    pub closed spec fn spec_seconds(self) -> int {
        self.seconds as int
    }

    pub closed spec fn spec_nanos(self) -> int {
        self.nanos as int
    }

    #[verifier::type_invariant]
    spec fn valid(self) -> bool {
        is_moment(self.seconds as int, self.nanos as int)
    }

    /// The nanoseconds since the beginning of 1970.
    pub open spec fn instant(self) -> int {
        self.spec_seconds() * 1_000_000_000 + self.spec_nanos()
    }

    /// The moment, or none where a date cannot name it.
    pub fn new(seconds: i64, nanos: u32) -> (moment: Option<Timestamp>)
        ensures
            moment is Some <==> is_moment(seconds as int, nanos as int),
            moment is Some ==> moment->0.spec_seconds() == seconds && moment->0.spec_nanos()
                == nanos,
    {
        if FIRST_SECOND <= seconds && seconds <= LAST_SECOND && nanos < 1_000_000_000 {
            Some(Timestamp { seconds: seconds, nanos: nanos })
        } else {
            None
        }
    }

    pub fn seconds(self) -> (seconds: i64)
        ensures
            seconds == self.spec_seconds(),
            FIRST_SECOND <= seconds <= LAST_SECOND,
    {
        proof {
            use_type_invariant(&self);
        }
        self.seconds
    }

    pub fn nanos(self) -> (nanos: u32)
        ensures
            nanos == self.spec_nanos(),
            nanos < 1_000_000_000,
    {
        proof {
            use_type_invariant(&self);
        }
        self.nanos
    }

    /// The current moment.
    pub fn now() -> Timestamp {
        let (seconds, nanos) = clock();
        Timestamp { seconds: seconds, nanos: nanos }
    }

    /// The text of the moment by the internet's standard for dates.
    pub open spec fn text(self) -> Seq<char> {
        rfc3339_text(self.spec_seconds() as i64, self.spec_nanos() as u32)
    }

    /// Writes the moment by the internet's standard for dates.
    pub fn to_rfc3339(self) -> (text: String)
        ensures
            text@ == self.text(),
    {
        proof {
            use_type_invariant(&self);
        }
        write_rfc3339(self.seconds, self.nanos)
    }

    /// The text of the moment in a document.
    pub open spec fn document_text(self) -> Seq<char> {
        rfc3339_z_text(self.spec_seconds() as i64, self.spec_nanos() as u32)
    }

    /// Writes the moment as it stands in a document.
    pub fn to_document_text(self) -> (text: String)
        ensures
            text@ == self.document_text(),
    {
        proof {
            use_type_invariant(&self);
        }
        write_rfc3339_z(self.seconds, self.nanos)
    }

    /// The nanoseconds from `earlier` to this moment.
    pub fn nanos_since(self, earlier: Timestamp) -> (nanos: i128)
        ensures
            nanos == self.instant() - earlier.instant(),
    {
        (self.seconds as i128) * 1_000_000_000 + (self.nanos as i128) - ((earlier.seconds as i128)
            * 1_000_000_000 + (earlier.nanos as i128))
    }

    /// Whether this moment is not after `other`.
    pub fn is_at_or_before(self, other: Timestamp) -> (is: bool)
        ensures
            is == (self.instant() <= other.instant()),
    {
        self.nanos_since(other) <= 0
    }
}

} // verus!
