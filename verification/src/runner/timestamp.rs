//! A second-resolution UTC timestamp as plain fields, with the two renderings
//! the runner uses: the compact form in transcript file names and the ISO
//! form in transcript headers.

use chrono::Datelike;
use chrono::Timelike;
use vstd::prelude::*;
use vstd::string::StringExecFns;

use crate::strutil::lemma_pad2_injective;
use crate::strutil::lemma_pad4_injective;
use crate::strutil::pad2;
use crate::strutil::pad2_spec;
use crate::strutil::pad4;
use crate::strutil::pad4_spec;

verus! {

/// A moment in UTC, to the second.
#[derive(Clone, Copy)]
pub struct Timestamp {
    pub year: u32,
    pub month: u32,
    pub day: u32,
    pub hour: u32,
    pub minute: u32,
    pub second: u32,
}

/// Field ranges of a calendar timestamp this library renders.
pub open spec fn ts_valid(t: Timestamp) -> bool {
    &&& t.year <= 9999
    &&& 1 <= t.month <= 12
    &&& 1 <= t.day <= 31
    &&& t.hour <= 23
    &&& t.minute <= 59
    &&& t.second <= 59
}

/// The compact rendering used in transcript file names:
/// `yyyyMMdd_HHmmss`.
pub open spec fn compact_spec(t: Timestamp) -> Seq<char> {
    pad4_spec(t.year as int) + pad2_spec(t.month as int) + pad2_spec(t.day as int) + seq!['_']
        + pad2_spec(t.hour as int) + pad2_spec(t.minute as int) + pad2_spec(t.second as int)
}

/// The RFC 3339 rendering used in transcript headers:
/// `yyyy-MM-ddTHH:mm:ss+00:00`, as chrono renders a whole-second UTC
/// moment.
pub open spec fn rfc3339_spec(t: Timestamp) -> Seq<char> {
    pad4_spec(t.year as int) + seq!['-'] + pad2_spec(t.month as int) + seq!['-'] + pad2_spec(
        t.day as int,
    ) + seq!['T'] + pad2_spec(t.hour as int) + seq![':'] + pad2_spec(t.minute as int) + seq![':']
        + pad2_spec(t.second as int) + "+00:00"@
}

/// Relies on chrono::Utc::now and chrono's Datelike and Timelike accessors:
/// the month is 1 to 12, the day 1 to 31, the hour 0 to 23, the minute and
/// second 0 to 59. The year is whatever the clock says, as a count from the
/// common era; nothing else is promised of the values. chrono panics on a
/// system clock before the Unix epoch or outside its representable range;
/// that hangs on the machine, not on any input.
#[verifier::external_body]
fn utc_now_parts() -> (r: (i64, u32, u32, u32, u32, u32))
    ensures
        1 <= r.1 <= 12,
        1 <= r.2 <= 31,
        r.3 <= 23,
        r.4 <= 59,
        r.5 <= 59,
{
    let now = chrono::Utc::now();
    (
        now.year() as i64,
        now.month(),
        now.day(),
        now.hour(),
        now.minute(),
        now.second(),
    )
}

impl Timestamp {
    /// The timestamp these fields name, or nothing for a year this
    /// library's four-digit rendering cannot carry.
    pub fn from_parts(
        year: i64,
        month: u32,
        day: u32,
        hour: u32,
        minute: u32,
        second: u32,
    ) -> (r: Option<Timestamp>)
        requires
            1 <= month <= 12,
            1 <= day <= 31,
            hour <= 23,
            minute <= 59,
            second <= 59,
        ensures
            r is Some <==> 0 <= year <= 9999,
            r matches Some(t) ==> t == (Timestamp {
                year: year as u32,
                month,
                day,
                hour,
                minute,
                second,
            }) && ts_valid(t),
    {
        if year < 0 || year > 9999 {
            return None;
        }
        Some(Timestamp { year: year as u32, month, day, hour, minute, second })
    }

    /// The clock's current UTC time, or nothing in eras this library's
    /// four-digit years cannot render; `from_parts` decides which.
    pub fn now() -> (r: Option<Timestamp>)
        ensures
            r matches Some(t) ==> ts_valid(t),
    {
        let (year, month, day, hour, minute, second) = utc_now_parts();
        Timestamp::from_parts(year, month, day, hour, minute, second)
    }

    /// Renders `yyyyMMdd_HHmmss`.
    pub fn compact(&self) -> (r: String)
        requires
            ts_valid(*self),
        ensures
            r@ == compact_spec(*self),
    {
        proof {
            reveal_strlit("_");
        }
        let mut s = pad4(self.year);
        s.append(pad2(self.month).as_str());
        s.append(pad2(self.day).as_str());
        s.append("_");
        s.append(pad2(self.hour).as_str());
        s.append(pad2(self.minute).as_str());
        s.append(pad2(self.second).as_str());
        proof {
            assert("_"@ =~= seq!['_']);
            assert(s@ =~= compact_spec(*self));
        }
        s
    }

    /// Renders `yyyy-MM-ddTHH:mm:ss+00:00`.
    pub fn rfc3339(&self) -> (r: String)
        requires
            ts_valid(*self),
        ensures
            r@ == rfc3339_spec(*self),
    {
        proof {
            reveal_strlit("-");
            reveal_strlit("T");
            reveal_strlit(":");
        }
        let mut s = pad4(self.year);
        s.append("-");
        s.append(pad2(self.month).as_str());
        s.append("-");
        s.append(pad2(self.day).as_str());
        s.append("T");
        s.append(pad2(self.hour).as_str());
        s.append(":");
        s.append(pad2(self.minute).as_str());
        s.append(":");
        s.append(pad2(self.second).as_str());
        s.append("+00:00");
        proof {
            assert("-"@ =~= seq!['-']);
            assert("T"@ =~= seq!['T']);
            assert(":"@ =~= seq![':']);
            assert(s@ =~= rfc3339_spec(*self));
        }
        s
    }
}

/// Different moments render to different compact names: the rendering is
/// fixed-width, digit for digit.
pub proof fn lemma_compact_injective(a: Timestamp, b: Timestamp)
    requires
        ts_valid(a),
        ts_valid(b),
        compact_spec(a) == compact_spec(b),
    ensures
        a == b,
{
    let ca = compact_spec(a);
    let cb = compact_spec(b);
    assert(pad4_spec(a.year as int) =~= ca.subrange(0, 4));
    assert(pad4_spec(b.year as int) =~= cb.subrange(0, 4));
    lemma_pad4_injective(a.year as int, b.year as int);
    assert(pad2_spec(a.month as int) =~= ca.subrange(4, 6));
    assert(pad2_spec(b.month as int) =~= cb.subrange(4, 6));
    lemma_pad2_injective(a.month as int, b.month as int);
    assert(pad2_spec(a.day as int) =~= ca.subrange(6, 8));
    assert(pad2_spec(b.day as int) =~= cb.subrange(6, 8));
    lemma_pad2_injective(a.day as int, b.day as int);
    assert(pad2_spec(a.hour as int) =~= ca.subrange(9, 11));
    assert(pad2_spec(b.hour as int) =~= cb.subrange(9, 11));
    lemma_pad2_injective(a.hour as int, b.hour as int);
    assert(pad2_spec(a.minute as int) =~= ca.subrange(11, 13));
    assert(pad2_spec(b.minute as int) =~= cb.subrange(11, 13));
    lemma_pad2_injective(a.minute as int, b.minute as int);
    assert(pad2_spec(a.second as int) =~= ca.subrange(13, 15));
    assert(pad2_spec(b.second as int) =~= cb.subrange(13, 15));
    lemma_pad2_injective(a.second as int, b.second as int);
}

} // verus!
