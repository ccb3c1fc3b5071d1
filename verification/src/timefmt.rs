//! Civil UTC instants and the two SigV4 timestamp formats derived from them:
//! the long `YYYYMMDD'T'HHMMSS'Z'` form and the `YYYYMMDD` date stamp.
use vstd::prelude::*;
use chrono::Datelike;
use chrono::Timelike;
use crate::encode::ascii_string;
use crate::numtext::pad2_bytes;
use crate::numtext::pad4_bytes;
use crate::numtext::push_pad2;
use crate::numtext::push_pad4;

verus! {

/// A civil UTC instant, held as plain calendar fields.
#[derive(Clone, Copy, Debug, PartialEq, Eq, Structural)]
pub struct UtcInstant {
    pub year: u32,
    pub month: u32,
    pub day: u32,
    pub hour: u32,
    pub minute: u32,
    pub second: u32,
}

impl UtcInstant {
    /// Fields lie in their calendar ranges (years confined to four digits,
    /// which is all the fixed-width SigV4 date format can carry).
    pub open spec fn wf(self) -> bool {
        self.year <= 9999 && 1 <= self.month && self.month <= 12 && 1 <= self.day && self.day
            <= 31 && self.hour <= 23 && self.minute <= 59 && self.second <= 59
    }
}

/// The `YYYYMMDD'T'HHMMSS'Z'` form of an instant, as bytes.
pub open spec fn amz_date_bytes(t: UtcInstant) -> Seq<u8> {
    pad4_bytes(t.year as nat) + pad2_bytes(t.month as nat) + pad2_bytes(t.day as nat) + seq![84u8]
        + pad2_bytes(t.hour as nat) + pad2_bytes(t.minute as nat) + pad2_bytes(t.second as nat)
        + seq![90u8]
}

/// The `YYYYMMDD'T'HHMMSS'Z'` form of an instant, as characters.
pub open spec fn amz_date_chars(t: UtcInstant) -> Seq<char> {
    amz_date_bytes(t).map_values(|b: u8| b as char)
}

/// The `YYYYMMDD` date stamp of an instant, as bytes.
pub open spec fn date_stamp_bytes(t: UtcInstant) -> Seq<u8> {
    pad4_bytes(t.year as nat) + pad2_bytes(t.month as nat) + pad2_bytes(t.day as nat)
}

/// The `YYYYMMDD` date stamp of an instant, as characters.
pub open spec fn date_stamp_chars(t: UtcInstant) -> Seq<char> {
    date_stamp_bytes(t).map_values(|b: u8| b as char)
}

/// Renders the `YYYYMMDD'T'HHMMSS'Z'` timestamp that SigV4 signs.
pub fn format_amz_date(t: &UtcInstant) -> (r: String)
    requires
        t.wf(),
    ensures
        r@ == amz_date_chars(*t),
{
    let mut out: Vec<u8> = Vec::new();
    push_pad4(t.year, &mut out);
    push_pad2(t.month, &mut out);
    push_pad2(t.day, &mut out);
    out.push(84);
    push_pad2(t.hour, &mut out);
    push_pad2(t.minute, &mut out);
    push_pad2(t.second, &mut out);
    out.push(90);
    proof {
        assert(out@ =~= amz_date_bytes(*t));
        assert(out@.map_values(|b: u8| b as char) =~= amz_date_chars(*t));
    }
    ascii_string(out)
}

/// Renders the `YYYYMMDD` date stamp that scopes the signing key.
pub fn format_date_stamp(t: &UtcInstant) -> (r: String)
    requires
        t.wf(),
    ensures
        r@ == date_stamp_chars(*t),
{
    let mut out: Vec<u8> = Vec::new();
    push_pad4(t.year, &mut out);
    push_pad2(t.month, &mut out);
    push_pad2(t.day, &mut out);
    proof {
        assert(out@ =~= date_stamp_bytes(*t));
        assert(out@.map_values(|b: u8| b as char) =~= date_stamp_chars(*t));
    }
    ascii_string(out)
}

/// Relies on chrono's `From<SystemTime>` conversion to `DateTime<Utc>` and
/// its `Datelike`/`Timelike` accessors for the current civil UTC time; the
/// conversion handles clocks set before the epoch without panicking, and
/// chrono keeps month, day, hour, minute and second inside their calendar
/// ranges. Nothing is promised of the year: the clock may be set to
/// anything.
#[verifier::external_body]
fn now_utc_parts() -> (r: (i64, u32, u32, u32, u32, u32))
    ensures
        1 <= r.1 && r.1 <= 12,
        1 <= r.2 && r.2 <= 31,
        r.3 <= 23,
        r.4 <= 59,
        r.5 <= 59,
{
    let t: chrono::DateTime<chrono::Utc> = std::time::SystemTime::now().into();
    (t.year() as i64, t.month(), t.day(), t.hour(), t.minute(), t.second())
}

/// Captures the current UTC instant, with the year clamped to the four
/// digits the SigV4 date format carries.
pub fn now_utc() -> (t: UtcInstant)
    ensures
        t.wf(),
{
    let (y, month, day, hour, minute, second) = now_utc_parts();
    let year: u32 = if y < 0 {
        0
    } else if y > 9999 {
        9999
    } else {
        y as u32
    };
    UtcInstant { year, month, day, hour, minute, second }
}

} // verus!
