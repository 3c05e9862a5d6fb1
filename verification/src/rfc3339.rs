//! Timestamps as RFC 3339 text.
use crate::clock::{civil, Timestamp, FIRST_NANOSECOND, LAST_NANOSECOND, MAXIMUM_OFFSET};
use crate::text::fixed_decimal;
use vstd::prelude::*;
use vstd::string::*;

verus! {

/// A part of a second, given in units of the last of `width` decimal places, without trailing
/// zeros.
pub open spec fn shortened(width: nat, value: nat) -> Seq<char>
    decreases width,
{
    if width > 1 && value % 10 == 0 {
        shortened((width - 1) as nat, value / 10)
    } else {
        fixed_decimal(width, value)
    }
}

/// The part of a second, if there is one.
pub open spec fn fraction(nanosecond: nat) -> Seq<char> {
    if nanosecond == 0 {
        Seq::empty()
    } else {
        "."@ + shortened(9, nanosecond)
    }
}

/// The offset from UTC of whole minutes.
pub open spec fn zone(offset: int) -> Seq<char> {
    if offset == 0 {
        "Z"@
    } else {
        let distance = if offset < 0 {
            -offset
        } else {
            offset
        };
        (if offset < 0 {
            "-"@
        } else {
            "+"@
        }) + fixed_decimal(2, (distance / 3600) as nat) + ":"@ + fixed_decimal(
            2,
            (distance / 60 % 60) as nat,
        )
    }
}

/// Date and time of a local clock, and its offset from UTC.
pub open spec fn date_time(local: int, offset: int) -> Seq<char> {
    let (year, month, day, hour, minute, second) = civil(local)->0;
    fixed_decimal(4, year as nat) + "-"@ + fixed_decimal(2, month as nat) + "-"@ + fixed_decimal(
        2,
        day as nat,
    ) + "T"@ + fixed_decimal(2, hour as nat) + ":"@ + fixed_decimal(2, minute as nat) + ":"@
        + fixed_decimal(2, second as nat) + fraction((local % 1_000_000_000) as nat) + zone(offset)
}

/// The part of a timestamp that cannot be written, if there is one: a year before the first one, an
/// offset of a day or more, or one that is not of whole minutes.
pub open spec fn unwritable(local: int, offset: int) -> Option<Seq<char>> {
    if (civil(local)->0).0 < 0 {
        Some("year"@)
    } else if offset >= 86_400 || offset <= -86_400 {
        Some("offset_hour"@)
    } else if offset % 60 != 0 {
        Some("offset_second"@)
    } else {
        None
    }
}

/// What formatting a timestamp gives: its text, or a message that names what cannot be written.
pub open spec fn written(local: int, offset: int) -> Result<Seq<char>, Seq<char>> {
    match unwritable(local, offset) {
        None => Ok(date_time(local, offset)),
        Some(component) => Err(
            "The "@ + component + " component cannot be formatted into the requested format."@,
        ),
    }
}

/// Wraps `time::OffsetDateTime::format` with `time::format_description::well_known::Rfc3339`, for
/// the date and time that a local clock shows.
///
/// The text holds the calendar fields of the local clock, the part of a second without trailing
/// zeros where there is one, and `Z` or the signed offset. Years before the year zero and offsets
/// of a day or more or with seconds are refused, and the failure names the refused part.
#[verifier::external_body]
fn format_rfc3339(local: i128, offset: i32) -> (result: Result<String, String>)
    requires
        FIRST_NANOSECOND <= local <= LAST_NANOSECOND,
        -MAXIMUM_OFFSET <= offset <= MAXIMUM_OFFSET,
    ensures
        (match result {
            Ok(text) => Ok(text@),
            Err(reason) => Err(reason@),
        }) == written(local as int, offset as int),
{
    let moment = time::OffsetDateTime::from_unix_timestamp_nanos(local).map_err(|error| error.to_string())?;
    let zone = time::UtcOffset::from_whole_seconds(offset).map_err(|error| error.to_string())?;
    moment
        .replace_offset(zone)
        .format(&time::format_description::well_known::Rfc3339)
        .map_err(|error| error.to_string())
}

impl Timestamp {
    /// The timestamp as RFC 3339 text, or why it cannot be written so.
    pub open spec fn spec_rfc3339(self) -> Result<Seq<char>, Seq<char>> {
        written(self.spec_local(), self.spec_offset())
    }

    /// Writes the timestamp as RFC 3339 text.
    pub fn rfc3339(&self) -> (result: Result<String, String>)
        ensures
            (match result {
                Ok(text) => Ok(text@),
                Err(reason) => Err(reason@),
            }) == self.spec_rfc3339(),
    {
        let _ = self.calendar_fields();
        format_rfc3339(self.local(), self.offset())
    }
}

} // verus!
