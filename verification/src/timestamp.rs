//! Capture times: the wall-clock reading of a moment, and that reading placed
//! in the local time zone.

use crate::error::{ConvertError, MetadataError};
use crate::exif::{
    exif_entries, exif_warnings, fields_view, read_exif_fields, texts, ExifField,
    DATE_TIME_ORIGINAL,
};
use chrono::{Datelike, Local, NaiveDate, NaiveDateTime, Offset, TimeZone, Timelike};
use vstd::prelude::*;

verus! {

/// Earliest year of a calendar date that chrono represents.
pub const MIN_YEAR: i32 = -262143;

/// Latest year of a calendar date that chrono represents.
pub const MAX_YEAR: i32 = 262142;

/// Whether `year` of the proleptic Gregorian calendar has a 29th of February.
pub open spec fn is_leap_year(year: int) -> bool {
    year % 4 == 0 && (year % 100 != 0 || year % 400 == 0)
}

/// Number of days of `month` (1 to 12) in `year`.
pub open spec fn days_in_month(year: int, month: int) -> int {
    if month == 2 {
        if is_leap_year(year) {
            29
        } else {
            28
        }
    } else if month == 4 || month == 6 || month == 9 || month == 11 {
        30
    } else {
        31
    }
}

/// The number of days from the first of January 1970 to a day of the
/// proleptic Gregorian calendar; negative for earlier days.
pub open spec fn days_from_civil(year: int, month: int, day: int) -> int {
    let y = if month <= 2 {
        year - 1
    } else {
        year
    };
    let era = y / 400;
    let year_of_era = y - era * 400;
    let shifted_month = if month > 2 {
        month - 3
    } else {
        month + 9
    };
    let day_of_year = (153 * shifted_month + 2) / 5 + day - 1;
    let day_of_era = year_of_era * 365 + year_of_era / 4 - year_of_era / 100 + day_of_year;
    era * 146097 + day_of_era - 719468
}

/// A calendar date and time of day with no time zone attached.
///
/// `nano` counts the nanoseconds past `second`; a value of one thousand
/// million or more marks a leap second that follows second 59.
#[derive(Clone, Copy, Debug, PartialEq, Eq, Structural)]
pub struct WallClock {
    pub year: i32,
    pub month: u32,
    pub day: u32,
    pub hour: u32,
    pub minute: u32,
    pub second: u32,
    pub nano: u32,
}

impl WallClock {
    /// The reading names a day that exists and a time of day on it.
    pub open spec fn wf(self) -> bool {
        &&& MIN_YEAR <= self.year <= MAX_YEAR
        &&& 1 <= self.month <= 12
        &&& 1 <= self.day <= days_in_month(self.year as int, self.month as int)
        &&& self.hour < 24
        &&& self.minute < 60
        &&& self.second < 60
        &&& self.nano < 2_000_000_000
        &&& (self.nano >= 1_000_000_000 ==> self.second == 59)
    }

    /// Tells whether the reading names a day that exists and a time of day
    /// on it.
    pub fn is_valid(&self) -> (r: bool)
        ensures
            r == self.wf(),
    {
        if self.year < MIN_YEAR || self.year > MAX_YEAR || self.month < 1 || self.month > 12 {
            return false;
        }
        let leap = self.year % 4 == 0 && (self.year % 100 != 0 || self.year % 400 == 0);
        let days: u32 = if self.month == 2 {
            if leap {
                29
            } else {
                28
            }
        } else if self.month == 4 || self.month == 6 || self.month == 9 || self.month == 11 {
            30
        } else {
            31
        };
        1 <= self.day && self.day <= days && self.hour < 24 && self.minute < 60 && self.second < 60
            && self.nano < 2_000_000_000 && (self.nano < 1_000_000_000 || self.second == 59)
    }

    /// Seconds from the start of 1970 to this reading, leap seconds not
    /// counted, both taken in the same zone.
    pub open spec fn seconds_from_epoch(self) -> int {
        days_from_civil(self.year as int, self.month as int, self.day as int) * 86_400
            + self.hour * 3_600 + self.minute * 60 + self.second
    }
}

/// A capture time: a wall-clock reading together with the offset of the local
/// time zone from UTC, in seconds east of Greenwich, at that moment.
#[derive(Clone, Copy, Debug, PartialEq, Eq, Structural)]
pub struct CaptureTimestamp {
    pub local: WallClock,
    pub offset_seconds: i32,
}

impl CaptureTimestamp {
    /// The reading is valid, and the offset is less than a day to either
    /// side.
    pub open spec fn wf(self) -> bool {
        &&& self.local.wf()
        &&& -86_400 < self.offset_seconds < 86_400
    }

    /// Tells whether the reading is valid and the offset is one of a time
    /// zone: less than a day to either side.
    pub fn is_valid(&self) -> (r: bool)
        ensures
            r == self.wf(),
    {
        self.local.is_valid() && -86_400 < self.offset_seconds && self.offset_seconds < 86_400
    }

    /// The moment of the capture in seconds since the start of 1970 in UTC.
    pub open spec fn instant(self) -> int {
        self.local.seconds_from_epoch() - self.offset_seconds
    }

    /// The moment of the capture in seconds since the start of 1970 in UTC.
    pub fn unix_seconds(&self) -> (r: i64)
        requires
            self.wf(),
        ensures
            r == self.instant(),
    {
        let w = &self.local;
        // Years are moved up by a multiple of 400 so that every division is
        // one of natural numbers.
        let shifted: i64 = if w.month <= 2 {
            w.year as i64 - 1 + 262_400
        } else {
            w.year as i64 + 262_400
        };
        let era: i64 = shifted / 400;
        let year_of_era: i64 = shifted - era * 400;
        let shifted_month: i64 = if w.month > 2 {
            w.month as i64 - 3
        } else {
            w.month as i64 + 9
        };
        let day_of_year: i64 = (153 * shifted_month + 2) / 5 + w.day as i64 - 1;
        let day_of_era: i64 = year_of_era * 365 + year_of_era / 4 - year_of_era / 100 + day_of_year;
        let days: i64 = (era - 656) * 146_097 + day_of_era - 719_468;
        proof {
            let y = shifted - 262_400;
            assert(y / 400 == era - 656) by {
                assert(shifted == 400 * era + year_of_era && 0 <= year_of_era < 400);
                assert(y == 400 * (era - 656) + year_of_era);
                vstd::arithmetic::div_mod::lemma_fundamental_div_mod_converse(y as int, 400, (era - 656) as int, year_of_era as int);
            }
            assert(days == days_from_civil(w.year as int, w.month as int, w.day as int));
        }
        days * 86_400 + w.hour as i64 * 3_600 + w.minute as i64 * 60 + w.second as i64
            - self.offset_seconds as i64
    }
}

/// A time that a file system records for a file: whole seconds since the
/// start of 1970 in UTC, negative before it, and the nanoseconds past them.
#[derive(Clone, Copy, Debug, PartialEq, Eq, Structural)]
pub struct FileTime {
    pub secs: i64,
    pub nanos: u32,
}

/// The first second of the second day that chrono represents, the second
/// of January of the year -262143, in seconds since the start of 1970.
pub const FIRST_SECOND: i64 = -8_334_601_142_400;

/// The last second of the last day but one that chrono represents, the
/// thirtieth of December of the year 262142, in seconds since the start of
/// 1970.
pub const LAST_SECOND: i64 = 8_210_266_790_399;

impl FileTime {
    /// The time lies at least a day inside the range of dates that chrono
    /// represents, so that it has a date in every time zone, and its
    /// nanoseconds are less than a second.
    pub open spec fn in_range(self) -> bool {
        FIRST_SECOND <= self.secs <= LAST_SECOND && self.nanos < 1_000_000_000
    }
}

/// The file time of a moment that lies `secs` seconds and `nanos`
/// nanoseconds after the start of 1970, or that far before it: before it,
/// the whole seconds are counted down to the second in which the moment
/// lies, and the nanoseconds up from there. There is none where the
/// nanoseconds make a second or more, or the seconds do not fit.
pub open spec fn file_time_spec(before_epoch: bool, secs: u64, nanos: u32) -> Option<FileTime> {
    let seconds: int = if !before_epoch {
        secs as int
    } else if nanos == 0 {
        -(secs as int)
    } else {
        -(secs as int) - 1
    };
    let rest: int = if before_epoch && nanos > 0 {
        1_000_000_000 - nanos
    } else {
        nanos as int
    };
    if nanos < 1_000_000_000 && i64::MIN <= seconds <= i64::MAX {
        Some(FileTime { secs: seconds as i64, nanos: rest as u32 })
    } else {
        None
    }
}

/// Makes a file time of a distance from the start of 1970, as a clock of
/// the system measures it: whole seconds and nanoseconds, after the start
/// or before it.
pub fn file_time_of(before_epoch: bool, secs: u64, nanos: u32) -> (r: Option<FileTime>)
    ensures
        r == file_time_spec(before_epoch, secs, nanos),
{
    if nanos >= 1_000_000_000 {
        None
    } else if !before_epoch {
        if secs > 0x7fff_ffff_ffff_ffff {
            None
        } else {
            Some(FileTime { secs: secs as i64, nanos })
        }
    } else if nanos == 0 {
        if secs > 0x8000_0000_0000_0000 {
            None
        } else if secs == 0x8000_0000_0000_0000 {
            Some(FileTime { secs: i64::MIN, nanos: 0 })
        } else {
            Some(FileTime { secs: -(secs as i64), nanos: 0 })
        }
    } else if secs > 0x7fff_ffff_ffff_ffff {
        None
    } else {
        Some(FileTime { secs: -(secs as i64) - 1, nanos: 1_000_000_000 - nanos })
    }
}

/// What chrono's `NaiveDateTime::parse_from_str` makes of `text` under
/// `pattern`: the reading it returns, or `None` where it reports an error.
pub uninterp spec fn naive_parse(text: Seq<char>, pattern: Seq<char>) -> Option<WallClock>;

/// Parses `text` with chrono's `NaiveDateTime::parse_from_str` under the
/// strftime pattern `pattern`.
///
/// Trusted: the result is chrono's, with its fields copied out one by one,
/// and a reading that chrono returns names an existing day and time.
#[verifier::external_body]
fn parse_naive(text: &str, pattern: &str) -> (r: Option<WallClock>)
    ensures
        r == naive_parse(text@, pattern@),
        r matches Some(w) ==> w.wf(),
{
    match NaiveDateTime::parse_from_str(text, pattern) {
        Ok(d) => Some(WallClock {
            year: d.year(), month: d.month(), day: d.day(),
            hour: d.hour(), minute: d.minute(), second: d.second(), nano: d.nanosecond(),
        }),
        Err(_) => None,
    }
}

/// Places a wall-clock reading in the local time zone with chrono's
/// `Local.from_local_datetime(..).single()`.
///
/// Trusted: where chrono finds exactly one moment with this reading, the
/// result carries the same reading and the zone's offset at that moment;
/// where the reading is skipped or occurs twice in the zone, the result is
/// `None`. The zone is the machine's, so the contract fixes neither case.
#[verifier::external_body]
fn zone_local(w: &WallClock) -> (r: Option<CaptureTimestamp>)
    requires
        w.wf(),
    ensures
        r matches Some(z) ==> z.wf() && z.local == *w,
{
    let date = NaiveDate::from_ymd_opt(w.year, w.month, w.day).unwrap();
    let naive = date.and_hms_nano_opt(w.hour, w.minute, w.second, w.nano).unwrap();
    match Local.from_local_datetime(&naive).single() {
        Some(d) => Some(CaptureTimestamp {
            local: WallClock {
                year: d.year(), month: d.month(), day: d.day(),
                hour: d.hour(), minute: d.minute(), second: d.second(), nano: d.nanosecond(),
            },
            offset_seconds: d.offset().fix().local_minus_utc(),
        }),
        None => None,
    }
}

/// The strftime pattern of an embedded capture time: `YYYY:MM:DD HH:MM:SS`.
pub open spec fn capture_pattern() -> Seq<char> {
    "%Y:%m:%d %H:%M:%S"@
}

/// Whether a metadata field is an original capture time that parses.
pub open spec fn is_capture_entry(entry: (u32, Seq<char>)) -> bool {
    entry.0 == DATE_TIME_ORIGINAL && naive_parse(entry.1, capture_pattern()) is Some
}

/// The reading of the first field that is an original capture time and
/// parses under the capture pattern.
pub open spec fn first_reading(entries: Seq<(u32, Seq<char>)>) -> Option<WallClock>
    decreases entries.len(),
{
    if entries.len() == 0 {
        None
    } else if is_capture_entry(entries[0]) {
        naive_parse(entries[0].1, capture_pattern())
    } else {
        first_reading(entries.skip(1))
    }
}

/// The embedded capture reading of a file, as far as its bytes decide it.
pub open spec fn exif_reading(bytes: Seq<u8>) -> Option<WallClock> {
    match exif_entries(bytes) {
        Some(entries) => first_reading(entries),
        None => None,
    }
}

/// Finds the first original capture time among `fields` that parses.
pub fn first_capture_reading(fields: &Vec<ExifField>) -> (r: Option<WallClock>)
    ensures
        r == first_reading(fields_view(fields@)),
        r matches Some(w) ==> w.wf(),
{
    let ghost all = fields_view(fields@);
    let mut i: usize = 0;
    assert(all.skip(0) =~= all);
    while i < fields.len()
        invariant
            i <= fields.len(),
            all == fields_view(fields@),
            first_reading(all) == first_reading(all.skip(i as int)),
        decreases fields.len() - i,
    {
        let ghost rest = all.skip(i as int);
        assert(rest.len() > 0 && rest[0] == fields@[i as int]@);
        assert(rest.skip(1) =~= all.skip(i + 1));
        if fields[i].tag == DATE_TIME_ORIGINAL {
            let parsed = parse_naive(fields[i].text.as_str(), "%Y:%m:%d %H:%M:%S");
            if parsed.is_some() {
                return parsed;
            }
        }
        i += 1;
    }
    assert(all.skip(i as int).len() == 0);
    None
}

/// Reads the wall-clock reading of the capture that a file carries in its
/// metadata: that of the first original capture time that parses as
/// `YYYY:MM:DD HH:MM:SS`.
pub fn get_exif_reading(file_data: &[u8]) -> (r: Option<WallClock>)
    ensures
        r == exif_reading(file_data@),
        r matches Some(w) ==> w.wf(),
{
    match read_exif_fields(file_data).fields {
        Some(fields) => first_capture_reading(&fields),
        None => None,
    }
}

/// What the metadata of a file says of its capture time.
#[derive(Debug)]
pub struct MetadataReading {
    /// The capture time, or why there is none.
    pub time: Result<CaptureTimestamp, MetadataError>,
    /// The warnings given while the metadata was read, for the caller to
    /// show.
    pub warnings: Vec<String>,
}

/// Reads the capture time that a file carries in its metadata.
///
/// Bytes whose metadata cannot be read are unparseable. Metadata without an
/// original capture time that parses as `YYYY:MM:DD HH:MM:SS` has the
/// capture time missing. Where there is one, the first of them is placed in
/// the local time zone: the result is the capture time with that reading,
/// unless the zone has no single moment with it. The warnings of the reader
/// come back beside the time.
pub fn get_exif_datetime(file_data: &[u8]) -> (r: MetadataReading)
    ensures
        match exif_entries(file_data@) {
            None => r.time == Err::<CaptureTimestamp, MetadataError>(MetadataError::Unparseable),
            Some(entries) => match first_reading(entries) {
                None => r.time == Err::<CaptureTimestamp, MetadataError>(
                    MetadataError::CaptureTimeMissing,
                ),
                Some(w) => match r.time {
                    Ok(z) => z.wf() && z.local == w,
                    Err(error) => error == MetadataError::LocalTimeNotUnique,
                },
            },
        },
        texts(r.warnings@) == exif_warnings(file_data@),
{
    let scan = read_exif_fields(file_data);
    let time = match scan.fields {
        None => Err(MetadataError::Unparseable),
        Some(fields) => match first_capture_reading(&fields) {
            None => Err(MetadataError::CaptureTimeMissing),
            Some(reading) => match zone_local(&reading) {
                Some(time) => Ok(time),
                None => Err(MetadataError::LocalTimeNotUnique),
            },
        },
    };
    MetadataReading { time, warnings: scan.warnings }
}

/// Places a moment in the local time zone with chrono's
/// `Local.timestamp_opt(..).single()`.
///
/// Trusted: for a moment in range chrono always returns a single local
/// time; it denotes the same moment, with the same nanoseconds. Which
/// offset the zone has then is the machine's to say; the zone data of the
/// machine is taken to be sound, with offsets of less than a day.
#[verifier::external_body]
fn zone_instant(t: FileTime) -> (r: Option<CaptureTimestamp>)
    requires
        t.in_range(),
    ensures
        r is Some,
        r matches Some(z) ==> z.wf() && z.instant() == t.secs && z.local.nano == t.nanos,
{
    match Local.timestamp_opt(t.secs, t.nanos).single() {
        Some(d) => Some(CaptureTimestamp {
            local: WallClock {
                year: d.year(), month: d.month(), day: d.day(),
                hour: d.hour(), minute: d.minute(), second: d.second(), nano: d.nanosecond(),
            },
            offset_seconds: d.offset().fix().local_minus_utc(),
        }),
        None => None,
    }
}

/// The file time that stands for the capture time where the metadata gives
/// none: the creation time, or the modification time where the file system
/// records no creation time.
pub open spec fn chosen_file_time(created: Option<FileTime>, modified: Option<FileTime>) -> Option<
    FileTime,
> {
    if created is Some {
        created
    } else {
        modified
    }
}

/// Derives the capture time from the times that the file system records.
///
/// Succeeds exactly where a time is chosen and is in range; the result is
/// then that moment read in the local time zone.
pub fn get_file_datetime(created: Option<FileTime>, modified: Option<FileTime>) -> (r: Result<
    CaptureTimestamp,
    ConvertError,
>)
    ensures
        match chosen_file_time(created, modified) {
            Some(t) if t.in_range() => r matches Ok(z) && z.wf() && z.instant() == t.secs
                && z.local.nano == t.nanos,
            _ => r == Err::<CaptureTimestamp, ConvertError>(ConvertError::TimestampUnavailable),
        },
{
    let chosen = match created {
        Some(t) => Some(t),
        None => modified,
    };
    match chosen {
        Some(t) => {
            if FIRST_SECOND <= t.secs && t.secs <= LAST_SECOND && t.nanos < 1_000_000_000 {
                match zone_instant(t) {
                    Some(z) => Ok(z),
                    None => Err(ConvertError::TimestampUnavailable),
                }
            } else {
                Err(ConvertError::TimestampUnavailable)
            }
        },
        None => Err(ConvertError::TimestampUnavailable),
    }
}

} // verus!
