use vstd::prelude::*;
use crate::text::{concat, padded, decimal, padded_text, decimal_text};

verus! {

/// The calendar date (year, month, day) of a day counted from 1 January of
/// year 1 (day 1), as chrono gives it; `None` outside chrono's range.
pub uninterp spec fn civil_of(day: int) -> Option<(int, int, int)>;

/// Relies on chrono's `NaiveDate::from_num_days_from_ce_opt` and its
/// `year`, `month` and `day`: the date depends on the day number alone, and
/// months run from 1 to 12, days of the month from 1 to 31.
#[verifier::external_body]
fn civil_date(day: i32) -> (r: Option<(i32, u32, u32)>)
    ensures
        match r {
            Some(t) => civil_of(day as int) == Some((t.0 as int, t.1 as int, t.2 as int)) && 1
                <= t.1 <= 12 && 1 <= t.2 <= 31,
            None => civil_of(day as int) is None,
        },
{
    chrono::NaiveDate::from_num_days_from_ce_opt(day).map(
        |d| (chrono::Datelike::year(&d), chrono::Datelike::month(&d), chrono::Datelike::day(&d)),
    )
}

/// One archive shard: one hour of one day, the day counted as chrono counts
/// days from the common era (1 January of year 1 is day 1).
#[derive(Clone, Copy, Debug, PartialEq, Eq, Structural)]
pub struct Shard {
    pub day: i32,
    pub hour: u32,
}

pub open spec fn ext_text() -> Seq<char> {
    seq!['.', 'j', 's', 'o', 'n', '.', 'g', 'z']
}

/// The file name of the shard of an hour of a date:
/// `YYYY-MM-DD-H.json.gz`, the hour not padded.
pub open spec fn date_hour_name(y: int, m: int, d: int, hour: int) -> Seq<char> {
    padded_text(y as nat, 4) + seq!['-'] + padded_text(m as nat, 2) + seq!['-'] + padded_text(
        d as nat,
        2,
    ) + seq!['-'] + decimal_text(hour as nat) + ext_text()
}

/// The file name of a shard; `None` where its date has no four-digit year.
pub open spec fn shard_name_of(s: Shard) -> Option<Seq<char>> {
    match civil_of(s.day as int) {
        Some((y, m, d)) => if 0 <= y <= 9999 {
            Some(date_hour_name(y, m, d, s.hour as int))
        } else {
            None
        },
        None => None,
    }
}

/// The file name of the shard of an hour of a date, `YYYY-MM-DD-H.json.gz`.
pub fn date_hour_file_name(year: u32, month: u32, day: u32, hour: u32) -> (r: String)
    ensures
        r@ == date_hour_name(year as int, month as int, day as int, hour as int),
{
    let t = padded(year, 4);
    let t = concat(t.as_str(), "-");
    let mm = padded(month, 2);
    let t = concat(t.as_str(), mm.as_str());
    let t = concat(t.as_str(), "-");
    let dd = padded(day, 2);
    let t = concat(t.as_str(), dd.as_str());
    let t = concat(t.as_str(), "-");
    let h = decimal(hour);
    let t = concat(t.as_str(), h.as_str());
    let t = concat(t.as_str(), ".json.gz");
    proof {
        reveal_strlit("-");
        reveal_strlit(".json.gz");
        assert(t@ =~= date_hour_name(year as int, month as int, day as int, hour as int));
    }
    t
}

/// The file name of a shard, `YYYY-MM-DD-H.json.gz` with the hour not padded.
pub fn shard_file_name(s: Shard) -> (r: Option<String>)
    ensures
        match r {
            Some(t) => shard_name_of(s) == Some(t@),
            None => shard_name_of(s) is None,
        },
{
    match civil_date(s.day) {
        None => None,
        Some((y, m, d)) => {
            if y < 0 || y > 9999 {
                return None;
            }
            Some(date_hour_file_name(y as u32, m, d, s.hour))
        },
    }
}

/// Where a shard lives under a base: `{base}/{name}`. With the archive's
/// base URL this is the address to fetch; with the data directory, the
/// local path.
pub fn shard_location(base: &str, s: Shard) -> (r: Option<String>)
    ensures
        match r {
            Some(t) => shard_name_of(s) is Some && t@ == base@ + seq!['/'] + shard_name_of(s)->0,
            None => shard_name_of(s) is None,
        },
{
    match shard_file_name(s) {
        None => None,
        Some(name) => {
            let t = concat(base, "/");
            let t = concat(t.as_str(), name.as_str());
            proof {
                reveal_strlit("/");
                assert(t@ =~= base@ + seq!['/'] + shard_name_of(s)->0);
            }
            Some(t)
        },
    }
}

/// Every shard of an inclusive range of days, hour by hour: 24 per day.
pub fn shards_in_range(first_day: i32, last_day: i32) -> (r: Vec<Shard>)
    ensures
        r@.len() == if first_day <= last_day {
            (last_day - first_day + 1) * 24
        } else {
            0
        },
        forall|k: int|
            0 <= k < r@.len() ==> r@[k] == (Shard {
                day: (first_day + k / 24) as i32,
                hour: (k % 24) as u32,
            }),
{
    let mut out: Vec<Shard> = Vec::new();
    if first_day > last_day {
        return out;
    }
    let mut day: i64 = first_day as i64;
    while day <= last_day as i64
        invariant
            first_day <= day <= last_day + 1,
            out@.len() == (day - first_day) * 24,
            forall|k: int|
                0 <= k < out@.len() ==> out@[k] == (Shard {
                    day: (first_day + k / 24) as i32,
                    hour: (k % 24) as u32,
                }),
        decreases last_day + 1 - day,
    {
        let mut hour: u32 = 0;
        while hour < 24
            invariant
                first_day <= day <= last_day,
                day <= i32::MAX,
                hour <= 24,
                out@.len() == (day - first_day) * 24 + hour,
                forall|k: int|
                    0 <= k < out@.len() ==> out@[k] == (Shard {
                        day: (first_day + k / 24) as i32,
                        hour: (k % 24) as u32,
                    }),
            decreases 24 - hour,
        {
            let ghost k = out@.len() as int;
            out.push(Shard { day: day as i32, hour });
            proof {
                let b = (day - first_day) as int;
                assert(k == b * 24 + hour);
                assert(k / 24 == b && k % 24 == hour as int) by (nonlinear_arith)
                    requires
                        k == b * 24 + hour,
                        0 <= hour < 24,
                        b >= 0,
                ;
            }
            hour = hour + 1;
        }
        day = day + 1;
    }
    out
}

/// What a shard fetcher does next.
#[derive(Clone, Copy, Debug, PartialEq, Eq, Structural)]
pub enum FetchAction {
    /// The shard is already on disk: nothing is fetched.
    Skip,
    /// Wait this many seconds, then download the shard.
    Download { wait_secs: u64 },
    /// The shard was stored.
    Done,
    /// The attempts are used up; this shard contributes no records.
    GiveUp,
}

/// Most downloads tried for one shard.
pub const MAX_FETCH_ATTEMPTS: u32 = 3;

/// The first step for a shard: one whose file exists is skipped without
/// any request; otherwise it is downloaded at once.
pub fn fetch_start(exists: bool) -> (r: FetchAction)
    ensures
        exists ==> r == FetchAction::Skip,
        !exists ==> r == (FetchAction::Download { wait_secs: 0 }),
{
    if exists {
        FetchAction::Skip
    } else {
        FetchAction::Download { wait_secs: 0 }
    }
}

/// The step after download number `attempt` (from 1): done when it
/// succeeded; otherwise another download after `2 × attempt` seconds,
/// until three have failed.
pub fn after_download(attempt: u32, succeeded: bool) -> (r: FetchAction)
    requires
        1 <= attempt <= MAX_FETCH_ATTEMPTS,
    ensures
        succeeded ==> r == FetchAction::Done,
        !succeeded && attempt < MAX_FETCH_ATTEMPTS ==> r == (FetchAction::Download {
            wait_secs: (2 * attempt) as u64,
        }),
        !succeeded && attempt >= MAX_FETCH_ATTEMPTS ==> r == FetchAction::GiveUp,
{
    if succeeded {
        FetchAction::Done
    } else if attempt < MAX_FETCH_ATTEMPTS {
        FetchAction::Download { wait_secs: 2 * attempt as u64 }
    } else {
        FetchAction::GiveUp
    }
}

} // verus!
