//! The span of days whose uploads the batch job looks at.

use vstd::prelude::*;

verus! {

/// Seconds in a day.
pub const DAY_SECONDS: i64 = 86400;

/// Days that the span reaches back from today.
pub const WINDOW_DAYS: i64 = 3;

/// How a day is written: year, month and day with hyphens between them.
pub const DAY_PATTERN: &'static str = "%Y-%m-%d";

/// The first second that the calendar reaches: the start of the year
/// 262144 before the common era.
pub const FIRST_MOMENT: i64 = -8334601228800;

/// The last second that the calendar reaches: the end of the year 262142.
pub const LAST_MOMENT: i64 = 8210266876799;

/// A moment in UTC written after `pattern`, where the calendar reaches that
/// far. The moment is given in seconds since the start of 1970.
pub uninterp spec fn utc_text(seconds: int, pattern: Seq<char>) -> Option<Seq<char>>;

/// The day of a moment in UTC, where the calendar reaches that far.
pub open spec fn utc_day(seconds: int) -> Option<Seq<char>> {
    utc_text(seconds, DAY_PATTERN@)
}

/// `DateTime::from_timestamp` and `format` of chrono. Trusted: the text is
/// the one that `utc_text` names for the moment and the pattern; there is
/// one exactly for the moments from the start of chrono's first year to
/// the end of its last. Only the pattern of a day is handed on: chrono
/// stops on a pattern that it cannot read.
#[verifier::external_body]
fn utc_text_of(seconds: i64, pattern: &str) -> (text: Option<String>)
    requires
        pattern@ == DAY_PATTERN@,
    ensures
        text matches Some(written) ==> utc_text(seconds as int, pattern@) == Some(written@),
        text is None ==> utc_text(seconds as int, pattern@) is None,
        text is Some <==> FIRST_MOMENT <= seconds <= LAST_MOMENT,
{
    chrono::DateTime::from_timestamp(seconds, 0).map(|moment| moment.format(pattern).to_string())
}

/// The first and the last day of the uploads to look at.
#[derive(Debug)]
pub struct UpdateWindow {
    pub uploaded_gte: String,
    pub uploaded_lte: String,
}

/// The moment at which the span that ends at `now` starts, where it can be
/// told in seconds.
pub open spec fn window_start(now: int) -> Option<int> {
    if now - WINDOW_DAYS * DAY_SECONDS >= i64::MIN {
        Some(now - WINDOW_DAYS * DAY_SECONDS)
    } else {
        None
    }
}

/// The first and the last day of the span that ends at `now`.
pub open spec fn window_days(now: int) -> Option<(Seq<char>, Seq<char>)> {
    match window_start(now) {
        Some(start) => match (utc_day(start), utc_day(now)) {
            (Some(first), Some(last)) => Some((first, last)),
            _ => None,
        },
        None => None,
    }
}

/// Whether `window` is what the span that ends at the moment `now` comes
/// to: its first and its last day where the calendar reaches both, and
/// nothing where it does not.
pub open spec fn ends_at(window: Option<UpdateWindow>, now: int) -> bool {
    match window_days(now) {
        Some((first, last)) => window matches Some(w) && w.uploaded_gte@ == first
            && w.uploaded_lte@ == last,
        None => window is None,
    }
}

/// Three days before `now`, where that moment can be told in seconds.
pub fn start_of_window(now: i64) -> (start: Option<i64>)
    ensures
        match window_start(now as int) {
            Some(moment) => start == Some(moment as i64) && moment == moment as i64,
            None => start is None,
        },
{
    now.checked_sub(WINDOW_DAYS * DAY_SECONDS)
}

impl UpdateWindow {
    /// The span between two days, where both are known.
    pub fn between(first: Option<String>, last: Option<String>) -> (window: Option<UpdateWindow>)
        ensures
            window is Some <==> first is Some && last is Some,
            window matches Some(w) ==> w.uploaded_gte == first->0 && w.uploaded_lte == last->0,
    {
        match (first, last) {
            (Some(uploaded_gte), Some(uploaded_lte)) => Some(
                UpdateWindow { uploaded_gte, uploaded_lte },
            ),
            _ => None,
        }
    }

    /// The span of the three days up to the moment `now`, given in seconds
    /// since the start of 1970: from the day three days before `now` to the
    /// day of `now`. There is one exactly where the calendar reaches both
    /// days.
    pub fn ending_at(now: i64) -> (window: Option<UpdateWindow>)
        ensures
            ends_at(window, now as int),
            window is Some <==> FIRST_MOMENT + WINDOW_DAYS * DAY_SECONDS <= now <= LAST_MOMENT,
    {
        match start_of_window(now) {
            Some(start) => UpdateWindow::between(
                utc_text_of(start, DAY_PATTERN),
                utc_text_of(now, DAY_PATTERN),
            ),
            None => None,
        }
    }
}

} // verus!
