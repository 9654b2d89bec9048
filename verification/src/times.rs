//! Modification-time labels.
use vstd::prelude::*;

verus! {

/// Earliest second that chrono can represent: -262143-01-01 00:00:00 UTC.
pub const MIN_TIMESTAMP: i64 = -8334601228800;

/// Latest second that chrono can represent: +262142-12-31 23:59:59 UTC.
pub const MAX_TIMESTAMP: i64 = 8210266876799;

/// The rendering, in UTC, of the instant `secs` seconds after the Unix
/// epoch under the strftime pattern `pattern`, as chrono prints it.
pub uninterp spec fn utc_text(secs: int, pattern: Seq<char>) -> Seq<char>;

/// The pattern of a modification-time label: "%Y-%m-%d %H:%M".
pub open spec fn minute_pattern() -> Seq<char> {
    seq!['%', 'Y', '-', '%', 'm', '-', '%', 'd', ' ', '%', 'H', ':', '%', 'M']
}

/// Whether chrono can represent the instant `secs` seconds after the epoch.
pub open spec fn representable(secs: int) -> bool {
    MIN_TIMESTAMP <= secs <= MAX_TIMESTAMP
}

/// Trusted: `chrono::DateTime::from_timestamp(secs, 0)`, and on success the
/// `Display` text of `format(pattern)` of that date-time. chrono's source
/// returns `None` exactly when the day falls outside the dates from year
/// -262143 to year 262142, which is the range `representable` states; the
/// text itself is named, not spelled out. The pattern is held to the label
/// pattern, whose items chrono always renders (an invalid pattern would make
/// the text conversion panic).
#[verifier::external_body]
fn utc_label(secs: i64, pattern: &str) -> (r: Option<String>)
    requires
        pattern@ == minute_pattern(),
    ensures
        r is Some <==> representable(secs as int),
        r matches Some(s) ==> s@ == utc_text(secs as int, pattern@),
{
    match chrono::DateTime::from_timestamp(secs, 0) {
        Some(dt) => Some(dt.format(pattern).to_string()),
        None => None,
    }
}

/// The label of an optional modification time.
pub open spec fn time_text(ts: Option<i64>) -> Seq<char> {
    match ts {
        Some(t) => if representable(t as int) {
            utc_text(t as int, minute_pattern())
        } else {
            Seq::empty()
        },
        None => Seq::empty(),
    }
}

/// Label for an optional modification time (seconds since the epoch):
/// empty when there is none or chrono cannot represent it.
pub fn format_time(ts: Option<i64>) -> (r: String)
    ensures
        r@ == time_text(ts),
{
    match ts {
        Some(t) => {
            let pattern = "%Y-%m-%d %H:%M";
            proof {
                reveal_strlit("%Y-%m-%d %H:%M");
            }
            assert(pattern@ =~= minute_pattern());
            match utc_label(t, pattern) {
                Some(s) => s,
                None => String::new(),
            }
        },
        None => String::new(),
    }
}

} // verus!
