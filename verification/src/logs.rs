//! Log retrieval policy: a bounded lookback window, a line cap, and a
//! placeholder for a container that produced nothing in the window.
use crate::text::concat_views;
use vstd::prelude::*;
use vstd::string::{StrSliceExecFns, StringExecFns};

verus! {

/// Seconds of log history a request looks back over: thirty minutes.
pub const LOOKBACK_SECS: i64 = 1800;

/// At most this many lines are requested from the tail of the log.
pub const TAIL_LINES: u64 = 100;

/// The bounds of one log request: combined stdout and stderr since a Unix
/// timestamp floor, capped at a line count.
pub struct LogQuery {
    pub since: i64,
    pub tail: u64,
    pub stdout: bool,
    pub stderr: bool,
}

/// The window floor: thirty minutes before `now`, clamped at the type's
/// minimum so that the subtraction cannot wrap.
pub open spec fn window_floor(now: i64) -> i64 {
    if now >= i64::MIN + LOOKBACK_SECS {
        (now - LOOKBACK_SECS) as i64
    } else {
        i64::MIN
    }
}

/// Builds the query for recent logs: both streams, a thirty-minute
/// lookback from `now`, and at most `TAIL_LINES` lines.
pub fn log_query(now: i64) -> (q: LogQuery)
    ensures
        q.since == window_floor(now),
        q.tail == TAIL_LINES,
        q.stdout,
        q.stderr,
{
    let since = if now >= i64::MIN + LOOKBACK_SECS {
        now - LOOKBACK_SECS
    } else {
        i64::MIN
    };
    LogQuery { since, tail: TAIL_LINES, stdout: true, stderr: true }
}

/// Relies on `chrono::Utc::now`, reduced to a Unix timestamp in whole
/// seconds by `DateTime::timestamp`. The value is the clock's; nothing
/// about it is promised.
#[verifier::external_body]
fn now_unix_seconds() -> i64 {
    chrono::Utc::now().timestamp()
}

/// Builds the query for recent logs against the clock's current time:
/// both streams, a thirty-minute lookback, at most `TAIL_LINES` lines.
pub fn current_log_query() -> (q: LogQuery)
    ensures
        q.tail == TAIL_LINES,
        q.stdout,
        q.stderr,
{
    log_query(now_unix_seconds())
}

/// Concatenates the retrieved log chunks in arrival order. When nothing
/// arrived within the window, the result is a placeholder naming the
/// container and the window, never the empty string.
pub fn render_logs(name: &str, chunks: &Vec<String>) -> (r: String)
    ensures
        ({
            let text = concat_views(chunks@.map_values(|s: String| s@));
            if text.len() == 0 {
                r@ == "No logs for "@ + name@ + " in last 30m."@
            } else {
                r@ == text
            }
        }),
        r@.len() > 0,
{
    let text = crate::text::concat_strings(chunks);
    if text.as_str().unicode_len() == 0 {
        let mut out = "No logs for ".to_owned();
        out.append(name);
        out.append(" in last 30m.");
        proof {
            reveal_strlit("No logs for ");
            reveal_strlit(" in last 30m.");
        }
        out
    } else {
        text
    }
}

} // verus!
