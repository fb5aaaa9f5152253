//! Human-readable rendering of timestamps, token counts and assistant errors.
use vstd::prelude::*;
use crate::text::{ends_with, i64_to_string, int_decimal};
use crate::types::{AssistantError, TokenUsage};

verus! {

/// Truncating division (Rust's `/` on signed integers), for a positive divisor.
pub open spec fn tdiv(a: int, b: int) -> int {
    if a >= 0 {
        a / b
    } else {
        -((-a) / b)
    }
}

/// The remainder that goes with truncating division (Rust's `%` on signed integers).
pub open spec fn trem(a: int, b: int) -> int {
    a - b * tdiv(a, b)
}

/// A small integer read as a byte, as `as u8` does for values in `(-256, 256)`.
pub open spec fn as_byte(x: int) -> int {
    if x < 0 {
        x + 256
    } else {
        x
    }
}

/// A number with at least two digits, zero-padded on the left (`{:02}`).
pub open spec fn pad2(n: int) -> Seq<char> {
    if 0 <= n < 10 {
        "0"@ + int_decimal(n)
    } else {
        int_decimal(n)
    }
}

/// The wall-clock time `HH:MM` (UTC) of a timestamp in milliseconds.
pub open spec fn clock_text(ts: int) -> Seq<char> {
    let secs = tdiv(ts, 1000);
    let tod = trem(secs, 86400);
    let h = as_byte(tdiv(tod, 3600));
    let m = as_byte(tdiv(trem(tod, 3600), 60));
    pad2(h) + ":"@ + pad2(m)
}

/// Whether two timestamps in milliseconds fall on the same (UTC) day.
pub open spec fn same_day(ts: int, now: int) -> bool {
    tdiv(ts, 86_400_000) == tdiv(now, 86_400_000)
}

/// How `ts` is shown, seen at time `now` (both in milliseconds since the epoch):
/// "just now" under a minute, "N min ago" under an hour, the clock time (such as
/// "14:30") for an earlier message of the same day, "1 hour ago" / "N hours ago"
/// for one of the day before that is less than a day old, and otherwise the
/// clock time followed by the number of days.
/// `singular_day` chooses "1 day ago" over "1 days ago".
pub open spec fn timestamp_text(ts: i64, now: i64, singular_day: bool) -> Seq<char> {
    let diff_ms = now.wrapping_sub(ts) as int;
    let diff_secs = tdiv(diff_ms, 1000);
    let diff_mins = tdiv(diff_secs, 60);
    let diff_hours = tdiv(diff_mins, 60);
    if diff_secs < 60 {
        "just now"@
    } else if diff_mins < 60 {
        int_decimal(diff_mins) + " min ago"@
    } else if same_day(ts as int, now as int) {
        clock_text(ts as int)
    } else if diff_hours < 24 {
        if diff_hours == 1 {
            "1 hour ago"@
        } else {
            int_decimal(diff_hours) + " hours ago"@
        }
    } else {
        let days = diff_hours / 24;
        clock_text(ts as int) + " ("@ + int_decimal(days) + if singular_day && days == 1 {
            " day ago)"@
        } else {
            " days ago)"@
        }
    }
}

/// The current time in milliseconds since the Unix epoch, from std's `SystemTime`.
/// It depends on the clock, so nothing is stated of it. A clock set before the
/// epoch reads as 0.
#[verifier::external_body]
pub(crate) fn now_millis() -> (ms: i64) {
    std::time::SystemTime::now().duration_since(std::time::UNIX_EPOCH).unwrap_or_default().as_millis() as i64
}

fn push_pad2(out: &mut String, n: i64)
    ensures
        final(out)@ == old(out)@ + pad2(n as int),
{
    if 0 <= n && n < 10 {
        out.append("0");
    }
    let s = i64_to_string(n);
    out.append(s.as_str());
    proof {
        if 0 <= n < 10 {
            assert(out@ =~= old(out)@ + pad2(n as int));
        }
    }
}

fn byte_of(x: i64) -> (r: i64)
    requires
        -256 < x < 256,
    ensures
        r == as_byte(x as int),
{
    if x < 0 {
        x + 256
    } else {
        x
    }
}

/// Formats a timestamp (milliseconds since the epoch) relative to `now_ms`.
/// `singular_day` writes "1 day ago" rather than "1 days ago".
pub fn format_timestamp_at(timestamp_ms: i64, now_ms: i64, singular_day: bool) -> (r: String)
    ensures
        r@ == timestamp_text(timestamp_ms, now_ms, singular_day),
{
    let diff_ms = now_ms.wrapping_sub(timestamp_ms);
    let diff_secs = diff_ms / 1000;
    let diff_mins = diff_secs / 60;
    let diff_hours = diff_mins / 60;
    if diff_secs < 60 {
        return String::from_str("just now");
    }
    if diff_mins < 60 {
        let mut r = i64_to_string(diff_mins);
        r.append(" min ago");
        return r;
    }
    let timestamp_secs = timestamp_ms / 1000;
    let time_of_day_secs = timestamp_secs % 86400;
    let hours = byte_of(time_of_day_secs / 3600);
    let minutes = byte_of((time_of_day_secs % 3600) / 60);
    let mut r = String::new();
    push_pad2(&mut r, hours);
    r.append(":");
    push_pad2(&mut r, minutes);
    if timestamp_ms / 86_400_000 == now_ms / 86_400_000 {
        return r;
    }
    if diff_hours < 24 {
        if diff_hours == 1 {
            return String::from_str("1 hour ago");
        }
        let mut r = i64_to_string(diff_hours);
        r.append(" hours ago");
        return r;
    }
    let days_ago = diff_hours / 24;
    r.append(" (");
    let d = i64_to_string(days_ago);
    r.append(d.as_str());
    if singular_day && days_ago == 1 {
        r.append(" day ago)");
    } else {
        r.append(" days ago)");
    }
    r
}

/// Formats a Unix timestamp (milliseconds since epoch) into a human-readable
/// time: "just now" or "5 min ago" for very recent messages, the time of day
/// such as "14:30" for today's, "3 hours ago" for yesterday's that are less
/// than a day old, and for older ones the time of day followed by "(1 day ago)"
/// / "(N days ago)".
pub fn format_timestamp(timestamp_ms: i64) -> (r: String)
    ensures
        exists|now: i64| r@ == timestamp_text(timestamp_ms, now, true),
{
    let now = now_millis();
    format_timestamp_at(timestamp_ms, now, true)
}

/// The token summary line of a message.
pub open spec fn token_usage_text(t: TokenUsage) -> Seq<char> {
    "Tokens: in "@ + int_decimal(t.input as int) + " / out "@ + int_decimal(t.output as int)
        + " / r "@ + int_decimal(t.reasoning as int) + " / cache "@ + int_decimal(
        t.cache.read as int,
    ) + "r "@ + int_decimal(t.cache.write as int) + "w"@
}

pub fn format_token_usage(tokens: &TokenUsage) -> (r: String)
    ensures
        r@ == token_usage_text(*tokens),
{
    let mut r = String::from_str("Tokens: in ");
    r.append(i64_to_string(tokens.input).as_str());
    r.append(" / out ");
    r.append(i64_to_string(tokens.output).as_str());
    r.append(" / r ");
    r.append(i64_to_string(tokens.reasoning).as_str());
    r.append(" / cache ");
    r.append(i64_to_string(tokens.cache.read).as_str());
    r.append("r ");
    r.append(i64_to_string(tokens.cache.write).as_str());
    r.append("w");
    r
}

/// The guidance line for an API error, chosen by its HTTP status and retryability.
pub open spec fn api_error_guidance(status_code: Option<i64>, is_retryable: bool) -> Seq<char> {
    match status_code {
        Some(c) if c == 401 || c == 403 => "Action: check your API key and account permissions."@,
        Some(c) if c == 429 => "Action: rate limited; wait and retry, or reduce request rate."@,
        Some(c) if c >= 500 => "Action: provider error; try again shortly."@,
        _ => if is_retryable {
            "Action: transient error; retry the request."@
        } else {
            "Action: review request details and try again."@
        },
    }
}

/// The text shown for an assistant error: what went wrong, then on a second line
/// what the user can do about it.
pub open spec fn assistant_error_text(e: AssistantError) -> Seq<char> {
    match e {
        AssistantError::ProviderAuthError { provider_id, message } => "Authentication error for "@
            + provider_id@ + ": "@ + message@
            + "\nAction: check your API key or re-authenticate this provider."@,
        AssistantError::APIError { message, status_code, is_retryable, .. } => "API error: "@
            + message@ + match status_code {
            Some(c) => " (HTTP "@ + int_decimal(c as int) + ")"@,
            None => Seq::empty(),
        } + "\n"@ + api_error_guidance(status_code, is_retryable),
        AssistantError::MessageOutputLengthError =>
            "Message exceeded output length.\nAction: ask for a shorter answer or split the request."@,
        AssistantError::MessageAbortedError { message } => "Message aborted: "@ + message@
            + "\nAction: resend if this was unintended."@,
        AssistantError::UnknownError { message } => "Unexpected error: "@ + message@
            + "\nAction: try again or check provider status."@,
        AssistantError::StructuredOutputError { message, retries } => "Structured output error: "@
            + message@ + " (after "@ + int_decimal(retries as int) + " retries)"@
            + "\nAction: adjust the requested format or try again."@,
        AssistantError::ContextOverflowError { message, .. } => "Context limit exceeded: "@
            + message@ + "\nAction: start a new session or summarize this one."@,
    }
}

fn api_guidance(status_code: Option<i64>, is_retryable: bool) -> (r: &'static str)
    ensures
        r@ == api_error_guidance(status_code, is_retryable),
{
    match status_code {
        Some(c) if c == 401 || c == 403 => "Action: check your API key and account permissions.",
        Some(c) if c == 429 => "Action: rate limited; wait and retry, or reduce request rate.",
        Some(c) if c >= 500 => "Action: provider error; try again shortly.",
        _ => if is_retryable {
            "Action: transient error; retry the request."
        } else {
            "Action: review request details and try again."
        },
    }
}

pub fn format_assistant_error(error: &AssistantError) -> (r: String)
    ensures
        r@ == assistant_error_text(*error),
{
    match error {
        AssistantError::ProviderAuthError { provider_id, message } => {
            let mut r = String::from_str("Authentication error for ");
            r.append(provider_id.as_str());
            r.append(": ");
            r.append(message.as_str());
            r.append("\nAction: check your API key or re-authenticate this provider.");
            r
        },
        AssistantError::APIError { message, status_code, is_retryable, .. } => {
            let mut r = String::from_str("API error: ");
            r.append(message.as_str());
            match status_code {
                Some(code) => {
                    r.append(" (HTTP ");
                    r.append(i64_to_string(*code).as_str());
                    r.append(")");
                },
                None => {},
            }
            r.append("\n");
            r.append(api_guidance(*status_code, *is_retryable));
            proof {
                if status_code.is_none() {
                    assert(r@ =~= assistant_error_text(*error));
                }
            }
            r
        },
        AssistantError::MessageOutputLengthError => {
            String::from_str(
                "Message exceeded output length.\nAction: ask for a shorter answer or split the request.",
            )
        },
        AssistantError::MessageAbortedError { message } => {
            let mut r = String::from_str("Message aborted: ");
            r.append(message.as_str());
            r.append("\nAction: resend if this was unintended.");
            r
        },
        AssistantError::UnknownError { message } => {
            let mut r = String::from_str("Unexpected error: ");
            r.append(message.as_str());
            r.append("\nAction: try again or check provider status.");
            r
        },
        AssistantError::StructuredOutputError { message, retries } => {
            let mut r = String::from_str("Structured output error: ");
            r.append(message.as_str());
            r.append(" (after ");
            r.append(i64_to_string(*retries).as_str());
            r.append(" retries)");
            r.append("\nAction: adjust the requested format or try again.");
            r
        },
        AssistantError::ContextOverflowError { message, .. } => {
            let mut r = String::from_str("Context limit exceeded: ");
            r.append(message.as_str());
            r.append("\nAction: start a new session or summarize this one.");
            r
        },
    }
}

/// An API error with HTTP status 401 or 403 always ends with the advice to check
/// the API key and the account's permissions, whether or not it is retryable and
/// whatever its message.
pub proof fn law_auth_failures_point_to_the_api_key(e: AssistantError, code: i64)
    requires
        e matches AssistantError::APIError { status_code, .. } && status_code == Some(code),
        code == 401 || code == 403,
    ensures
        ends_with(assistant_error_text(e), "\nAction: check your API key and account permissions."@),
{
    reveal_strlit("\nAction: check your API key and account permissions.");
    reveal_strlit("\n");
    reveal_strlit("Action: check your API key and account permissions.");
    let t = assistant_error_text(e);
    let tail = "\n"@ + "Action: check your API key and account permissions."@;
    assert(tail =~= "\nAction: check your API key and account permissions."@);
    match e {
        AssistantError::APIError { message, status_code, is_retryable, .. } => {
            let head = "API error: "@ + message@ + match status_code {
                Some(c) => " (HTTP "@ + int_decimal(c as int) + ")"@,
                None => Seq::empty(),
            };
            assert(t == head + tail);
            assert((head + tail).skip(head.len() as int) =~= tail);
        },
        _ => {},
    }
}

/// The text of an API error ends with its advice, chosen by the HTTP status:
/// rate limiting for 429, a provider problem for 500 and above, and otherwise a
/// retry when the error is retryable or a review of the request when not.
pub proof fn law_api_error_advice_follows_status(e: AssistantError)
    requires
        e is APIError,
    ensures
        (e->APIError_status_code matches Some(c) && c == 429)
            ==> ends_with(assistant_error_text(e), "\nAction: rate limited; wait and retry, or reduce request rate."@),
        (e->APIError_status_code matches Some(c) && c >= 500)
            ==> ends_with(assistant_error_text(e), "\nAction: provider error; try again shortly."@),
        (e->APIError_status_code is None && e->APIError_is_retryable)
            ==> ends_with(assistant_error_text(e), "\nAction: transient error; retry the request."@),
        (e->APIError_status_code is None && !e->APIError_is_retryable)
            ==> ends_with(assistant_error_text(e), "\nAction: review request details and try again."@),
{
    reveal_strlit("\n");
    reveal_strlit("\nAction: rate limited; wait and retry, or reduce request rate.");
    reveal_strlit("Action: rate limited; wait and retry, or reduce request rate.");
    reveal_strlit("\nAction: provider error; try again shortly.");
    reveal_strlit("Action: provider error; try again shortly.");
    reveal_strlit("\nAction: transient error; retry the request.");
    reveal_strlit("Action: transient error; retry the request.");
    reveal_strlit("\nAction: review request details and try again.");
    reveal_strlit("Action: review request details and try again.");
    match e {
        AssistantError::APIError { message, status_code, is_retryable, .. } => {
            let head = "API error: "@ + message@ + match status_code {
                Some(c) => " (HTTP "@ + int_decimal(c as int) + ")"@,
                None => Seq::empty(),
            };
            let tail = "\n"@ + api_error_guidance(status_code, is_retryable);
            assert(assistant_error_text(e) == head + tail);
            assert((head + tail).skip(head.len() as int) =~= tail);
            assert("\n"@ + "Action: rate limited; wait and retry, or reduce request rate."@
                =~= "\nAction: rate limited; wait and retry, or reduce request rate."@);
            assert("\n"@ + "Action: provider error; try again shortly."@ =~= "\nAction: provider error; try again shortly."@);
            assert("\n"@ + "Action: transient error; retry the request."@ =~= "\nAction: transient error; retry the request."@);
            assert("\n"@ + "Action: review request details and try again."@ =~= "\nAction: review request details and try again."@);
        },
        _ => {},
    }
}

} // verus!
