//! What the headers of rate limits are read as, header by header.

use crate::client::{RequestFailure, RetryConfig};
use crate::decimal::i64_of;
use crate::rate_limits::{
    anthropic_rate_limits, balance_of, bool_of, credits_of, header_i64, header_values,
    primary_used_text, rate_limits_given, remaining_window, reported_window, secondary_used_text,
    visible_text, RateLimitSnapshot, RateLimitWindow, UsedPercent,
};
use crate::text::{is_white_space, trimmed};
use crate::text_laws::{law_case_is_ignored, law_trimming_takes_white_space, same_letter};
use http::{HeaderMap, HeaderValue};
use vstd::prelude::*;

verus! {

/// The text under a header's name, where the header is there and is text.
pub open spec fn text_under(headers: HeaderMap<HeaderValue>, name: Seq<char>) -> Option<Seq<char>> {
    if header_values(headers).contains_key(name) {
        visible_text(header_values(headers)[name])
    } else {
        None
    }
}

/// The integer under a header's name, where the header is there and spells one.
pub open spec fn integer_under(headers: HeaderMap<HeaderValue>, name: Seq<char>) -> Option<i64> {
    match text_under(headers, name) {
        Some(text) => i64_of(text),
        None => None,
    }
}

/// Whether two texts are the same but for the case of ASCII letters.
pub open spec fn same_word(a: Seq<char>, b: Seq<char>) -> bool {
    a.len() == b.len() && forall|i: int| 0 <= i < a.len() ==> same_letter(#[trigger] a[i], b[i])
}

/// A text says yes exactly if it is `1` or the word `true`, and no exactly if it is `0` or the word
/// `false`, in any case of letters.
pub proof fn law_truth_values(text: Seq<char>)
    ensures
        bool_of(text) == Some(true) <==> text == "1"@ || same_word(text, "true"@),
        bool_of(text) == Some(false) <==> text == "0"@ || same_word(text, "false"@),
{
    law_case_is_ignored(text, "true"@);
    law_case_is_ignored(text, "false"@);
    reveal_strlit("1");
    reveal_strlit("0");
    reveal_strlit("true");
    reveal_strlit("false");
    assert("1"@.len() == 1);
    assert("0"@.len() == 1);
    assert("1"@[0] == '1');
    assert("0"@[0] == '0');
    assert("true"@.len() == 4);
    assert("false"@.len() == 5);
}

/// A window is told of exactly if its percentage is a finite number and something in it is not zero: the
/// percentage, or the minutes; or a reset time is given. It then holds all three as they are.
pub proof fn law_window_is_reported(bits: u64, minutes: Option<i64>, resets_at: Option<i64>)
    ensures
        ({
            let exponent = (bits as int / 0x10_0000_0000_0000) % 0x800;
            let magnitude = bits as int % 0x8000_0000_0000_0000;
            let told = exponent < 0x7ff && (magnitude > 0 || resets_at is Some || (minutes is Some
                && minutes->0 != 0));
            &&& told ==> reported_window(Some(bits), minutes, resets_at) == Some(
                RateLimitWindow {
                    used_percent: UsedPercent::Bits(bits),
                    window_minutes: minutes,
                    resets_at,
                },
            )
            &&& !told ==> reported_window(Some(bits), minutes, resets_at) is None
            &&& reported_window(None, minutes, resets_at) is None
        }),
{
}

/// Each of the two windows is read from its own headers, and from no other: where it is told of, it holds
/// the percentage it was given, and the minutes and the reset time that its own headers spell.
pub proof fn law_each_window_has_its_headers(
    headers: HeaderMap<HeaderValue>,
    primary_used: Option<u64>,
    secondary_used: Option<u64>,
)
    ensures
        ({
            let limits = rate_limits_given(headers, primary_used, secondary_used);
            &&& limits.primary matches Some(window) ==> {
                &&& window.window_minutes == integer_under(
                    headers,
                    "x-codex-primary-window-minutes"@,
                )
                &&& window.resets_at == integer_under(headers, "x-codex-primary-reset-at"@)
                &&& primary_used is Some
                &&& window.used_percent == UsedPercent::Bits(primary_used->0)
            }
            &&& limits.secondary matches Some(window) ==> {
                &&& window.window_minutes == integer_under(
                    headers,
                    "x-codex-secondary-window-minutes"@,
                )
                &&& window.resets_at == integer_under(headers, "x-codex-secondary-reset-at"@)
                &&& secondary_used is Some
                &&& window.used_percent == UsedPercent::Bits(secondary_used->0)
            }
            &&& limits.plan_type is None
        }),
{
}

/// What is told of a window depends on nothing but its own percentage and its own two headers: it is the
/// same for any other headers that agree in those, and a window is told of wherever its percentage,
/// its minutes or its reset time tells of one.
pub proof fn law_windows_are_independent(
    headers: HeaderMap<HeaderValue>,
    others: HeaderMap<HeaderValue>,
    used: u64,
    other_used: Option<u64>,
)
    requires
        (used as int / 0x10_0000_0000_0000) % 0x800 < 0x7ff,
    ensures
        ({
            let p = "x-codex-primary-window-minutes"@;
            let q = "x-codex-primary-reset-at"@;
            let here = rate_limits_given(headers, Some(used), other_used).primary;
            &&& text_under(headers, p) == text_under(others, p) && text_under(headers, q)
                == text_under(others, q) ==> here == rate_limits_given(
                others,
                Some(used),
                None,
            ).primary
            &&& here is Some == (used % 0x8000_0000_0000_0000 > 0 || integer_under(headers, q) is Some
                || (integer_under(headers, p) is Some && integer_under(headers, p)->0 != 0))
        }),
        ({
            let p = "x-codex-secondary-window-minutes"@;
            let q = "x-codex-secondary-reset-at"@;
            let here = rate_limits_given(headers, other_used, Some(used)).secondary;
            &&& text_under(headers, p) == text_under(others, p) && text_under(headers, q)
                == text_under(others, q) ==> here == rate_limits_given(
                others,
                None,
                Some(used),
            ).secondary
            &&& here is Some == (used % 0x8000_0000_0000_0000 > 0 || integer_under(headers, q) is Some
                || (integer_under(headers, p) is Some && integer_under(headers, p)->0 != 0))
        }),
{
}

/// Credits are told of exactly if both flags are there and say yes or no; they hold the two flags and the
/// balance, each from its own header.
pub proof fn law_credits_are_read(
    headers: HeaderMap<HeaderValue>,
    primary_used: Option<u64>,
    secondary_used: Option<u64>,
)
    ensures
        ({
            let told = rate_limits_given(headers, primary_used, secondary_used).credits;
            let has = text_under(headers, "x-codex-credits-has-credits"@);
            let unlimited = text_under(headers, "x-codex-credits-unlimited"@);
            let both = has is Some && unlimited is Some && bool_of(has->0) is Some && bool_of(
                unlimited->0,
            ) is Some;
            &&& told is Some == both
            &&& told == credits_of(headers)
            &&& told matches Some(credits) ==> {
                &&& bool_of(has->0) == Some(credits.has_credits)
                &&& bool_of(unlimited->0) == Some(credits.unlimited)
                &&& credits.balance == balance_of(text_under(headers, "x-codex-credits-balance"@))
            }
        }),
{
}

/// A balance is the header's text without the white space at its two ends; there is none where the header
/// is not there, or has nothing but white space in it.
pub proof fn law_balance_is_read(text: Seq<char>) -> (ends: (Seq<char>, Seq<char>))
    ensures
        balance_of(None) is None,
        forall|i: int| 0 <= i < ends.0.len() ==> is_white_space(#[trigger] ends.0[i]),
        forall|i: int| 0 <= i < ends.1.len() ==> is_white_space(#[trigger] ends.1[i]),
        match balance_of(Some(text)) {
            Some(amount) => {
                &&& text == ends.0 + amount + ends.1
                &&& amount.len() > 0
                &&& !is_white_space(amount[0])
                &&& !is_white_space(amount[amount.len() - 1])
            },
            None => text == ends.0 + ends.1,
        },
{
    let (a, b) = law_trimming_takes_white_space(text);
    if trimmed(text).len() == 0 {
        assert(text =~= a + b);
    }
    (a, b)
}

/// Of a limit, what is used and what remains make up the whole, unless the limit is not positive: then
/// nothing is used. A window is told of exactly if both numbers are given, and it holds no times.
pub proof fn law_used_and_remaining_make_up_the_limit(limit: i64, remaining: i64)
    ensures
        remaining_window(Some(limit), Some(remaining)) matches Some(window) && {
            &&& window.window_minutes is None
            &&& window.resets_at is None
            &&& limit > 0 ==> (window.used_percent matches UsedPercent::Share { used, limit: whole }
                && whole == limit && used + remaining == whole)
            &&& limit <= 0 ==> window.used_percent == UsedPercent::Bits(0)
        },
        remaining_window(None, Some(remaining)) is None,
        remaining_window(Some(limit), None) is None,
        remaining_window(None, None) is None,
{
}

/// The limit on requests is the primary window and the limit on tokens the secondary one, each read from
/// its own two headers; there are rate limits exactly if one of the two is there.
pub proof fn law_requests_and_tokens(headers: HeaderMap<HeaderValue>)
    ensures
        ({
            let requests = integer_under(headers, "anthropic-ratelimit-requests-limit"@);
            let requests_left = integer_under(headers, "anthropic-ratelimit-requests-remaining"@);
            let tokens = integer_under(headers, "anthropic-ratelimit-tokens-limit"@);
            let tokens_left = integer_under(headers, "anthropic-ratelimit-tokens-remaining"@);
            let primary = requests is Some && requests_left is Some;
            let secondary = tokens is Some && tokens_left is Some;
            &&& anthropic_rate_limits(headers) is Some == (primary || secondary)
            &&& anthropic_rate_limits(headers) matches Some(limits) ==> {
                &&& limits.primary is Some == primary
                &&& limits.secondary is Some == secondary
                &&& primary ==> limits.primary == remaining_window(requests, requests_left)
                &&& secondary ==> limits.secondary == remaining_window(tokens, tokens_left)
                &&& limits.credits is None
                &&& limits.plan_type is None
            }
        }),
{
}

/// A snapshot is read whole.
pub proof fn law_snapshots_are_read_whole(snapshot: RateLimitSnapshot)
    ensures
        snapshot@.primary == snapshot.primary,
        snapshot@.secondary == snapshot.secondary,
        snapshot@.credits is Some == snapshot.credits is Some,
        snapshot.credits matches Some(credits) ==> {
            &&& snapshot@.credits->0.has_credits == credits.has_credits
            &&& snapshot@.credits->0.unlimited == credits.unlimited
            &&& snapshot@.credits->0.balance is Some == credits.balance is Some
            &&& credits.balance matches Some(text) ==> snapshot@.credits->0.balance == Some(text@)
        },
        snapshot@.plan_type is Some == snapshot.plan_type is Some,
        snapshot.plan_type matches Some(text) ==> snapshot@.plan_type == Some(text@),
{
}

/// The used percentage of each window is the text of its own header.
pub proof fn law_each_percentage_has_its_header(headers: HeaderMap<HeaderValue>)
    ensures
        primary_used_text(headers) == text_under(headers, "x-codex-primary-used-percent"@),
        secondary_used_text(headers) == text_under(headers, "x-codex-secondary-used-percent"@),
{
}

/// A header is read as an integer exactly where its text spells one.
pub proof fn law_headers_spell_integers(headers: HeaderMap<HeaderValue>, name: Seq<char>)
    ensures
        header_i64(headers, name) == integer_under(headers, name),
{
}

/// Which failures may pass: too many requests, a fault of the server and a failed connection, each where
/// the policy says so, and no other.
pub proof fn law_transient_failures(retry: RetryConfig, code: u16)
    ensures
        code == 429 ==> retry.is_transient(RequestFailure::Status(code)) == retry.retry_429,
        code / 100 == 5 ==> retry.is_transient(RequestFailure::Status(code)) == retry.retry_5xx,
        code != 429 && code / 100 != 5 ==> !retry.is_transient(RequestFailure::Status(code)),
        retry.is_transient(RequestFailure::Transport) == retry.retry_transport,
        !retry.is_transient(RequestFailure::Other),
{
}

} // verus!
