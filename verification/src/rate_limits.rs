//! Rate limits, as response headers report them.

use crate::decimal::{i64_of, parse_i64};
use crate::text::{
    eq_ignore_ascii_case, equal_ignoring_ascii_case, same_text, trim, trimmed,
};
use http::{HeaderMap, HeaderValue};
use vstd::prelude::*;

verus! {

#[verifier::external_type_specification]
#[verifier::external_body]
#[verifier::reject_recursive_types(T)]
pub struct ExHeaderMap<T>(http::HeaderMap<T>);

#[verifier::external_type_specification]
#[verifier::external_body]
pub struct ExHeaderValue(http::HeaderValue);

/// The names that an `http::HeaderMap` answers to, each with the bytes of its first value.
pub uninterp spec fn header_values(headers: HeaderMap<HeaderValue>) -> Map<Seq<char>, Seq<u8>>;

/// The bytes of an `http::HeaderValue`.
pub uninterp spec fn header_bytes(value: HeaderValue) -> Seq<u8>;

/// `http::HeaderMap::get` with a string: the first value under a name, and none exactly where the
/// map does not answer to the name.
#[verifier::external_body]
fn header_get<'a>(headers: &'a HeaderMap<HeaderValue>, name: &str) -> (found: Option<&'a HeaderValue>)
    ensures
        found is Some == header_values(*headers).contains_key(name@),
        found is Some ==> header_bytes(*found->0) == header_values(*headers)[name@],
{
    headers.get(name)
}

/// Whether a byte is a visible ASCII character, a space or a tab.
pub open spec fn is_visible_ascii(b: u8) -> bool {
    32 <= b < 127 || b == 9
}

/// The text of a header value, where all its bytes are visible ASCII.
pub open spec fn visible_text(bytes: Seq<u8>) -> Option<Seq<char>> {
    if forall|i: int| 0 <= i < bytes.len() ==> is_visible_ascii(#[trigger] bytes[i]) {
        Some(Seq::new(bytes.len(), |i: int| bytes[i] as char))
    } else {
        None
    }
}

/// An optional text by its characters.
pub open spec fn str_option(text: Option<&str>) -> Option<Seq<char>> {
    match text {
        Some(s) => Some(s@),
        None => None,
    }
}

/// `http::HeaderValue::to_str`: the value's bytes as text where all are visible ASCII, and an error
/// where one is not.
#[verifier::external_body]
fn header_to_str<'a>(value: &'a HeaderValue) -> (text: Option<&'a str>)
    ensures
        str_option(text) == visible_text(header_bytes(*value)),
{
    value.to_str().ok()
}

/// The text of a header, where it is there and is text.
pub open spec fn header_text(headers: HeaderMap<HeaderValue>, name: Seq<char>) -> Option<Seq<char>> {
    if header_values(headers).contains_key(name) {
        visible_text(header_values(headers)[name])
    } else {
        None
    }
}

/// Reads a header as text.
pub fn parse_header_str<'a>(headers: &'a HeaderMap<HeaderValue>, name: &str) -> (r: Option<&'a str>)
    ensures
        str_option(r) == header_text(*headers, name@),
{
    match header_get(headers, name) {
        Some(value) => header_to_str(value),
        None => None,
    }
}

/// The integer that a header spells.
pub open spec fn header_i64(headers: HeaderMap<HeaderValue>, name: Seq<char>) -> Option<i64> {
    match header_text(headers, name) {
        Some(text) => i64_of(text),
        None => None,
    }
}

/// Reads a header as an integer.
pub fn parse_header_i64(headers: &HeaderMap<HeaderValue>, name: &str) -> (r: Option<i64>)
    ensures
        r == header_i64(*headers, name@),
{
    match parse_header_str(headers, name) {
        Some(text) => parse_i64(text),
        None => None,
    }
}

/// The truth value that a text spells: `true` or `1`, `false` or `0`, in any case of letters.
pub open spec fn bool_of(text: Seq<char>) -> Option<bool> {
    if equal_ignoring_ascii_case(text, "true"@) || text == "1"@ {
        Some(true)
    } else if equal_ignoring_ascii_case(text, "false"@) || text == "0"@ {
        Some(false)
    } else {
        None
    }
}

/// The truth value that a header spells.
pub open spec fn header_bool(headers: HeaderMap<HeaderValue>, name: Seq<char>) -> Option<bool> {
    match header_text(headers, name) {
        Some(text) => bool_of(text),
        None => None,
    }
}

/// Reads a header as a truth value.
pub fn parse_header_bool(headers: &HeaderMap<HeaderValue>, name: &str) -> (r: Option<bool>)
    ensures
        r == header_bool(*headers, name@),
{
    match parse_header_str(headers, name) {
        Some(raw) => if eq_ignore_ascii_case(raw, "true") || same_text(raw, "1") {
            Some(true)
        } else if eq_ignore_ascii_case(raw, "false") || same_text(raw, "0") {
            Some(false)
        } else {
            None
        },
        None => None,
    }
}

/// The percentage of a limit that is used up.
#[derive(Debug, Clone, Copy, PartialEq, Eq, Structural)]
pub enum UsedPercent {
    /// A percentage that was reported, as the bits of an IEEE 754 double.
    Bits(u64),
    /// `used / limit * 100`.
    Share { used: i128, limit: i64 },
}

/// One rate limit: how much of it is used up, over how many minutes, and when it starts over.
#[derive(Debug, Clone, Copy, PartialEq, Eq, Structural)]
pub struct RateLimitWindow {
    pub used_percent: UsedPercent,
    pub window_minutes: Option<i64>,
    pub resets_at: Option<i64>,
}

/// What is known of an account's credits.
#[derive(Debug, PartialEq)]
pub struct CreditsSnapshot {
    pub has_credits: bool,
    pub unlimited: bool,
    pub balance: Option<String>,
}

#[verifier::ext_equal]
pub struct CreditsView {
    pub has_credits: bool,
    pub unlimited: bool,
    pub balance: Option<Seq<char>>,
}

impl View for CreditsSnapshot {
    type V = CreditsView;

    open spec fn view(&self) -> CreditsView {
        CreditsView {
            has_credits: self.has_credits,
            unlimited: self.unlimited,
            balance: match self.balance {
                Some(text) => Some(text@),
                None => None,
            },
        }
    }
}

/// The rate limits of an account at one moment.
#[derive(Debug, PartialEq)]
pub struct RateLimitSnapshot {
    pub primary: Option<RateLimitWindow>,
    pub secondary: Option<RateLimitWindow>,
    pub credits: Option<CreditsSnapshot>,
    pub plan_type: Option<String>,
}

#[verifier::ext_equal]
pub struct SnapshotView {
    pub primary: Option<RateLimitWindow>,
    pub secondary: Option<RateLimitWindow>,
    pub credits: Option<CreditsView>,
    pub plan_type: Option<Seq<char>>,
}

impl View for RateLimitSnapshot {
    type V = SnapshotView;

    open spec fn view(&self) -> SnapshotView {
        SnapshotView {
            primary: self.primary,
            secondary: self.secondary,
            credits: match self.credits {
                Some(credits) => Some(credits@),
                None => None,
            },
            plan_type: match self.plan_type {
                Some(text) => Some(text@),
                None => None,
            },
        }
    }
}

/// Why rate limits could not be told.
#[derive(Debug)]
pub struct RateLimitError {
    pub message: String,
}

impl RateLimitError {
    /// The error's message.
    pub fn to_string(&self) -> (r: String)
        ensures
            r@ == self.message@,
    {
        self.message.clone()
    }
}

/// Whether the bits of a double are those of a zero, of either sign.
pub open spec fn zero_bits(bits: u64) -> bool {
    bits == 0 || bits == 0x8000_0000_0000_0000
}

/// Whether the bits of a double are those of a finite number: the eleven bits of its exponent are not
/// all set.
pub open spec fn finite_bits(bits: u64) -> bool {
    (bits / 0x10_0000_0000_0000) % 0x800 != 0x7ff
}

/// The window that a reported percentage and the headers beside it tell of. A percentage that is not
/// finite tells of none, and neither does one of zero that comes with no reset time and no window, or a
/// window of zero minutes.
pub open spec fn reported_window(
    used_percent: Option<u64>,
    window_minutes: Option<i64>,
    resets_at: Option<i64>,
) -> Option<RateLimitWindow> {
    match used_percent {
        Some(bits) => if finite_bits(bits) && (!zero_bits(bits) || (window_minutes is Some
            && window_minutes != Some(0i64)) || resets_at is Some) {
            Some(
                RateLimitWindow { used_percent: UsedPercent::Bits(bits), window_minutes, resets_at },
            )
        } else {
            None
        },
        None => None,
    }
}

/// Reads one window. `used_percent` is the percentage that its header spells, as the bits of a
/// double.
pub fn parse_rate_limit_window(
    headers: &HeaderMap<HeaderValue>,
    used_percent: Option<u64>,
    window_minutes_header: &str,
    resets_at_header: &str,
) -> (r: Option<RateLimitWindow>)
    ensures
        r == reported_window(
            used_percent,
            header_i64(*headers, window_minutes_header@),
            header_i64(*headers, resets_at_header@),
        ),
{
    match used_percent {
        Some(bits) => {
            let window_minutes = parse_header_i64(headers, window_minutes_header);
            let resets_at = parse_header_i64(headers, resets_at_header);
            let has_window: bool = match window_minutes {
                Some(minutes) => minutes != 0,
                None => false,
            };
            let finite: bool = (bits / 0x10_0000_0000_0000) % 0x800 != 0x7ff;
            let nonzero: bool = bits != 0 && bits != 0x8000_0000_0000_0000;
            if finite && (nonzero || has_window || resets_at.is_some()) {
                Some(
                    RateLimitWindow {
                        used_percent: UsedPercent::Bits(bits),
                        window_minutes,
                        resets_at,
                    },
                )
            } else {
                None
            }
        },
        None => None,
    }
}

/// A balance without the white space around it, where anything is left.
pub open spec fn balance_of(text: Option<Seq<char>>) -> Option<Seq<char>> {
    match text {
        Some(t) => if trimmed(t).len() == 0 {
            None
        } else {
            Some(trimmed(t))
        },
        None => None,
    }
}

/// The credits that headers tell of: both flags have to be there.
pub open spec fn credits_of(headers: HeaderMap<HeaderValue>) -> Option<CreditsView> {
    match (
        header_bool(headers, "x-codex-credits-has-credits"@),
        header_bool(headers, "x-codex-credits-unlimited"@),
    ) {
        (Some(has_credits), Some(unlimited)) => Some(
            CreditsView {
                has_credits,
                unlimited,
                balance: balance_of(header_text(headers, "x-codex-credits-balance"@)),
            },
        ),
        _ => None,
    }
}

/// An optional credits snapshot by its view.
pub open spec fn credits_option(credits: Option<CreditsSnapshot>) -> Option<CreditsView> {
    match credits {
        Some(c) => Some(c@),
        None => None,
    }
}

/// Reads the credits.
pub fn parse_credits_snapshot(headers: &HeaderMap<HeaderValue>) -> (r: Option<CreditsSnapshot>)
    ensures
        credits_option(r) == credits_of(*headers),
{
    let has_credits: bool = match parse_header_bool(headers, "x-codex-credits-has-credits") {
        Some(b) => b,
        None => {
            return None;
        },
    };
    let unlimited: bool = match parse_header_bool(headers, "x-codex-credits-unlimited") {
        Some(b) => b,
        None => {
            return None;
        },
    };
    let balance: Option<String> = match parse_header_str(headers, "x-codex-credits-balance") {
        Some(text) => {
            let value = trim(text);
            if value.is_empty() {
                None
            } else {
                Some(value.to_string())
            }
        },
        None => None,
    };
    Some(CreditsSnapshot { has_credits, unlimited, balance })
}

/// The text of the used percentage of the primary window.
pub open spec fn primary_used_text(headers: HeaderMap<HeaderValue>) -> Option<Seq<char>> {
    header_text(headers, "x-codex-primary-used-percent"@)
}

/// The text of the used percentage of the secondary window.
pub open spec fn secondary_used_text(headers: HeaderMap<HeaderValue>) -> Option<Seq<char>> {
    header_text(headers, "x-codex-secondary-used-percent"@)
}

/// Reads the texts of the headers that give the used percentages, of the primary window and of the
/// secondary one.
pub fn used_percent_texts(headers: &HeaderMap<HeaderValue>) -> (r: (Option<&str>, Option<&str>))
    ensures
        str_option(r.0) == primary_used_text(*headers),
        str_option(r.1) == secondary_used_text(*headers),
{
    (
        parse_header_str(headers, "x-codex-primary-used-percent"),
        parse_header_str(headers, "x-codex-secondary-used-percent"),
    )
}

/// The rate limits that headers tell of, given the used percentages.
pub open spec fn rate_limits_given(
    headers: HeaderMap<HeaderValue>,
    primary_used: Option<u64>,
    secondary_used: Option<u64>,
) -> SnapshotView {
    SnapshotView {
        primary: reported_window(
            primary_used,
            header_i64(headers, "x-codex-primary-window-minutes"@),
            header_i64(headers, "x-codex-primary-reset-at"@),
        ),
        secondary: reported_window(
            secondary_used,
            header_i64(headers, "x-codex-secondary-window-minutes"@),
            header_i64(headers, "x-codex-secondary-reset-at"@),
        ),
        credits: credits_of(headers),
        plan_type: None,
    }
}

/// Reads the rate limits, given the used percentages that [`used_percent_texts`] spell, as the bits
/// of doubles.
pub fn parse_rate_limit(
    headers: &HeaderMap<HeaderValue>,
    primary_used: Option<u64>,
    secondary_used: Option<u64>,
) -> (r: Option<RateLimitSnapshot>)
    ensures
        r matches Some(snapshot) && snapshot@ == rate_limits_given(
            *headers,
            primary_used,
            secondary_used,
        ),
{
    let primary = parse_rate_limit_window(
        headers,
        primary_used,
        "x-codex-primary-window-minutes",
        "x-codex-primary-reset-at",
    );
    let secondary = parse_rate_limit_window(
        headers,
        secondary_used,
        "x-codex-secondary-window-minutes",
        "x-codex-secondary-reset-at",
    );
    let credits = parse_credits_snapshot(headers);
    Some(RateLimitSnapshot { primary, secondary, credits, plan_type: None })
}

/// The window of a limit of which so much remains. A limit that is not positive counts as unused.
pub open spec fn remaining_window(limit: Option<i64>, remaining: Option<i64>) -> Option<
    RateLimitWindow,
> {
    match (limit, remaining) {
        (Some(l), Some(r)) => Some(
            RateLimitWindow {
                used_percent: if l > 0 {
                    UsedPercent::Share { used: (l - r) as i128, limit: l }
                } else {
                    UsedPercent::Bits(0)
                },
                window_minutes: None,
                resets_at: None,
            },
        ),
        _ => None,
    }
}

/// Reads one window of the Messages endpoint's limits. It gives no duration, and its reset times
/// are not read.
pub fn parse_anthropic_rate_limit_window(
    headers: &HeaderMap<HeaderValue>,
    limit_header: &str,
    remaining_header: &str,
) -> (r: Option<RateLimitWindow>)
    ensures
        r == remaining_window(
            header_i64(*headers, limit_header@),
            header_i64(*headers, remaining_header@),
        ),
{
    match (parse_header_i64(headers, limit_header), parse_header_i64(headers, remaining_header)) {
        (Some(limit), Some(remaining)) => {
            let used_percent = if limit > 0 {
                UsedPercent::Share { used: (limit as i128) - (remaining as i128), limit }
            } else {
                UsedPercent::Bits(0)
            };
            Some(RateLimitWindow { used_percent, window_minutes: None, resets_at: None })
        },
        _ => None,
    }
}

/// The rate limits that the Messages endpoint's headers tell of: requests first, tokens second.
/// Where they tell of neither, there are none.
pub open spec fn anthropic_rate_limits(headers: HeaderMap<HeaderValue>) -> Option<SnapshotView> {
    let primary = remaining_window(
        header_i64(headers, "anthropic-ratelimit-requests-limit"@),
        header_i64(headers, "anthropic-ratelimit-requests-remaining"@),
    );
    let secondary = remaining_window(
        header_i64(headers, "anthropic-ratelimit-tokens-limit"@),
        header_i64(headers, "anthropic-ratelimit-tokens-remaining"@),
    );
    if primary is None && secondary is None {
        None
    } else {
        Some(SnapshotView { primary, secondary, credits: None, plan_type: None })
    }
}

/// Reads the Messages endpoint's rate limits.
pub fn parse_anthropic_rate_limit(headers: &HeaderMap<HeaderValue>) -> (r: Option<RateLimitSnapshot>)
    ensures
        match r {
            Some(snapshot) => anthropic_rate_limits(*headers) == Some(snapshot@),
            None => anthropic_rate_limits(*headers) is None,
        },
{
    let primary = parse_anthropic_rate_limit_window(
        headers,
        "anthropic-ratelimit-requests-limit",
        "anthropic-ratelimit-requests-remaining",
    );
    let secondary = parse_anthropic_rate_limit_window(
        headers,
        "anthropic-ratelimit-tokens-limit",
        "anthropic-ratelimit-tokens-remaining",
    );
    if primary.is_none() && secondary.is_none() {
        return None;
    }
    Some(RateLimitSnapshot { primary, secondary, credits: None, plan_type: None })
}

/// As long as what remains of a limit is neither negative nor more than the limit, the used share is
/// between nothing and all of it.
pub proof fn law_used_share_is_a_share(limit: i64, remaining: i64)
    requires
        0 <= remaining <= limit,
        0 < limit,
    ensures
        remaining_window(Some(limit), Some(remaining)) matches Some(window)
            && window.used_percent matches UsedPercent::Share { used, limit: whole }
            && 0 <= used <= whole && used == limit - remaining && whole == limit,
{
}

} // verus!
