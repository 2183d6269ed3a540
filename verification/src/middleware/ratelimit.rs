//! The rate limiter at the request boundary: whose request it is, which
//! check it gets, and what the verdict does to the response.

use super::response::header_views;
use super::response::set_header;
use super::response::with_header;
use super::response::Header;
use super::response::Reply;
use crate::clock::NANOS_PER_SEC;
use crate::ratelimit::IpAddress;
use crate::ratelimit::LimiterView;
use crate::ratelimit::RateLimitResult;
use crate::ratelimit::RateLimiter;
use crate::text::chars_of;
use crate::text::decimal;
use crate::text::decimal_form;
use crate::text::find_stop;
use crate::text::text_before;
use crate::text::trim_bounds;
use crate::text::trimmed;
use vstd::prelude::*;
use vstd::string::StringSliceAdditionalSpecFns;

verus! {

/// The client's address as a forwarded-address header names it: what
/// stands before the first comma, without the white space around it.
pub open spec fn forwarded_token(header: Seq<char>) -> Seq<char> {
    trimmed(text_before(header, ','))
}

/// The part of a forwarded-address header that names the client: the
/// first of its comma-separated parts, trimmed.
pub fn forwarded_candidate(header: &str) -> (token: &str)
    ensures
        token@ == forwarded_token(header@),
{
    let chars = chars_of(header);
    let end = find_stop(&chars, ',');
    let cut = trim_bounds(&chars, 0, end);
    header.substring_char(cut.0, cut.1)
}

/// The client's address: the one that the forwarded-address header
/// names, else the one that the real-address header names, else the
/// address of the peer. Each is given as far as it was there and could be
/// read as an address.
pub fn extract_ip(
    forwarded: Option<IpAddress>,
    real_ip: Option<IpAddress>,
    peer: Option<IpAddress>,
) -> (ip: Option<IpAddress>)
    ensures
        ip == if forwarded.is_some() {
            forwarded
        } else if real_ip.is_some() {
            real_ip
        } else {
            peer
        },
{
    match forwarded {
        Some(ip) => Some(ip),
        None => match real_ip {
            Some(ip) => Some(ip),
            None => peer,
        },
    }
}

/// The answer for a request whose address is not known: it is admitted,
/// with a limit of a hundred and a hundred left.
pub open spec fn unlimited() -> RateLimitResult {
    RateLimitResult { allowed: true, limit: 100, remaining: 100, retry_after: None }
}

/// The limiter after the check of a request at `now`: the combined check
/// where address and principal are known, the check of the address where
/// only it is known, and none where it is not.
pub open spec fn admitted_state(
    limiter: LimiterView,
    ip: Option<IpAddress>,
    user_id: Option<i64>,
    now: u64,
) -> LimiterView {
    match (ip, user_id) {
        (Some(ip), Some(user_id)) => limiter.checked_combined(ip, user_id, now),
        (Some(ip), None) => limiter.checked(crate::ratelimit::RateLimitKey::Ip(ip), now),
        (None, _) => limiter,
    }
}

/// The answer to the check of a request at `now`.
pub open spec fn admission(
    limiter: LimiterView,
    ip: Option<IpAddress>,
    user_id: Option<i64>,
    now: u64,
) -> RateLimitResult {
    match (ip, user_id) {
        (Some(ip), Some(user_id)) => limiter.verdict_combined(ip, user_id, now),
        (Some(ip), None) => limiter.verdict(crate::ratelimit::RateLimitKey::Ip(ip), now),
        (None, _) => unlimited(),
    }
}

/// Checks a request at the time `now`.
pub fn admit_at(limiter: &mut RateLimiter, ip: Option<IpAddress>, user_id: Option<i64>, now: u64)
    -> (result: RateLimitResult)
    requires
        old(limiter).wf(),
    ensures
        final(limiter).wf(),
        final(limiter)@ == admitted_state(old(limiter)@, ip, user_id, now),
        result == admission(old(limiter)@, ip, user_id, now),
{
    match (ip, user_id) {
        (Some(ip), Some(user_id)) => limiter.check_rate_limit_combined_at(ip, user_id, now),
        (Some(ip), None) => limiter.check_rate_limit_ip_at(ip, now),
        (None, _) => RateLimitResult { allowed: true, limit: 100, remaining: 100, retry_after: None },
    }
}

/// The headers with the limit and what is left of it set.
pub open spec fn limit_headers(headers: Seq<(Seq<char>, Seq<char>)>, result: RateLimitResult)
    -> Seq<(Seq<char>, Seq<char>)> {
    with_header(
        with_header(headers, "x-ratelimit-limit"@, decimal_form(result.limit as int)),
        "x-ratelimit-remaining"@,
        decimal_form(result.remaining as int),
    )
}

/// Sets the headers that tell the limit and what is left of it.
pub fn add_rate_limit_headers(headers: &mut Vec<Header>, result: &RateLimitResult)
    ensures
        header_views(final(headers)@) == limit_headers(header_views(old(headers)@), *result),
{
    set_header(headers, "x-ratelimit-limit", decimal(result.limit as u64));
    set_header(headers, "x-ratelimit-remaining", decimal(result.remaining as u64));
}

/// The whole seconds in `nanos` nanoseconds.
pub open spec fn whole_seconds(nanos: u64) -> int {
    nanos as int / NANOS_PER_SEC as int
}

/// The headers that an answer of plain text starts with.
pub open spec fn text_headers() -> Seq<(Seq<char>, Seq<char>)> {
    seq![("content-type"@, "text/plain; charset=utf-8"@)]
}

/// The headers of the answer to a refused request: the content type of
/// its text, the limit, what is left of it, and the whole seconds to wait
/// where the wait is known.
pub open spec fn refusal_headers(result: RateLimitResult) -> Seq<(Seq<char>, Seq<char>)> {
    match result.retry_after {
        Some(wait) => with_header(
            limit_headers(text_headers(), result),
            "retry-after"@,
            decimal_form(whole_seconds(wait)),
        ),
        None => limit_headers(text_headers(), result),
    }
}

/// The body of the answer to a refused request.
pub open spec fn refusal_body() -> Seq<u8> {
    "Rate limit exceeded. Please try again later.".spec_bytes()
}

/// The answer to a refused request: status 429, a line of plain text, and
/// the headers that tell the limit and the wait.
pub fn rate_limit_exceeded_response(result: RateLimitResult) -> (reply: Reply)
    ensures
        reply.status == 429,
        reply.body@ == refusal_body(),
        header_views(reply.headers@) == refusal_headers(result),
{
    let mut headers: Vec<Header> = Vec::new();
    headers.push(
        Header { name: "content-type".to_owned(), value: "text/plain; charset=utf-8".to_owned() },
    );
    assert(header_views(headers@) =~= text_headers());
    add_rate_limit_headers(&mut headers, &result);
    if let Some(wait) = result.retry_after {
        set_header(&mut headers, "retry-after", decimal(wait / NANOS_PER_SEC));
    }
    let body = "Rate limit exceeded. Please try again later.".as_bytes_vec();
    Reply { status: 429, headers, body }
}

/// What is to be done with a request.
#[derive(Clone, Debug, PartialEq, Eq)]
pub enum RateLimitAction {
    /// Return this answer; the handler does not run.
    Reject { reply: Reply },
    /// Run the handler and set these headers on its answer.
    Forward { headers: Vec<Header> },
}

/// Whether `action` is what the verdict `result` asks for: a refusal is
/// answered at once, anything else goes on to the handler and has the
/// limit told in its headers.
pub open spec fn is_rate_limit_action(result: RateLimitResult, action: RateLimitAction) -> bool {
    if result.allowed {
        &&& action matches RateLimitAction::Forward { headers }
        &&& header_views(headers@) == limit_headers(Seq::empty(), result)
    } else {
        &&& action matches RateLimitAction::Reject { reply }
        &&& reply.status == 429
        &&& reply.body@ == refusal_body()
        &&& header_views(reply.headers@) == refusal_headers(result)
    }
}

/// What a verdict does to a request.
pub fn apply_verdict(result: RateLimitResult) -> (action: RateLimitAction)
    ensures
        is_rate_limit_action(result, action),
{
    if !result.allowed {
        RateLimitAction::Reject { reply: rate_limit_exceeded_response(result) }
    } else {
        let mut headers: Vec<Header> = Vec::new();
        assert(header_views(headers@) =~= Seq::empty());
        add_rate_limit_headers(&mut headers, &result);
        RateLimitAction::Forward { headers }
    }
}

/// The interceptor at the present moment: checks the request and says
/// what is to be done with it.
pub fn rate_limit_middleware(
    limiter: &mut RateLimiter,
    ip: Option<IpAddress>,
    user_id: Option<i64>,
) -> (action: RateLimitAction)
    requires
        old(limiter).wf(),
    ensures
        final(limiter).wf(),
        exists|now: u64|
            final(limiter)@ == #[trigger] admitted_state(old(limiter)@, ip, user_id, now)
                && is_rate_limit_action(admission(old(limiter)@, ip, user_id, now), action),
{
    let now = limiter.now();
    rate_limit_middleware_at(limiter, ip, user_id, now)
}

/// The interceptor at the time `now`: checks the request and says what
/// is to be done with it.
pub fn rate_limit_middleware_at(
    limiter: &mut RateLimiter,
    ip: Option<IpAddress>,
    user_id: Option<i64>,
    now: u64,
) -> (action: RateLimitAction)
    requires
        old(limiter).wf(),
    ensures
        final(limiter).wf(),
        final(limiter)@ == admitted_state(old(limiter)@, ip, user_id, now),
        is_rate_limit_action(admission(old(limiter)@, ip, user_id, now), action),
{
    let result = admit_at(limiter, ip, user_id, now);
    apply_verdict(result)
}

} // verus!
