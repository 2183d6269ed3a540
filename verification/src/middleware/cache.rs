//! The response cache at the request boundary: which requests are looked
//! up, under which key, and which answers are stored.

use super::response::header_views;
use super::response::Header;
use super::response::Reply;
use crate::text::contains;
use crate::text::decimal_form;
use crate::text::occurs;
use crate::text::same_text;
use crate::text::signed_decimal;
use vstd::prelude::*;
use vstd::string::StringExecFns;

verus! {

/// The text of `text`, or no text.
pub open spec fn text_or_empty(text: Option<&str>) -> Seq<char> {
    match text {
        Some(text) => text@,
        None => Seq::empty(),
    }
}

/// The text of `text`, or no text.
pub open spec fn string_or_empty(text: Option<String>) -> Seq<char> {
    match text {
        Some(text) => text@,
        None => Seq::empty(),
    }
}

/// How a principal stands in a cache key: its number in decimal, and
/// `anon` for a request without a principal.
pub open spec fn principal_tag(user_id: Option<i64>) -> Seq<char> {
    match user_id {
        Some(id) => decimal_form(id as int),
        None => "anon"@,
    }
}

/// The cache key of a request: principal, path and query, with a colon
/// between them.
pub open spec fn cache_key(user_id: Option<i64>, path: Seq<char>, query: Seq<char>) -> Seq<char> {
    principal_tag(user_id) + ":"@ + path + ":"@ + query
}

/// The key under which the response to a request is cached.
pub fn generate_cache_key(user_id: Option<i64>, path: &str, query: Option<&str>) -> (key: String)
    ensures
        key@ == cache_key(user_id, path@, text_or_empty(query)),
{
    let mut key = match user_id {
        Some(id) => signed_decimal(id),
        None => "anon".to_owned(),
    };
    key.append(":");
    key.append(path);
    key.append(":");
    if let Some(query) = query {
        key.append(query);
    }
    key
}

/// A status from 200 to 299.
pub open spec fn is_success(status: u16) -> bool {
    200 <= status < 300
}

/// Whether a cache-control value forbids caching: it holds `no-cache` or
/// `no-store`.
pub open spec fn forbids_caching(cache_control: Seq<char>) -> bool {
    occurs(cache_control, "no-cache"@) || occurs(cache_control, "no-store"@)
}

/// Whether an answer of this status and cache-control value is to be
/// cached.
pub open spec fn cacheable(status: u16, cache_control: Option<Seq<char>>) -> bool {
    is_success(status) && !(cache_control matches Some(value) && forbids_caching(value))
}

/// Whether an answer is cached: it is a success, and its cache-control
/// header, if it has one that can be read, forbids it not.
pub fn should_cache(status: u16, cache_control: Option<&str>) -> (cache: bool)
    ensures
        cache == cacheable(
            status,
            match cache_control {
                Some(value) => Some(value@),
                None => None,
            },
        ),
{
    if status < 200 || status >= 300 {
        return false;
    }
    match cache_control {
        Some(value) => !(contains(value, "no-cache") || contains(value, "no-store")),
        None => true,
    }
}

/// The headers of an answer from the cache.
pub open spec fn hit_headers() -> Seq<(Seq<char>, Seq<char>)> {
    seq![("x-cache-status"@, "HIT"@), ("content-type"@, "application/json"@)]
}

/// The answer from the cache: status 200, marked as a hit, with the cached
/// bytes as a JSON body.
pub fn cached_response(body: Vec<u8>) -> (reply: Reply)
    ensures
        reply.status == 200,
        reply.body == body,
        header_views(reply.headers@) == hit_headers(),
{
    let mut headers: Vec<Header> = Vec::new();
    headers.push(Header { name: "x-cache-status".to_owned(), value: "HIT".to_owned() });
    headers.push(Header { name: "content-type".to_owned(), value: "application/json".to_owned() });
    Reply { status: 200, headers, body }
}

/// Where the interceptor stands with a request.
#[derive(Clone, Debug, PartialEq, Eq)]
pub enum CacheStage {
    /// Nothing has been seen of the request.
    Start,
    /// The cache is being asked for `key`.
    Looking { key: String },
    /// The cache had nothing under `key`; the handler runs.
    Handling { key: String },
    /// The handler's answer is to be cached under `key`; its body is
    /// being read.
    Collecting { key: String },
    /// The request is dealt with.
    Done,
}

/// What the interceptor is told.
#[derive(Clone, Debug, PartialEq, Eq)]
pub enum CacheEvent {
    /// A request has come in.
    Request { method: String, user_id: Option<i64>, path: String, query: Option<String> },
    /// The cache has answered.
    Looked { found: Option<Vec<u8>> },
    /// The handler has answered, with this status and this cache-control
    /// header, if there is one that can be read.
    Handled { status: u16, cache_control: Option<String> },
    /// The body of the handler's answer was read, or could not be.
    Collected { body: Option<Vec<u8>> },
}

/// What is to be done next.
#[derive(Clone, Debug, PartialEq, Eq)]
pub enum CacheAction {
    /// Hand the request on and return the answer as it comes.
    Forward,
    /// Ask the cache for the response under `key`.
    Lookup { key: String },
    /// Return this answer; the handler does not run.
    Serve { reply: Reply },
    /// Run the handler.
    Handle,
    /// Read the body of the handler's answer.
    Collect,
    /// Return the handler's answer as it is.
    Return,
    /// Store `body` under `key` without waiting for it, and return the
    /// handler's answer with `body` and the header `mark`.
    Store { key: String, body: Vec<u8>, mark: Header },
    /// Return the handler's answer with an empty body.
    ReturnEmpty,
    /// The event does not belong to the stage: there is nothing to do.
    Ignore,
}

/// Whether `next` and `action` are the interceptor's step from `stage` on
/// `event`.
///
/// Only GET requests are looked up, under the key of principal, path and
/// query. A hit is served from the cache. After a miss the handler runs;
/// its answer is returned as it is unless it is to be cached: then its
/// body is read, stored under the key and returned marked as a miss. An
/// answer whose body cannot be read is returned with an empty body.
pub open spec fn is_cache_step(
    stage: CacheStage,
    event: CacheEvent,
    next: CacheStage,
    action: CacheAction,
) -> bool {
    match (stage, event) {
        (CacheStage::Start, CacheEvent::Request { method, user_id, path, query }) => {
            if method@ != "GET"@ {
                next is Done && action is Forward
            } else {
                &&& next matches CacheStage::Looking { key }
                &&& key@ == cache_key(user_id, path@, string_or_empty(query))
                &&& action matches CacheAction::Lookup { key }
                &&& key@ == cache_key(user_id, path@, string_or_empty(query))
            }
        },
        (CacheStage::Looking { key }, CacheEvent::Looked { found: Some(body) }) => {
            &&& next is Done
            &&& action matches CacheAction::Serve { reply }
            &&& reply.status == 200
            &&& reply.body == body
            &&& header_views(reply.headers@) == hit_headers()
        },
        (CacheStage::Looking { key }, CacheEvent::Looked { found: None }) => {
            &&& next matches CacheStage::Handling { key: kept }
            &&& kept == key
            &&& action is Handle
        },
        (CacheStage::Handling { key }, CacheEvent::Handled { status, cache_control }) => {
            if cacheable(
                status,
                match cache_control {
                    Some(value) => Some(value@),
                    None => None,
                },
            ) {
                &&& next matches CacheStage::Collecting { key: kept }
                &&& kept == key
                &&& action is Collect
            } else {
                next is Done && action is Return
            }
        },
        (CacheStage::Collecting { key }, CacheEvent::Collected { body: Some(body) }) => {
            &&& next is Done
            &&& action matches CacheAction::Store { key: under, body: stored, mark }
            &&& under == key
            &&& stored == body
            &&& mark@ == ("x-cache-status"@, "MISS"@)
        },
        (CacheStage::Collecting { key }, CacheEvent::Collected { body: None }) => {
            next is Done && action is ReturnEmpty
        },
        _ => next is Done && action is Ignore,
    }
}

/// One step of the interceptor: from where it stands and what it is told
/// to where it stands then and what is to be done.
pub fn cache_middleware(stage: CacheStage, event: CacheEvent) -> (step: (CacheStage, CacheAction))
    ensures
        is_cache_step(stage, event, step.0, step.1),
{
    match (stage, event) {
        (CacheStage::Start, CacheEvent::Request { method, user_id, path, query }) => {
            if !same_text(method.as_str(), "GET") {
                (CacheStage::Done, CacheAction::Forward)
            } else {
                let key = match &query {
                    Some(query) => generate_cache_key(user_id, path.as_str(), Some(query.as_str())),
                    None => generate_cache_key(user_id, path.as_str(), None),
                };
                let again = key.clone();
                (CacheStage::Looking { key }, CacheAction::Lookup { key: again })
            }
        },
        (CacheStage::Looking { key }, CacheEvent::Looked { found: Some(body) }) => {
            (CacheStage::Done, CacheAction::Serve { reply: cached_response(body) })
        },
        (CacheStage::Looking { key }, CacheEvent::Looked { found: None }) => {
            (CacheStage::Handling { key }, CacheAction::Handle)
        },
        (CacheStage::Handling { key }, CacheEvent::Handled { status, cache_control }) => {
            let cache = match &cache_control {
                Some(value) => should_cache(status, Some(value.as_str())),
                None => should_cache(status, None),
            };
            if cache {
                (CacheStage::Collecting { key }, CacheAction::Collect)
            } else {
                (CacheStage::Done, CacheAction::Return)
            }
        },
        (CacheStage::Collecting { key }, CacheEvent::Collected { body: Some(body) }) => {
            let mark = Header { name: "x-cache-status".to_owned(), value: "MISS".to_owned() };
            (CacheStage::Done, CacheAction::Store { key, body, mark })
        },
        (CacheStage::Collecting { key }, CacheEvent::Collected { body: None }) => {
            (CacheStage::Done, CacheAction::ReturnEmpty)
        },
        _ => (CacheStage::Done, CacheAction::Ignore),
    }
}

} // verus!
