//! The audit trail at the request boundary: which requests leave a line
//! in it, and what the line says.

use crate::audit::AuditEntry;
use crate::text::chars_of;
use crate::text::same_text;
use crate::text::starts_with;
use vstd::prelude::*;
use vstd::string::StringExecFns;

verus! {

/// Whether a request is audited: it was answered with a success or a
/// redirection, it did not go to the audit trail itself, to the health
/// check or to the API documentation, and its method is one that changes
/// things.
pub open spec fn audited(method: Seq<char>, path: Seq<char>, status: u16) -> bool {
    &&& 200 <= status < 400
    &&& !"/api/audit"@.is_prefix_of(path)
    &&& !"/health"@.is_prefix_of(path)
    &&& !"/swagger"@.is_prefix_of(path)
    &&& (method == "POST"@ || method == "PUT"@ || method == "DELETE"@ || method == "PATCH"@)
}

/// Whether a request with this method and path, answered with this
/// status, is audited.
pub fn should_audit(method: &str, path: &str, status: u16) -> (audit: bool)
    ensures
        audit == audited(method@, path@, status),
{
    if status < 200 || status >= 400 {
        return false;
    }
    if starts_with(path, "/api/audit") || starts_with(path, "/health") || starts_with(
        path,
        "/swagger",
    ) {
        return false;
    }
    same_text(method, "POST") || same_text(method, "PUT") || same_text(method, "DELETE")
        || same_text(method, "PATCH")
}

/// The segments of a path: its runs of characters other than the slash,
/// in their order.
pub open spec fn segments(path: Seq<char>) -> Seq<Seq<char>>
    decreases path.len(),
{
    if path.len() == 0 {
        Seq::empty()
    } else {
        let before = segments(path.drop_last());
        if path.last() == '/' {
            before
        } else if path.len() >= 2 && path[path.len() - 2] != '/' {
            before.drop_last().push(before.last().push(path.last()))
        } else {
            before.push(seq![path.last()])
        }
    }
}

/// The kind of thing that a path names: its second segment where the first
/// is `api`, and `unknown` for any other path.
pub open spec fn entity_type(path: Seq<char>) -> Seq<char> {
    let parts = segments(path);
    if parts.len() >= 2 && parts[0] == "api"@ {
        parts[1]
    } else {
        "unknown"@
    }
}

/// Whether `bounds` tell where the segments of the first `upto` characters
/// of `chars` stand.
spec fn bounds_of(chars: Seq<char>, bounds: Seq<(usize, usize)>, upto: int) -> bool {
    let parts = segments(chars.take(upto));
    &&& bounds.len() == parts.len()
    &&& forall|k: int|
        0 <= k < bounds.len() ==> {
            &&& 0 <= (#[trigger] bounds[k]).0 < bounds[k].1 <= upto
            &&& chars.subrange(bounds[k].0 as int, bounds[k].1 as int) == parts[k]
        }
    &&& upto > 0 && chars[upto - 1] != '/' ==> bounds.len() > 0 && bounds.last().1 == upto
}

/// The kind of thing that the path of a request names.
pub fn extract_entity_type(path: &str) -> (kind: String)
    ensures
        kind@ == entity_type(path@),
{
    let chars = chars_of(path);
    let mut bounds: Vec<(usize, usize)> = Vec::new();
    let mut i: usize = 0;
    while i < chars.len()
        invariant
            i <= chars@.len(),
            chars@ == path@,
            bounds_of(chars@, bounds@, i as int),
        decreases chars@.len() - i,
    {
        proof {
            assert(chars@.take(i + 1).drop_last() =~= chars@.take(i as int));
        }
        if chars[i] != '/' {
            if i > 0 && chars[i - 1] != '/' {
                let last = bounds.len() - 1;
                let start = bounds[last].0;
                bounds.set(last, (start, i + 1));
                assert forall|k: int| 0 <= k < bounds@.len() implies 0 <= (#[trigger] bounds@[k]).0
                    < bounds@[k].1 <= i + 1 && chars@.subrange(
                    bounds@[k].0 as int,
                    bounds@[k].1 as int,
                ) == segments(chars@.take(i + 1))[k] by {}
            } else {
                bounds.push((i, i + 1));
                assert forall|k: int| 0 <= k < bounds@.len() implies 0 <= (#[trigger] bounds@[k]).0
                    < bounds@[k].1 <= i + 1 && chars@.subrange(
                    bounds@[k].0 as int,
                    bounds@[k].1 as int,
                ) == segments(chars@.take(i + 1))[k] by {}
            }
        }
        i = i + 1;
    }
    assert(chars@.take(chars@.len() as int) =~= chars@);
    if bounds.len() >= 2 {
        let first = bounds[0];
        let second = bounds[1];
        if same_text(path.substring_char(first.0, first.1), "api") {
            return path.substring_char(second.0, second.1).to_owned();
        }
    }
    "unknown".to_owned()
}

/// The action of an audit entry: method and path with a space between
/// them.
pub open spec fn audit_action(method: Seq<char>, path: Seq<char>) -> Seq<char> {
    method + " "@ + path
}

/// Whether `entry` is the line that the request leaves in the audit
/// trail, if it leaves one.
pub open spec fn is_audit_line(
    method: Seq<char>,
    path: Seq<char>,
    status: u16,
    user_id: Option<i64>,
    forwarded: Option<String>,
    peer: Option<String>,
    user_agent: Option<String>,
    entry: Option<AuditEntry>,
) -> bool {
    match entry {
        None => !audited(method, path, status),
        Some(entry) => {
            &&& audited(method, path, status)
            &&& entry.action@ == audit_action(method, path)
            &&& entry.entity_type@ == entity_type(path)
            &&& entry.user_id == user_id
            &&& entry.entity_id.is_none()
            &&& entry.old_values.is_none()
            &&& entry.new_values.is_none()
            &&& entry.ip_address == if forwarded.is_some() {
                forwarded
            } else {
                peer
            }
            &&& entry.user_agent == user_agent
        },
    }
}

/// The interceptor, once the handler has answered: the line to write to
/// the audit trail, without waiting for it, or none. The client's address
/// is the forwarded-address header as it stands, else the address of the
/// peer.
pub fn audit_middleware(
    method: &str,
    path: &str,
    status: u16,
    user_id: Option<i64>,
    forwarded: Option<String>,
    peer: Option<String>,
    user_agent: Option<String>,
) -> (entry: Option<AuditEntry>)
    ensures
        is_audit_line(method@, path@, status, user_id, forwarded, peer, user_agent, entry),
{
    if !should_audit(method, path, status) {
        return None;
    }
    let mut action = method.to_owned();
    action.append(" ");
    action.append(path);
    let kind = extract_entity_type(path);
    let mut entry = AuditEntry::new(action.as_str(), kind.as_str());
    if let Some(id) = user_id {
        entry = entry.with_user_id(id);
    }
    let ip = match forwarded {
        Some(ip) => Some(ip),
        None => peer,
    };
    if let Some(ip) = ip {
        entry = entry.with_ip_address(ip);
    }
    if let Some(ua) = user_agent {
        entry = entry.with_user_agent(ua);
    }
    Some(entry)
}

} // verus!
