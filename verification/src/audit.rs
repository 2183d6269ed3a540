//! The record of a request that changed something.

use vstd::prelude::*;

verus! {

/// One line of the audit trail, before it is written: who did what to
/// which kind of thing, from where and with what client. `old_values` and
/// `new_values` hold JSON text.
#[derive(Clone, Debug, PartialEq, Eq)]
pub struct AuditEntry {
    pub user_id: Option<i64>,
    pub action: String,
    pub entity_type: String,
    pub entity_id: Option<i64>,
    pub old_values: Option<String>,
    pub new_values: Option<String>,
    pub ip_address: Option<String>,
    pub user_agent: Option<String>,
}

impl AuditEntry {
    /// An entry that names the action and the kind of thing, and nothing
    /// else.
    pub fn new(action: &str, entity_type: &str) -> (entry: Self)
        ensures
            entry.action@ == action@,
            entry.entity_type@ == entity_type@,
            entry.user_id.is_none(),
            entry.entity_id.is_none(),
            entry.old_values.is_none(),
            entry.new_values.is_none(),
            entry.ip_address.is_none(),
            entry.user_agent.is_none(),
    {
        AuditEntry {
            user_id: None,
            action: action.to_owned(),
            entity_type: entity_type.to_owned(),
            entity_id: None,
            old_values: None,
            new_values: None,
            ip_address: None,
            user_agent: None,
        }
    }

    /// The entry with the principal set.
    pub fn with_user_id(self, user_id: i64) -> (entry: Self)
        ensures
            entry == (AuditEntry { user_id: Some(user_id), ..self }),
    {
        let mut entry = self;
        entry.user_id = Some(user_id);
        entry
    }

    /// The entry with the client's address set.
    pub fn with_ip_address(self, ip: String) -> (entry: Self)
        ensures
            entry == (AuditEntry { ip_address: Some(ip), ..self }),
    {
        let mut entry = self;
        entry.ip_address = Some(ip);
        entry
    }

    /// The entry with the client's user agent set.
    pub fn with_user_agent(self, ua: String) -> (entry: Self)
        ensures
            entry == (AuditEntry { user_agent: Some(ua), ..self }),
    {
        let mut entry = self;
        entry.user_agent = Some(ua);
        entry
    }
}

} // verus!
