//! The append-only audit log of privileged mutations. Recording is
//! best-effort: a record that cannot be appended never fails the
//! operation that asked for it.

use vstd::prelude::*;

use crate::model::{AuditLogEntry, AuditLogEntryView};
use crate::store::{wf_store, Store, StoreView};

verus! {

/// The entry that one record call appends, taking the store's next
/// identifier.
pub open spec fn audit_entry_of(
    s: StoreView,
    user_id: u128,
    action: Seq<char>,
    resource_type: Seq<char>,
    resource_id: Option<u128>,
    old_values: Option<Seq<char>>,
    new_values: Option<Seq<char>>,
    now: i64,
) -> AuditLogEntryView {
    AuditLogEntryView {
        id: s.next_id,
        user_id: Some(user_id),
        action: action,
        resource_type: resource_type,
        resource_id: resource_id,
        old_values: old_values,
        new_values: new_values,
        created_at: now,
    }
}

/// What one audit record does to the store. When no identifier is left
/// to hand out the record is dropped: best-effort, never an error.
pub open spec fn audit_tr(
    s: StoreView,
    user_id: u128,
    action: Seq<char>,
    resource_type: Seq<char>,
    resource_id: Option<u128>,
    old_values: Option<Seq<char>>,
    new_values: Option<Seq<char>>,
    now: i64,
) -> StoreView {
    if s.next_id == u128::MAX {
        s
    } else {
        StoreView {
            audit: s.audit.push(
                audit_entry_of(
                    s,
                    user_id,
                    action,
                    resource_type,
                    resource_id,
                    old_values,
                    new_values,
                    now,
                ),
            ),
            next_id: (s.next_id + 1) as u128,
            ..s
        }
    }
}

impl Store {
    /// Appends one audit record: who did what to which resource, with the
    /// serialized old and new values. Fire-and-forget: the caller never
    /// learns of a dropped record.
    pub fn create_audit_log(
        &mut self,
        user_id: u128,
        action: String,
        resource_type: String,
        resource_id: Option<u128>,
        old_values: Option<String>,
        new_values: Option<String>,
        now: i64,
    )
        requires
            old(self).wf(),
        ensures
            final(self).wf(),
            final(self)@ == audit_tr(
                old(self)@,
                user_id,
                action@,
                resource_type@,
                resource_id,
                crate::model::opt_str_view(old_values),
                crate::model::opt_str_view(new_values),
                now,
            ),
    {
        let ghost oldv = self@;
        if self.next_id == u128::MAX {
            return ;
        }
        let entry = AuditLogEntry {
            id: self.next_id,
            user_id: Some(user_id),
            action: action,
            resource_type: resource_type,
            resource_id: resource_id,
            old_values: old_values,
            new_values: new_values,
            created_at: now,
        };
        self.audit.push(entry);
        self.next_id = self.next_id + 1;
        proof {
            assert(self@.audit =~= oldv.audit.push(
                audit_entry_of(
                    oldv,
                    user_id,
                    entry@.action,
                    entry@.resource_type,
                    resource_id,
                    entry@.old_values,
                    entry@.new_values,
                    now,
                ),
            ));
            assert(self@ =~= audit_tr(
                oldv,
                user_id,
                entry@.action,
                entry@.resource_type,
                resource_id,
                entry@.old_values,
                entry@.new_values,
                now,
            ));
            assert(wf_store(self@));
        }
    }
}

} // verus!
