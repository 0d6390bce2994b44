use vstd::prelude::*;
use crate::errors::CoreError;

verus! {

/// Lifecycle of a draft reply: `Draft` (editable) -> `Approved` (send
/// allowed) -> `Sent` (provider id recorded). A failed dispatch leaves the
/// draft at `Approved`, so a send may be retried.
#[derive(PartialEq, Eq, Structural, Clone, Copy, Debug)]
pub enum DraftStatus {
    Draft,
    Approved,
    Sent,
}

/// One generated reply draft, owned by exactly one identity.
pub struct DraftRecord {
    pub id: i64,
    pub email_id: i64,
    pub user_email: String,
    pub content: String,
    pub tone: String,
    pub status: DraftStatus,
    pub sent: bool,
    pub sent_gmail_id: Option<String>,
    pub created_at: i64,
    pub updated_at: i64,
}

/// A draft may be dispatched only from `Approved`.
pub open spec fn can_send(d: DraftRecord) -> bool {
    d.status == DraftStatus::Approved
}

/// Editing replaces the content and bumps `updated_at`; nothing else moves.
/// The lifecycle does not forbid editing a sent draft; callers that care
/// must gate on `status` themselves.
pub open spec fn edited_spec(d: DraftRecord, content: String, now: i64) -> DraftRecord {
    DraftRecord { content, updated_at: now, ..d }
}

/// Approval moves any not-yet-sent draft to `Approved`; re-approval is
/// harmless (it only bumps `updated_at`).
pub open spec fn approved_spec(d: DraftRecord, now: i64) -> DraftRecord {
    DraftRecord { status: DraftStatus::Approved, updated_at: now, ..d }
}

/// A successful dispatch records the provider-assigned message id and moves
/// the draft to `Sent`.
pub open spec fn sent_spec(d: DraftRecord, gmail_id: String, now: i64) -> DraftRecord {
    DraftRecord {
        status: DraftStatus::Sent,
        sent: true,
        sent_gmail_id: Some(gmail_id),
        updated_at: now,
        ..d
    }
}

impl DraftRecord {
    /// A field-by-field copy, equal to the original.
    pub fn duplicate(&self) -> (r: DraftRecord)
        ensures
            r == *self,
    {
        DraftRecord {
            id: self.id,
            email_id: self.email_id,
            user_email: self.user_email.clone(),
            content: self.content.clone(),
            tone: self.tone.clone(),
            status: self.status,
            sent: self.sent,
            sent_gmail_id: match &self.sent_gmail_id {
                Some(s) => Some(s.clone()),
                None => None,
            },
            created_at: self.created_at,
            updated_at: self.updated_at,
        }
    }

    /// Replaces the content; any state is accepted (matching the stored
    /// model, where editing after approval or send is not forbidden).
    pub fn update_content(&mut self, content: String, now: i64)
        ensures
            *final(self) == edited_spec(*old(self), content, now),
    {
        self.content = content;
        self.updated_at = now;
    }

    /// Approves the draft. From `Draft` or `Approved` this succeeds (and is
    /// idempotent on the status); a `Sent` draft is left untouched.
    pub fn approve(&mut self, now: i64) -> (r: bool)
        ensures
            old(self).status != DraftStatus::Sent ==> r && *final(self) == approved_spec(
                *old(self),
                now,
            ),
            old(self).status == DraftStatus::Sent ==> !r && *final(self) == *old(self),
    {
        match self.status {
            DraftStatus::Sent => false,
            _ => {
                self.status = DraftStatus::Approved;
                self.updated_at = now;
                true
            },
        }
    }

    /// Records the outcome of a dispatch attempt. On success the draft moves
    /// to `Sent` and keeps the provider's message id; on failure it is left
    /// exactly as it was — still `Approved`, so the send may be retried.
    pub fn complete_send(&mut self, outcome: &Result<String, CoreError>, now: i64)
        requires
            can_send(*old(self)),
        ensures
            match outcome {
                Ok(gmail_id) => *final(self) == sent_spec(*old(self), *gmail_id, now),
                Err(_) => *final(self) == *old(self) && can_send(*final(self)),
            },
    {
        match outcome {
            Ok(gmail_id) => {
                self.status = DraftStatus::Sent;
                self.sent = true;
                self.sent_gmail_id = Some(gmail_id.clone());
                self.updated_at = now;
            },
            Err(_) => (),
        }
    }
}

/// Whole-lifecycle law: a draft created in `Draft`, approved, then sent with
/// provider id `g`, ends in `Sent` with `sent_gmail_id == Some(g)`, and its
/// identity, owner and content survive every step.
pub proof fn lemma_draft_lifecycle(d: DraftRecord, g: String, t1: i64, t2: i64)
    requires
        d.status == DraftStatus::Draft,
    ensures
        can_send(approved_spec(d, t1)),
        sent_spec(approved_spec(d, t1), g, t2).status == DraftStatus::Sent,
        sent_spec(approved_spec(d, t1), g, t2).sent_gmail_id == Some(g),
        sent_spec(approved_spec(d, t1), g, t2).id == d.id,
        sent_spec(approved_spec(d, t1), g, t2).user_email == d.user_email,
        sent_spec(approved_spec(d, t1), g, t2).content == d.content,
{
}

/// The drafts table: rows are never deleted, ids are assigned in order of
/// creation and every mutation is scoped to the owning identity.
pub struct DraftStore {
    entries: Vec<DraftRecord>,
}

impl DraftStore {
    /// Row `i` carries id `i + 1`, so ids are unique and stable; the row
    /// count stays within the serial id range.
    pub closed spec fn wf(&self) -> bool {
        &&& self.entries@.len() <= 0x7fff_ffff
        &&& forall|i: int| 0 <= i < self.entries@.len() ==> self.entries@[i].id == i + 1
    }

    pub closed spec fn rows(&self) -> Seq<DraftRecord> {
        self.entries@
    }

    pub fn new() -> (s: DraftStore)
        ensures
            s.wf(),
            s.rows() == Seq::<DraftRecord>::empty(),
    {
        let s = DraftStore { entries: Vec::new() };
        proof {
            assert(s.entries@ =~= Seq::<DraftRecord>::empty());
        }
        s
    }

    /// Creates a row in `Draft` state and returns its id. Fails only when
    /// the id space is exhausted, in which case nothing is written.
    pub fn create_draft(
        &mut self,
        email_id: i64,
        user_email: String,
        content: String,
        tone: String,
        now: i64,
    ) -> (r: Result<i64, CoreError>)
        requires
            old(self).wf(),
        ensures
            final(self).wf(),
            match r {
                Ok(id) => {
                    &&& id == old(self).rows().len() + 1
                    &&& final(self).rows() == old(self).rows().push(
                        DraftRecord {
                            id: id as i64,
                            email_id,
                            user_email,
                            content,
                            tone,
                            status: DraftStatus::Draft,
                            sent: false,
                            sent_gmail_id: None,
                            created_at: now,
                            updated_at: now,
                        },
                    )
                },
                Err(e) => {
                    &&& e matches CoreError::StorageError(_)
                    &&& old(self).rows().len() >= 0x7fff_ffff
                    &&& final(self).rows() == old(self).rows()
                },
            },
    {
        if self.entries.len() >= 0x7fff_ffff {
            return Err(CoreError::StorageError("draft id space exhausted".to_owned()));
        }
        let id = (self.entries.len() + 1) as i64;
        self.entries.push(
            DraftRecord {
                id,
                email_id,
                user_email,
                content,
                tone,
                status: DraftStatus::Draft,
                sent: false,
                sent_gmail_id: None,
                created_at: now,
                updated_at: now,
            },
        );
        Ok(id)
    }

    /// Point lookup scoped to the owner: a row is returned only when it
    /// exists and belongs to `user_email`.
    pub fn get_draft(&self, id: i64, user_email: &str) -> (r: Option<DraftRecord>)
        requires
            self.wf(),
        ensures
            match r {
                Some(d) => {
                    &&& 1 <= id <= self.rows().len()
                    &&& d == self.rows()[id - 1]
                    &&& d.user_email@ == user_email@
                },
                None => !(1 <= id <= self.rows().len()
                    && self.rows()[id - 1].user_email@ == user_email@),
            },
    {
        if id < 1 || id > self.entries.len() as i64 {
            return None;
        }
        let idx = (id - 1) as usize;
        let row = &self.entries[idx];
        if crate::strutil::str_eq(row.user_email.as_str(), user_email) {
            Some(row.duplicate())
        } else {
            None
        }
    }

    /// Whether `id` names a row owned by `user_email`.
    pub open spec fn owns(&self, id: i64, user_email: Seq<char>) -> bool {
        1 <= id <= self.rows().len() && self.rows()[id - 1].user_email@ == user_email
    }

    /// Replaces the content of an owned draft; bumps `updated_at`.
    pub fn update_draft(&mut self, id: i64, user_email: &str, content: String, now: i64) -> (r:
        bool)
        requires
            old(self).wf(),
        ensures
            final(self).wf(),
            r == old(self).owns(id, user_email@),
            r ==> final(self).rows() == old(self).rows().update(
                id - 1,
                edited_spec(old(self).rows()[id - 1], content, now),
            ),
            !r ==> final(self).rows() == old(self).rows(),
    {
        if id < 1 || id > self.entries.len() as i64 {
            return false;
        }
        let idx = (id - 1) as usize;
        if !crate::strutil::str_eq(self.entries[idx].user_email.as_str(), user_email) {
            return false;
        }
        self.entries[idx].content = content;
        self.entries[idx].updated_at = now;
        proof {
            assert(self.entries@ =~= old(self).rows().update(
                id - 1,
                edited_spec(old(self).rows()[id - 1], self.entries@[id - 1].content, now),
            ));
        }
        true
    }

    /// Approves an owned draft. Succeeds exactly when the row exists, is
    /// owned by `user_email` and has not been sent.
    pub fn approve_draft(&mut self, id: i64, user_email: &str, now: i64) -> (r: bool)
        requires
            old(self).wf(),
        ensures
            final(self).wf(),
            r == (old(self).owns(id, user_email@) && old(self).rows()[id - 1].status
                != DraftStatus::Sent),
            r ==> final(self).rows() == old(self).rows().update(
                id - 1,
                approved_spec(old(self).rows()[id - 1], now),
            ),
            !r ==> final(self).rows() == old(self).rows(),
    {
        if id < 1 || id > self.entries.len() as i64 {
            return false;
        }
        let idx = (id - 1) as usize;
        if !crate::strutil::str_eq(self.entries[idx].user_email.as_str(), user_email) {
            return false;
        }
        match self.entries[idx].status {
            DraftStatus::Sent => false,
            _ => {
                self.entries[idx].status = DraftStatus::Approved;
                self.entries[idx].updated_at = now;
                proof {
                    assert(self.entries@ =~= old(self).rows().update(
                        id - 1,
                        approved_spec(old(self).rows()[id - 1], now),
                    ));
                }
                true
            },
        }
    }

    /// Records a successful dispatch on an owned, approved draft: the row
    /// moves to `Sent` and keeps the provider-assigned id.
    pub fn record_sent(&mut self, id: i64, user_email: &str, gmail_id: String, now: i64) -> (r:
        bool)
        requires
            old(self).wf(),
        ensures
            final(self).wf(),
            r == (old(self).owns(id, user_email@) && can_send(old(self).rows()[id - 1])),
            r ==> final(self).rows() == old(self).rows().update(
                id - 1,
                sent_spec(old(self).rows()[id - 1], gmail_id, now),
            ),
            !r ==> final(self).rows() == old(self).rows(),
    {
        if id < 1 || id > self.entries.len() as i64 {
            return false;
        }
        let idx = (id - 1) as usize;
        if !crate::strutil::str_eq(self.entries[idx].user_email.as_str(), user_email) {
            return false;
        }
        match self.entries[idx].status {
            DraftStatus::Approved => {
                self.entries[idx].status = DraftStatus::Sent;
                self.entries[idx].sent = true;
                self.entries[idx].sent_gmail_id = Some(gmail_id);
                self.entries[idx].updated_at = now;
                proof {
                    assert(self.entries@ =~= old(self).rows().update(
                        id - 1,
                        sent_spec(
                            old(self).rows()[id - 1],
                            self.entries@[id - 1].sent_gmail_id->Some_0,
                            now,
                        ),
                    ));
                }
                true
            },
            _ => false,
        }
    }

    /// The drafts of `user_email`, newest creation first.
    pub fn list_drafts(&self, user_email: &str) -> (r: Vec<DraftRecord>)
        requires
            self.wf(),
        ensures
            r@ == owned_desc(self.rows(), user_email@),
    {
        let mut out: Vec<DraftRecord> = Vec::new();
        let n = self.entries.len();
        let mut i: usize = 0;
        proof {
            assert(self.rows().subrange(0, 0) =~= Seq::<DraftRecord>::empty());
        }
        while i < n
            invariant
                self.wf(),
                n == self.rows().len(),
                i <= n,
                out@ == owned_desc(self.rows().subrange(0, i as int), user_email@),
            decreases n - i,
        {
            proof {
                assert(self.rows().subrange(0, i + 1).drop_last() =~= self.rows().subrange(
                    0,
                    i as int,
                ));
                assert(self.rows().subrange(0, i + 1).last() == self.rows()[i as int]);
            }
            if crate::strutil::str_eq(self.entries[i].user_email.as_str(), user_email) {
                let row = self.entries[i].duplicate();
                out.insert(0, row);
                proof {
                    assert(out@ =~= seq![self.rows()[i as int]] + owned_desc(
                        self.rows().subrange(0, i as int),
                        user_email@,
                    ));
                }
            }
            i = i + 1;
        }
        proof {
            assert(self.rows().subrange(0, n as int) =~= self.rows());
        }
        out
    }
}

/// The drafts owned by `owner`, most recently created first (rows are stored
/// in creation order, so later rows come out earlier).
pub open spec fn owned_desc(rows: Seq<DraftRecord>, owner: Seq<char>) -> Seq<DraftRecord>
    decreases rows.len(),
{
    if rows.len() == 0 {
        Seq::empty()
    } else {
        let rest = owned_desc(rows.drop_last(), owner);
        if rows.last().user_email@ == owner {
            seq![rows.last()] + rest
        } else {
            rest
        }
    }
}

/// Body of a draft-generation request: which stored email to answer and in
/// which tone.
pub struct DraftRequest {
    pub email_id: i32,
    pub tone: Option<String>,
}

/// Body of a draft edit: the replacement content.
pub struct DraftUpdate {
    pub content: String,
}

} // verus!

