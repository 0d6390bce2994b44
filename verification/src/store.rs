use vstd::prelude::*;
use crate::errors::CoreError;
use crate::strutil::{clone_opt_string, clone_string_vec, view_opt};

verus! {

/// One identity's long-lived refresh credential, as persisted by the store.
pub struct CredentialRow {
    pub email: String,
    pub refresh_token: String,
}

/// Persists at most one opaque refresh credential per user identity, with
/// upsert-on-conflict semantics: a new login replaces the old token.
/// Models the `user_tokens` table (unique key: `email`).
pub struct CredentialStore {
    entries: Vec<CredentialRow>,
}

/// The map a sequence of credential rows denotes, later rows winning.
pub open spec fn credential_map_of(rows: Seq<CredentialRow>) -> Map<Seq<char>, Seq<char>>
    decreases rows.len(),
{
    if rows.len() == 0 {
        Map::empty()
    } else {
        credential_map_of(rows.drop_last()).insert(
            rows.last().email@,
            rows.last().refresh_token@,
        )
    }
}

/// What `PersistCredential` does to the stored map: a provided token is
/// upserted; an absent one leaves the map untouched, so a consent-less login
/// never erases an existing credential.
pub open spec fn persist_spec(
    m: Map<Seq<char>, Seq<char>>,
    email: Seq<char>,
    token: Option<Seq<char>>,
) -> Map<Seq<char>, Seq<char>> {
    match token {
        Some(t) => m.insert(email, t),
        None => m,
    }
}

/// The refresh token a renewal for `email` would present, if any.
pub open spec fn refresh_token_used(m: Map<Seq<char>, Seq<char>>, email: Seq<char>) -> Option<
    Seq<char>,
> {
    if m.contains_key(email) {
        Some(m[email])
    } else {
        None
    }
}

impl CredentialStore {
    /// At most one row per identity.
    pub closed spec fn wf(&self) -> bool {
        forall|i: int, j: int|
            0 <= i < j < self.entries@.len() ==> self.entries@[i].email@ != self.entries@[j].email@
    }

    pub closed spec fn as_map(&self) -> Map<Seq<char>, Seq<char>> {
        credential_map_of(self.entries@)
    }

    pub fn new() -> (s: CredentialStore)
        ensures
            s.wf(),
            s.as_map() == Map::<Seq<char>, Seq<char>>::empty(),
    {
        CredentialStore { entries: Vec::new() }
    }

    /// Upserts the refresh credential for `email`: on conflict the stored
    /// token is replaced, so the store keeps at most one row per identity.
    pub fn insert_token(&mut self, email: &str, token: &str)
        requires
            old(self).wf(),
        ensures
            final(self).wf(),
            final(self).as_map() == old(self).as_map().insert(email@, token@),
    {
        let ghost old_rows = self.entries@;
        let n = self.entries.len();
        let mut i: usize = 0;
        while i < n
            invariant
                self.entries@ == old_rows,
                old_rows == old(self).entries@,
                n == old_rows.len(),
                i <= n,
                forall|j: int| 0 <= j < i ==> old_rows[j].email@ != email@,
                forall|k: int, l: int|
                    0 <= k < l < old_rows.len() ==> old_rows[k].email@ != old_rows[l].email@,
            decreases n - i,
        {
            if crate::strutil::str_eq(self.entries[i].email.as_str(), email) {
                self.entries[i].refresh_token = token.to_owned();
                proof {
                    lemma_credential_map_update(old_rows, self.entries@, i as int, token@);
                    assert(forall|k: int|
                        0 <= k < old_rows.len() ==> self.entries@[k].email@ == old_rows[k].email@);
                    assert(credential_map_of(old_rows) == old(self).as_map());
                }
                return ;
            }
            i = i + 1;
        }
        self.entries.push(CredentialRow { email: email.to_owned(), refresh_token: token.to_owned() });
        proof {
            assert(self.entries@.drop_last() =~= old_rows);
        }
    }

    /// The stored refresh credential for `email`, if the identity has one.
    pub fn get_refresh_token(&self, email: &str) -> (r: Option<String>)
        requires
            self.wf(),
        ensures
            match r {
                Some(t) => self.as_map().contains_key(email@) && self.as_map()[email@] == t@,
                None => !self.as_map().contains_key(email@),
            },
    {
        let n = self.entries.len();
        let mut i: usize = 0;
        while i < n
            invariant
                self.wf(),
                n == self.entries@.len(),
                i <= n,
                forall|j: int| 0 <= j < i ==> self.entries@[j].email@ != email@,
            decreases n - i,
        {
            if crate::strutil::str_eq(self.entries[i].email.as_str(), email) {
                let t = self.entries[i].refresh_token.clone();
                proof {
                    lemma_credential_map_row(self.entries@, i as int);
                }
                return Some(t);
            }
            i = i + 1;
        }
        proof {
            lemma_credential_map_absent(self.entries@, email@);
        }
        None
    }

    /// Stores the refresh credential the provider returned, if it returned
    /// one; a response without a refresh token leaves the store unchanged.
    pub fn persist_credential(&mut self, email: &str, token: &Option<String>)
        requires
            old(self).wf(),
        ensures
            final(self).wf(),
            final(self).as_map() == persist_spec(
                old(self).as_map(),
                email@,
                match token {
                    Some(t) => Some(t@),
                    None => None,
                },
            ),
    {
        match token {
            Some(t) => self.insert_token(email, t.as_str()),
            None => (),
        }
    }
}

/// Replacing the token of row `i` (whose email is unique in `rows`) updates
/// the denoted map at exactly that email.
proof fn lemma_credential_map_update(
    rows: Seq<CredentialRow>,
    updated: Seq<CredentialRow>,
    i: int,
    token: Seq<char>,
)
    requires
        0 <= i < rows.len(),
        updated.len() == rows.len(),
        forall|k: int| 0 <= k < rows.len() && k != i ==> updated[k] == rows[k],
        updated[i].email@ == rows[i].email@,
        updated[i].refresh_token@ == token,
        forall|k: int, l: int| 0 <= k < l < rows.len() ==> rows[k].email@ != rows[l].email@,
    ensures
        credential_map_of(updated) == credential_map_of(rows).insert(rows[i].email@, token),
    decreases rows.len(),
{
    if rows.len() > 0 {
        if i == rows.len() - 1 {
            assert(updated.drop_last() =~= rows.drop_last());
            assert(credential_map_of(updated) =~= credential_map_of(rows).insert(
                rows[i].email@,
                token,
            ));
        } else {
            lemma_credential_map_update(rows.drop_last(), updated.drop_last(), i, token);
            assert(updated.last() == rows.last());
            assert(rows.last().email@ != rows[i].email@);
            assert(credential_map_of(updated) =~= credential_map_of(rows).insert(
                rows[i].email@,
                token,
            ));
        }
    }
}

/// A row whose email is unique in `rows` is what the denoted map holds.
proof fn lemma_credential_map_row(rows: Seq<CredentialRow>, i: int)
    requires
        0 <= i < rows.len(),
        forall|k: int, l: int| 0 <= k < l < rows.len() ==> rows[k].email@ != rows[l].email@,
    ensures
        credential_map_of(rows).contains_key(rows[i].email@),
        credential_map_of(rows)[rows[i].email@] == rows[i].refresh_token@,
    decreases rows.len(),
{
    if i < rows.len() - 1 {
        lemma_credential_map_row(rows.drop_last(), i);
        assert(rows.last().email@ != rows[i].email@);
    }
}

/// An email under no row is not in the denoted map.
proof fn lemma_credential_map_absent(rows: Seq<CredentialRow>, email: Seq<char>)
    requires
        forall|k: int| 0 <= k < rows.len() ==> rows[k].email@ != email,
    ensures
        !credential_map_of(rows).contains_key(email),
    decreases rows.len(),
{
    if rows.len() > 0 {
        lemma_credential_map_absent(rows.drop_last(), email);
    }
}

/// Law: persisting a credential and then renewing uses exactly that
/// credential — `PersistCredential(I, R)` followed by `RefreshAccessToken(I)`
/// presents `R` to the provider.
pub proof fn lemma_persist_then_refresh_uses_token(
    m: Map<Seq<char>, Seq<char>>,
    email: Seq<char>,
    token: Seq<char>,
)
    ensures
        refresh_token_used(persist_spec(m, email, Some(token)), email) == Some(token),
        persist_spec(m, email, Some(token)).contains_key(email),
        persist_spec(m, email, Some(token))[email] == token,
{
}

/// One stored mail message, keyed by the provider-assigned message id.
pub struct EmailRow {
    pub id: i64,
    pub gmail_id: String,
    pub thread_id: Option<String>,
    pub user_email: Option<String>,
    pub sender: Option<String>,
    pub to_recipients: Option<String>,
    pub subject: Option<String>,
    pub snippet: Option<String>,
    pub body_text: Option<String>,
    pub body_html: Option<String>,
    pub labels: Option<Vec<String>>,
    pub fetched_at: i64,
}

/// The labels of a row, as plain values.
pub open spec fn labels_view(l: Option<Vec<String>>) -> Option<Seq<Seq<char>>> {
    match l {
        Some(v) => Some(v.deep_view()),
        None => None,
    }
}

/// Field-for-field sameness of two rows, by value: the row id, every
/// header-derived field, both bodies, the labels and the fetch time.
pub open spec fn row_equiv(a: EmailRow, b: EmailRow) -> bool {
    &&& a.id == b.id
    &&& a.gmail_id@ == b.gmail_id@
    &&& view_opt(a.thread_id) == view_opt(b.thread_id)
    &&& view_opt(a.user_email) == view_opt(b.user_email)
    &&& view_opt(a.sender) == view_opt(b.sender)
    &&& view_opt(a.to_recipients) == view_opt(b.to_recipients)
    &&& view_opt(a.subject) == view_opt(b.subject)
    &&& view_opt(a.snippet) == view_opt(b.snippet)
    &&& view_opt(a.body_text) == view_opt(b.body_text)
    &&& view_opt(a.body_html) == view_opt(b.body_html)
    &&& labels_view(a.labels) == labels_view(b.labels)
    &&& a.fetched_at == b.fetched_at
}

impl EmailRow {
    /// A field-by-field copy of the row's values.
    pub fn duplicate(&self) -> (r: EmailRow)
        ensures
            row_equiv(r, *self),
    {
        EmailRow {
            id: self.id,
            gmail_id: self.gmail_id.clone(),
            thread_id: clone_opt_string(&self.thread_id),
            user_email: clone_opt_string(&self.user_email),
            sender: clone_opt_string(&self.sender),
            to_recipients: clone_opt_string(&self.to_recipients),
            subject: clone_opt_string(&self.subject),
            snippet: clone_opt_string(&self.snippet),
            body_text: clone_opt_string(&self.body_text),
            body_html: clone_opt_string(&self.body_html),
            labels: match &self.labels {
                Some(ls) => Some(clone_string_vec(ls)),
                None => None,
            },
            fetched_at: self.fetched_at,
        }
    }
}

/// `r` with its row id replaced.
pub open spec fn with_id(r: EmailRow, id: i64) -> EmailRow {
    EmailRow { id, ..r }
}

/// The map a sequence of mail rows denotes, keyed by provider message id,
/// later rows winning.
pub open spec fn email_map_of(rows: Seq<EmailRow>) -> Map<Seq<char>, EmailRow>
    decreases rows.len(),
{
    if rows.len() == 0 {
        Map::empty()
    } else {
        email_map_of(rows.drop_last()).insert(rows.last().gmail_id@, rows.last())
    }
}

/// What a re-fetch leaves in a stored row: the row id, key, owner and
/// recipients survive from the stored row; the mutable fields — thread,
/// sender, subject, snippet, both bodies, labels, fetch time — come from
/// the fresh fetch.
pub open spec fn merged_row(stored: EmailRow, fresh: EmailRow) -> EmailRow {
    EmailRow {
        id: stored.id,
        gmail_id: stored.gmail_id,
        user_email: stored.user_email,
        to_recipients: stored.to_recipients,
        ..fresh
    }
}

/// What an upsert keyed by `provider_message_id` does to the stored map:
/// on conflict exactly the mutable fields are overwritten; a fresh message
/// takes the next id.
pub open spec fn msg_upsert(m: Map<Seq<char>, EmailRow>, r: EmailRow, fresh_id: i64) -> Map<
    Seq<char>,
    EmailRow,
> {
    if m.contains_key(r.gmail_id@) {
        m.insert(r.gmail_id@, merged_row(m[r.gmail_id@], r))
    } else {
        m.insert(r.gmail_id@, with_id(r, fresh_id))
    }
}

/// Law: upserting two messages with the same `provider_message_id` leaves
/// exactly one entry for that id — a map holds one value per key — bearing
/// the second message's subject (and the second's other mutable fields),
/// while the row id, key and owner assigned at first insertion survive.
pub proof fn lemma_upsert_same_id_keeps_one_row(
    m: Map<Seq<char>, EmailRow>,
    r1: EmailRow,
    r2: EmailRow,
    f1: i64,
    f2: i64,
)
    requires
        r1.gmail_id@ == r2.gmail_id@,
        !m.contains_key(r1.gmail_id@),
    ensures
        msg_upsert(msg_upsert(m, r1, f1), r2, f2).dom() =~= m.dom().insert(r1.gmail_id@),
        msg_upsert(msg_upsert(m, r1, f1), r2, f2)[r2.gmail_id@].subject == r2.subject,
        msg_upsert(msg_upsert(m, r1, f1), r2, f2)[r2.gmail_id@].body_text == r2.body_text,
        msg_upsert(msg_upsert(m, r1, f1), r2, f2)[r2.gmail_id@].gmail_id@ == r2.gmail_id@,
        msg_upsert(msg_upsert(m, r1, f1), r2, f2)[r2.gmail_id@].id == f1,
        msg_upsert(msg_upsert(m, r1, f1), r2, f2)[r2.gmail_id@].user_email == r1.user_email,
{
}

/// A row whose key is unique in `rows` is what the denoted map holds.
proof fn lemma_email_map_row(rows: Seq<EmailRow>, i: int)
    requires
        0 <= i < rows.len(),
        forall|k: int, l: int| 0 <= k < l < rows.len() ==> rows[k].gmail_id@ != rows[l].gmail_id@,
    ensures
        email_map_of(rows).contains_key(rows[i].gmail_id@),
        email_map_of(rows)[rows[i].gmail_id@] == rows[i],
    decreases rows.len(),
{
    if i < rows.len() - 1 {
        lemma_email_map_row(rows.drop_last(), i);
        assert(rows.last().gmail_id@ != rows[i].gmail_id@);
    }
}

/// A key under no row is not in the denoted map.
proof fn lemma_email_map_absent(rows: Seq<EmailRow>, gmail_id: Seq<char>)
    requires
        forall|k: int| 0 <= k < rows.len() ==> rows[k].gmail_id@ != gmail_id,
    ensures
        !email_map_of(rows).contains_key(gmail_id),
    decreases rows.len(),
{
    if rows.len() > 0 {
        lemma_email_map_absent(rows.drop_last(), gmail_id);
    }
}

/// Removing the row of a unique key removes exactly that key.
proof fn lemma_email_map_remove(rows: Seq<EmailRow>, i: int)
    requires
        0 <= i < rows.len(),
        forall|k: int, l: int| 0 <= k < l < rows.len() ==> rows[k].gmail_id@ != rows[l].gmail_id@,
    ensures
        email_map_of(rows.remove(i)) == email_map_of(rows).remove(rows[i].gmail_id@),
    decreases rows.len(),
{
    let g = rows[i].gmail_id@;
    if i == rows.len() - 1 {
        assert(rows.remove(i) =~= rows.drop_last());
        assert(forall|k: int| 0 <= k < rows.len() - 1 ==> rows.drop_last()[k].gmail_id@ != g);
        lemma_email_map_absent(rows.drop_last(), g);
        assert(email_map_of(rows.drop_last()) =~= email_map_of(rows).remove(g));
    } else {
        lemma_email_map_remove(rows.drop_last(), i);
        assert(rows.remove(i).drop_last() =~= rows.drop_last().remove(i));
        assert(rows.remove(i).last() == rows.last());
        assert(rows.last().gmail_id@ != g);
        assert(email_map_of(rows.remove(i)) =~= email_map_of(rows).remove(g));
    }
}

/// The stored mail messages: the `emails` table, keyed by the unique
/// provider message id, with row ids assigned at first insertion and kept
/// across re-fetches. Rows stand in fetch order: an upsert moves its row to
/// the end, so listing from the back yields most-recently-fetched first.
pub struct MessageStore {
    entries: Vec<EmailRow>,
    next_id: i64,
}

impl MessageStore {
    pub closed spec fn wf(&self) -> bool {
        &&& 1 <= self.next_id <= 0x7fff_ffff
        &&& forall|i: int, j: int|
            0 <= i < j < self.entries@.len() ==> self.entries@[i].gmail_id@
                != self.entries@[j].gmail_id@
        &&& forall|i: int|
            0 <= i < self.entries@.len() ==> 1 <= #[trigger] self.entries@[i].id < self.next_id
    }

    pub closed spec fn rows(&self) -> Seq<EmailRow> {
        self.entries@
    }

    pub closed spec fn as_map(&self) -> Map<Seq<char>, EmailRow> {
        email_map_of(self.entries@)
    }

    /// The id the next fresh message would take.
    pub closed spec fn fresh_id(&self) -> i64 {
        self.next_id
    }

    pub fn new() -> (s: MessageStore)
        ensures
            s.wf(),
            s.rows() == Seq::<EmailRow>::empty(),
            s.as_map() == Map::<Seq<char>, EmailRow>::empty(),
    {
        let s = MessageStore { entries: Vec::new(), next_id: 1 };
        proof {
            assert(s.entries@ =~= Seq::<EmailRow>::empty());
        }
        s
    }

    /// Upsert keyed by `provider_message_id`: a re-fetched message
    /// overwrites the mutable fields but keeps its row id, key, owner and
    /// recipients; a fresh message takes the next id. The row moves to the
    /// end, recording fetch recency. Fails only when the id space is
    /// exhausted, writing nothing.
    pub fn upsert_message(&mut self, row: EmailRow) -> (r: Result<i64, CoreError>)
        requires
            old(self).wf(),
        ensures
            final(self).wf(),
            r is Err <==> (!old(self).as_map().contains_key(row.gmail_id@) && old(self).fresh_id()
                >= 0x7fff_ffff),
            r matches Ok(id) ==> {
                &&& final(self).as_map() == msg_upsert(old(self).as_map(), row, old(self).fresh_id())
                &&& final(self).as_map().contains_key(row.gmail_id@)
                &&& final(self).as_map()[row.gmail_id@].id == id
                &&& final(self).as_map()[row.gmail_id@].gmail_id@ == row.gmail_id@
                &&& (old(self).as_map().contains_key(row.gmail_id@) ==> (exists|i: int|
                    0 <= i < old(self).rows().len() && old(self).rows()[i].gmail_id@
                        == row.gmail_id@ && final(self).rows() == old(self).rows().remove(i).push(
                        merged_row(old(self).rows()[i], row),
                    )) && final(self).fresh_id() == old(self).fresh_id())
                &&& (!old(self).as_map().contains_key(row.gmail_id@) ==> final(self).rows() == old(
                    self,
                ).rows().push(with_id(row, old(self).fresh_id())) && final(self).fresh_id() == old(
                    self,
                ).fresh_id() + 1)
            },
            r matches Err(e) ==> e matches CoreError::StorageError(_) && *final(self) == *old(self),
    {
        let ghost old_rows = self.entries@;
        let n = self.entries.len();
        let mut i: usize = 0;
        while i < n
            invariant
                self == old(self),
                old(self).wf(),
                self.entries@ == old_rows,
                n == old_rows.len(),
                i <= n,
                forall|j: int| 0 <= j < i ==> old_rows[j].gmail_id@ != row.gmail_id@,
                forall|k: int, l: int|
                    0 <= k < l < old_rows.len() ==> old_rows[k].gmail_id@ != old_rows[l].gmail_id@,
            decreases n - i,
        {
            if crate::strutil::str_eq(self.entries[i].gmail_id.as_str(), row.gmail_id.as_str()) {
                let stored = self.entries.remove(i);
                let stable_id = stored.id;
                let updated = EmailRow {
                    id: stored.id,
                    gmail_id: stored.gmail_id,
                    user_email: stored.user_email,
                    to_recipients: stored.to_recipients,
                    ..row
                };
                self.entries.push(updated);
                proof {
                    let g = row.gmail_id@;
                    let oi = i as int;
                    let nn = old_rows.len() as int;
                    lemma_email_map_row(old_rows, oi);
                    lemma_email_map_remove(old_rows, oi);
                    assert(self.entries@.drop_last() =~= old_rows.remove(oi));
                    assert(self.entries@[nn - 1] == merged_row(old_rows[oi], row));
                    assert(email_map_of(self.entries@) =~= email_map_of(old_rows).insert(
                        g,
                        merged_row(old_rows[oi], row),
                    ));
                    assert(self.entries@ =~= old_rows.remove(oi).push(merged_row(old_rows[oi], row)));
                    assert forall|k: int| 0 <= k < nn - 1 implies self.entries@[k] == (if k < oi {
                        old_rows[k]
                    } else {
                        old_rows[k + 1]
                    }) by {
                        assert(self.entries@[k] == old_rows.remove(oi)[k]);
                    };
                    assert(self.entries@[nn - 1].gmail_id@ == g);
                    assert forall|k: int, l: int|
                        0 <= k < l < self.entries@.len() implies self.entries@[k].gmail_id@
                        != self.entries@[l].gmail_id@ by {
                        if l < nn - 1 {
                        } else {
                            let ko = if k < oi {
                                k
                            } else {
                                k + 1
                            };
                            assert(self.entries@[k] == old_rows[ko]);
                            assert(ko != oi);
                            assert(old_rows[ko].gmail_id@ != old_rows[oi].gmail_id@);
                        }
                    };
                    assert forall|k: int|
                        0 <= k < self.entries@.len() implies 1 <= #[trigger] self.entries@[k].id
                        < self.next_id by {
                        if k < nn - 1 {
                            let ko = if k < oi {
                                k
                            } else {
                                k + 1
                            };
                            assert(self.entries@[k] == old_rows[ko]);
                        } else {
                            assert(self.entries@[k].id == old_rows[oi].id);
                        }
                    };
                    assert(email_map_of(old_rows)[g].id == stable_id);
                    assert(self.as_map() == msg_upsert(
                        old(self).as_map(),
                        row,
                        old(self).fresh_id(),
                    ));
                    assert(exists|j: int|
                        0 <= j < old(self).rows().len() && old(self).rows()[j].gmail_id@
                            == row.gmail_id@ && self.rows() == old(self).rows().remove(j).push(
                            merged_row(old(self).rows()[j], row),
                        ));
                }
                return Ok(stable_id);
            }
            i = i + 1;
        }
        proof {
            lemma_email_map_absent(old_rows, row.gmail_id@);
        }
        if self.next_id >= 0x7fff_ffff {
            return Err(CoreError::StorageError("message id space exhausted".to_owned()));
        }
        let id = self.next_id;
        self.next_id = self.next_id + 1;
        let fresh = EmailRow { id, ..row };
        self.entries.push(fresh);
        proof {
            assert(self.entries@.drop_last() =~= old_rows);
        }
        Ok(id)
    }

    /// Point lookup by row id, scoped to the owning identity.
    pub fn get_email(&self, id: i64, user_email: &str) -> (r: Option<EmailRow>)
        requires
            self.wf(),
        ensures
            r matches Some(d) ==> exists|i: int|
                0 <= i < self.rows().len() && self.rows()[i].id == id && view_opt(
                    self.rows()[i].user_email,
                ) == Some(user_email@) && row_equiv(d, self.rows()[i]),
            r is None ==> forall|i: int|
                0 <= i < self.rows().len() ==> !(self.rows()[i].id == id && view_opt(
                    self.rows()[i].user_email,
                ) == Some(user_email@)),
    {
        let n = self.entries.len();
        let mut i: usize = 0;
        while i < n
            invariant
                n == self.rows().len(),
                i <= n,
                forall|j: int|
                    0 <= j < i ==> !(self.rows()[j].id == id && view_opt(
                        self.rows()[j].user_email,
                    ) == Some(user_email@)),
            decreases n - i,
        {
            if self.entries[i].id == id {
                let owned = match &self.entries[i].user_email {
                    Some(u) => crate::strutil::str_eq(u.as_str(), user_email),
                    None => false,
                };
                if owned {
                    return Some(self.entries[i].duplicate());
                }
            }
            i = i + 1;
        }
        None
    }
}

/// The stored messages of `owner`, most recently fetched first (rows stand
/// in fetch order, so later rows come out earlier).
pub open spec fn owned_emails_desc(rows: Seq<EmailRow>, owner: Seq<char>) -> Seq<EmailRow>
    decreases rows.len(),
{
    if rows.len() == 0 {
        Seq::empty()
    } else {
        let rest = owned_emails_desc(rows.drop_last(), owner);
        if view_opt(rows.last().user_email) == Some(owner) {
            seq![rows.last()] + rest
        } else {
            rest
        }
    }
}

impl MessageStore {
    /// The messages of `user_email`, most recently fetched first, capped at
    /// `limit` rows.
    pub fn list_emails(&self, user_email: &str, limit: usize) -> (r: Vec<EmailRow>)
        requires
            self.wf(),
        ensures
            ({
                let full = owned_emails_desc(self.rows(), user_email@);
                &&& r@.len() == (if full.len() <= limit {
                    full.len() as int
                } else {
                    limit as int
                })
                &&& forall|k: int| 0 <= k < r@.len() ==> row_equiv(r@[k], full[k])
            }),
    {
        let mut out: Vec<EmailRow> = Vec::new();
        let n = self.entries.len();
        let mut i: usize = 0;
        proof {
            assert(self.rows().subrange(0, 0) =~= Seq::<EmailRow>::empty());
        }
        while i < n
            invariant
                self.wf(),
                n == self.rows().len(),
                i <= n,
                out@.len() == owned_emails_desc(self.rows().subrange(0, i as int), user_email@).len(),
                forall|k: int|
                    0 <= k < out@.len() ==> row_equiv(
                        out@[k],
                        owned_emails_desc(self.rows().subrange(0, i as int), user_email@)[k],
                    ),
            decreases n - i,
        {
            proof {
                assert(self.rows().subrange(0, i + 1).drop_last() =~= self.rows().subrange(
                    0,
                    i as int,
                ));
                assert(self.rows().subrange(0, i + 1).last() == self.rows()[i as int]);
            }
            let owned = match &self.entries[i].user_email {
                Some(u) => crate::strutil::str_eq(u.as_str(), user_email),
                None => false,
            };
            if owned {
                let row = self.entries[i].duplicate();
                out.insert(0, row);
            }
            i = i + 1;
        }
        proof {
            assert(self.rows().subrange(0, n as int) =~= self.rows());
        }
        out.truncate(limit);
        out
    }
}

/// Law: a persist that carries no token never erases a stored credential —
/// after `PersistCredential(I, R)` then `PersistCredential(I, None)`, the
/// stored value is still `R`.
pub proof fn lemma_persist_none_keeps_credential(
    m: Map<Seq<char>, Seq<char>>,
    email: Seq<char>,
    token: Seq<char>,
)
    ensures
        persist_spec(persist_spec(m, email, Some(token)), email, None)[email] == token,
        persist_spec(persist_spec(m, email, Some(token)), email, None).contains_key(email),
{
}

} // verus!
