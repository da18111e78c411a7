//! The KYC record table and its four operations.
//!
//! `KycStore` is the verified form of the record service: one table of
//! entries keyed by `id` and queried by `user_email`, with create, get by
//! e-mail, update status, and delete by e-mail. Every operation validates
//! its input before touching the table, so rejected input never changes it.
//!
//! The chosen duplicate policy is uniqueness: at most one record per
//! e-mail, enforced by the table invariant itself rather than by the
//! check-then-insert sequence alone, and a second create for a registered
//! e-mail fails with `Conflict`.

use vstd::prelude::*;

use crate::email::{is_valid_email, valid_email};
use crate::errors::KycError;
use crate::model::{
    emails_unique, has_email, has_id, ids_unique, updated_model, valid_entry, valid_new_entry,
    EntryModel, KYCEntry, NewKYCEntry,
};

verus! {

/// The record table: entries plus the counter that assigns identifiers.
pub struct KycStore {
    entries: Vec<KYCEntry>,
    next_id: i32,
}

/// The mathematical image of the table.
#[verifier::ext_equal]
pub ghost struct StoreModel {
    pub entries: Seq<EntryModel>,
    pub next_id: int,
}

impl View for KycStore {
    type V = StoreModel;

    closed spec fn view(&self) -> StoreModel {
        StoreModel {
            entries: self.entries@.map_values(|e: KYCEntry| e@),
            next_id: self.next_id as int,
        }
    }
}

impl KycStore {
    /// The table invariant: every record is well formed and older than the
    /// counter, no two records share an e-mail, and no two share an id.
    pub open spec fn wf(self) -> bool {
        &&& 1 <= self@.next_id <= i32::MAX
        &&& forall|k: int|
            0 <= k < self@.entries.len() ==> valid_entry(#[trigger] self@.entries[k])
        &&& forall|k: int|
            0 <= k < self@.entries.len() ==> (#[trigger] self@.entries[k]).id < self@.next_id
        &&& emails_unique(self@.entries)
        &&& ids_unique(self@.entries)
    }

    /// An empty table whose first record will get identifier 1.
    pub fn new() -> (s: Self)
        ensures
            s.wf(),
            s@.entries == Seq::<EntryModel>::empty(),
            s@.next_id == 1,
    {
        let s = KycStore { entries: Vec::new(), next_id: 1 };
        proof {
            assert(s@.entries =~= Seq::<EntryModel>::empty());
        }
        s
    }

    /// Index of the record carrying `email`, if one exists.
    fn find_by_email(&self, email: &String) -> (r: Option<usize>)
        ensures
            match r {
                Some(idx) => idx < self@.entries.len() && self@.entries[idx as int].user_email
                    == email@,
                None => !has_email(self@.entries, email@),
            },
    {
        let n = self.entries.len();
        let mut i: usize = 0;
        while i < n
            invariant
                i <= n,
                n == self.entries.len(),
                forall|k: int| 0 <= k < i ==> (#[trigger] self@.entries[k]).user_email != email@,
            decreases n - i,
        {
            if self.entries[i].user_email == *email {
                return Some(i);
            }
            i = i + 1;
        }
        None
    }

    /// Creates a record for `entry`, stamping both timestamps with `now`.
    ///
    /// A malformed e-mail or an empty field is rejected with `InvalidInput`,
    /// an already registered e-mail with `Conflict`; neither changes the
    /// table. Otherwise the record is appended with the fresh identifier
    /// `next_id` and a copy of it is returned. A table whose identifier
    /// counter is exhausted rejects a further create with `Internal` instead
    /// of reusing an identifier.
    pub fn create_kyc_entry(&mut self, entry: NewKYCEntry, now: i64) -> (r: Result<
        KYCEntry,
        KycError,
    >)
        requires
            old(self).wf(),
        ensures
            final(self).wf(),
            !valid_new_entry(entry) ==> r == Err::<KYCEntry, KycError>(KycError::InvalidInput)
                && final(self)@ == old(self)@,
            valid_new_entry(entry) && has_email(old(self)@.entries, entry.user_email@) ==> r
                == Err::<KYCEntry, KycError>(KycError::Conflict) && final(self)@ == old(self)@,
            valid_new_entry(entry) && !has_email(old(self)@.entries, entry.user_email@)
                && old(self)@.next_id == i32::MAX ==> r == Err::<KYCEntry, KycError>(
                KycError::Internal,
            ) && final(self)@ == old(self)@,
            valid_new_entry(entry) && !has_email(old(self)@.entries, entry.user_email@)
                && old(self)@.next_id < i32::MAX ==> (r matches Ok(e) && {
                &&& e@.id == old(self)@.next_id
                &&& !has_id(old(self)@.entries, e@.id)
                &&& e@.user_email == entry.user_email@
                &&& e@.identity_hash == entry.identity_hash@
                &&& e@.status == entry.status@
                &&& e@.created_at == now as int
                &&& e@.updated_at == now as int
                &&& final(self)@.entries == old(self)@.entries.push(e@)
                &&& final(self)@.next_id == old(self)@.next_id + 1
            }),
    {
        if !is_valid_email(entry.user_email.as_str()) {
            return Err(KycError::InvalidInput);
        }
        if entry.identity_hash.as_str().unicode_len() == 0 || entry.status.as_str().unicode_len()
            == 0 {
            return Err(KycError::InvalidInput);
        }
        match self.find_by_email(&entry.user_email) {
            Some(_) => Err(KycError::Conflict),
            None => {
                if self.next_id == i32::MAX {
                    return Err(KycError::Internal);
                }
                let ghost pre = self@.entries;
                let ghost pre_next = self@.next_id;
                let id = self.next_id;
                self.next_id = self.next_id + 1;
                let e = KYCEntry {
                    id,
                    user_email: entry.user_email,
                    identity_hash: entry.identity_hash,
                    status: entry.status,
                    created_at: now,
                    updated_at: now,
                };
                let out = e.duplicate();
                self.entries.push(e);
                proof {
                    assert(self@.entries =~= pre.push(out@));
                    assert(!has_id(pre, out@.id)) by {
                        assert forall|k: int| 0 <= k < pre.len() implies (#[trigger] pre[k]).id
                            != out@.id by {
                            assert(pre[k].id < pre_next);
                        }
                    }
                    assert(self.wf()) by {
                        assert forall|k: int| 0 <= k < self@.entries.len() implies valid_entry(
                            #[trigger] self@.entries[k],
                        ) && self@.entries[k].id < self@.next_id by {
                            if k < pre.len() {
                                assert(self@.entries[k] == pre[k]);
                            }
                        }
                        assert(emails_unique(self@.entries)) by {
                            assert forall|a: int, b: int|
                                0 <= a < b < self@.entries.len() implies (
                            #[trigger] self@.entries[a]).user_email != (
                            #[trigger] self@.entries[b]).user_email by {
                                if b < pre.len() {
                                    assert(pre[a].user_email != pre[b].user_email);
                                } else {
                                    assert(self@.entries[a] == pre[a]);
                                    assert(!has_email(pre, out@.user_email));
                                }
                            }
                        }
                        assert(ids_unique(self@.entries)) by {
                            assert forall|a: int, b: int|
                                0 <= a < b < self@.entries.len() implies (
                            #[trigger] self@.entries[a]).id != (#[trigger] self@.entries[b]).id by {
                                if b < pre.len() {
                                    assert(pre[a].id != pre[b].id);
                                } else {
                                    assert(self@.entries[a] == pre[a]);
                                    assert(pre[a].id < pre_next);
                                }
                            }
                        }
                    }
                }
                Ok(out)
            },
        }
    }

    /// Looks up the record carrying `email`.
    ///
    /// A malformed e-mail is rejected with `InvalidInput`. An e-mail with no
    /// record yields `Ok(None)`: absence is a success, not an error. A
    /// registered e-mail yields a copy of its one record.
    pub fn get_kyc_by_email(&self, email: String) -> (r: Result<Option<KYCEntry>, KycError>)
        requires
            self.wf(),
        ensures
            !valid_email(email@) ==> r == Err::<Option<KYCEntry>, KycError>(KycError::InvalidInput),
            valid_email(email@) && !has_email(self@.entries, email@) ==> r == Ok::<
                Option<KYCEntry>,
                KycError,
            >(None),
            valid_email(email@) && has_email(self@.entries, email@) ==> (r matches Ok(o) && o
                matches Some(e) && e@.user_email == email@ && self@.entries.contains(e@)),
    {
        if !is_valid_email(email.as_str()) {
            return Err(KycError::InvalidInput);
        }
        match self.find_by_email(&email) {
            Some(i) => {
                let found = self.entries[i].duplicate();
                proof {
                    assert(self@.entries[i as int] == found@);
                    assert(self@.entries.contains(found@));
                }
                Ok(Some(found))
            },
            None => Ok(None),
        }
    }

    /// Replaces the status of the record carrying `email` and stamps its
    /// `updated_at` with `now`.
    ///
    /// A malformed e-mail or an empty status is rejected with
    /// `InvalidInput`, an e-mail with no record with `NotFound`; neither
    /// changes the table. Otherwise every other field, the identifier among
    /// them, is kept, and a copy of the new record is returned.
    pub fn update_kyc_status(&mut self, email: String, new_status: String, now: i64) -> (r: Result<
        KYCEntry,
        KycError,
    >)
        requires
            old(self).wf(),
        ensures
            final(self).wf(),
            final(self)@.next_id == old(self)@.next_id,
            !valid_email(email@) || new_status@.len() == 0 ==> r == Err::<KYCEntry, KycError>(
                KycError::InvalidInput,
            ) && final(self)@ == old(self)@,
            valid_email(email@) && new_status@.len() > 0 && !has_email(old(self)@.entries, email@)
                ==> r == Err::<KYCEntry, KycError>(KycError::NotFound)
                && final(self)@ == old(self)@,
            valid_email(email@) && new_status@.len() > 0 && has_email(old(self)@.entries, email@)
                ==> (r matches Ok(e) && exists|i: int|
                {
                    &&& 0 <= i < old(self)@.entries.len()
                    &&& (#[trigger] old(self)@.entries[i]).user_email == email@
                    &&& e@ == updated_model(old(self)@.entries[i], new_status@, now as int)
                    &&& final(self)@.entries == old(self)@.entries.update(i, e@)
                }),
    {
        if !is_valid_email(email.as_str()) {
            return Err(KycError::InvalidInput);
        }
        if new_status.as_str().unicode_len() == 0 {
            return Err(KycError::InvalidInput);
        }
        match self.find_by_email(&email) {
            None => Err(KycError::NotFound),
            Some(i) => {
                let ghost pre = self@.entries;
                let current = self.entries[i].duplicate();
                let updated = KYCEntry {
                    id: current.id,
                    user_email: current.user_email,
                    identity_hash: current.identity_hash,
                    status: new_status,
                    created_at: current.created_at,
                    updated_at: now,
                };
                let out = updated.duplicate();
                self.entries[i] = updated;
                proof {
                    assert(self@.entries =~= pre.update(i as int, out@));
                    assert(out@ == updated_model(pre[i as int], new_status@, now as int));
                    assert(self.wf()) by {
                        assert forall|k: int| 0 <= k < self@.entries.len() implies valid_entry(
                            #[trigger] self@.entries[k],
                        ) && self@.entries[k].id < self@.next_id by {
                            if k != i {
                                assert(self@.entries[k] == pre[k]);
                            } else {
                                assert(valid_entry(pre[k]));
                            }
                        }
                        assert(emails_unique(self@.entries)) by {
                            assert forall|a: int, b: int|
                                0 <= a < b < self@.entries.len() implies (
                            #[trigger] self@.entries[a]).user_email != (
                            #[trigger] self@.entries[b]).user_email by {
                                assert(pre[a].user_email != pre[b].user_email);
                                assert(self@.entries[a].user_email == pre[a].user_email);
                                assert(self@.entries[b].user_email == pre[b].user_email);
                            }
                        }
                        assert(ids_unique(self@.entries)) by {
                            assert forall|a: int, b: int|
                                0 <= a < b < self@.entries.len() implies (
                            #[trigger] self@.entries[a]).id != (#[trigger] self@.entries[b]).id by {
                                assert(pre[a].id != pre[b].id);
                                assert(self@.entries[a].id == pre[a].id);
                                assert(self@.entries[b].id == pre[b].id);
                            }
                        }
                    }
                }
                Ok(out)
            },
        }
    }

    /// Removes the record carrying `email`.
    ///
    /// A malformed e-mail is rejected with `InvalidInput`, an e-mail with no
    /// record with `NotFound`; neither changes the table. On success the one
    /// record of that e-mail is gone, so a later lookup finds none.
    pub fn delete_kyc_by_email(&mut self, email: String) -> (r: Result<(), KycError>)
        requires
            old(self).wf(),
        ensures
            final(self).wf(),
            final(self)@.next_id == old(self)@.next_id,
            !valid_email(email@) ==> r == Err::<(), KycError>(KycError::InvalidInput)
                && final(self)@ == old(self)@,
            valid_email(email@) && !has_email(old(self)@.entries, email@) ==> r == Err::<
                (),
                KycError,
            >(KycError::NotFound) && final(self)@ == old(self)@,
            valid_email(email@) && has_email(old(self)@.entries, email@) ==> r == Ok::<
                (),
                KycError,
            >(()) && exists|i: int|
                {
                    &&& 0 <= i < old(self)@.entries.len()
                    &&& (#[trigger] old(self)@.entries[i]).user_email == email@
                    &&& final(self)@.entries == old(self)@.entries.remove(i)
                },
            r == Ok::<(), KycError>(()) ==> !has_email(final(self)@.entries, email@),
    {
        if !is_valid_email(email.as_str()) {
            return Err(KycError::InvalidInput);
        }
        match self.find_by_email(&email) {
            None => Err(KycError::NotFound),
            Some(i) => {
                let ghost pre = self@.entries;
                let _removed = self.entries.remove(i);
                proof {
                    assert(self@.entries =~= pre.remove(i as int));
                    lemma_removed_email_absent(pre, i as int, email@);
                    assert(self.wf()) by {
                        assert forall|k: int| 0 <= k < self@.entries.len() implies valid_entry(
                            #[trigger] self@.entries[k],
                        ) && self@.entries[k].id < self@.next_id by {
                            if k < i {
                                assert(self@.entries[k] == pre[k]);
                            } else {
                                assert(self@.entries[k] == pre[k + 1]);
                            }
                        }
                        assert(emails_unique(self@.entries)) by {
                            assert forall|a: int, b: int|
                                0 <= a < b < self@.entries.len() implies (
                            #[trigger] self@.entries[a]).user_email != (
                            #[trigger] self@.entries[b]).user_email by {
                                let a0: int = if a < i { a } else { a + 1 };
                                let b0: int = if b < i { b } else { b + 1 };
                                assert(self@.entries[a] == pre[a0]);
                                assert(self@.entries[b] == pre[b0]);
                                assert(pre[a0].user_email != pre[b0].user_email);
                            }
                        }
                        assert(ids_unique(self@.entries)) by {
                            assert forall|a: int, b: int|
                                0 <= a < b < self@.entries.len() implies (
                            #[trigger] self@.entries[a]).id != (#[trigger] self@.entries[b]).id by {
                                let a0: int = if a < i { a } else { a + 1 };
                                let b0: int = if b < i { b } else { b + 1 };
                                assert(self@.entries[a] == pre[a0]);
                                assert(self@.entries[b] == pre[b0]);
                                assert(pre[a0].id != pre[b0].id);
                            }
                        }
                    }
                }
                Ok(())
            },
        }
    }
}

/// A record just appended under a previously unregistered e-mail is the one
/// a lookup of that e-mail finds: any contained record carrying the e-mail
/// is the appended record itself.
pub proof fn lemma_read_after_write(pre: Seq<EntryModel>, e: EntryModel, found: EntryModel)
    requires
        !has_email(pre, e.user_email),
        found.user_email == e.user_email,
        pre.push(e).contains(found),
    ensures
        has_email(pre.push(e), e.user_email),
        found == e,
{
    assert(pre.push(e)[pre.len() as int] == e);
    let i = choose|i: int| 0 <= i < pre.push(e).len() && pre.push(e)[i] == found;
    if i < pre.len() {
        assert(pre[i] == found);
        assert(false);
    }
}

/// Removing the one record that carries `email` from a table with unique
/// e-mails leaves no record carrying `email`.
pub proof fn lemma_removed_email_absent(pre: Seq<EntryModel>, i: int, email: Seq<char>)
    requires
        0 <= i < pre.len(),
        pre[i].user_email == email,
        emails_unique(pre),
    ensures
        !has_email(pre.remove(i), email),
{
    let post = pre.remove(i);
    assert forall|k: int| 0 <= k < post.len() implies (#[trigger] post[k]).user_email
        != email by {
        let k0: int = if k < i { k } else { k + 1 };
        assert(post[k] == pre[k0]);
        if k0 < i {
            assert(pre[k0].user_email != pre[i].user_email);
        } else {
            assert(pre[i].user_email != pre[k0].user_email);
        }
    }
}

/// After a create has appended a record, its e-mail is registered, so the
/// create contract forces a second create with the same e-mail to fail with
/// `Conflict` and leave the table unchanged.
pub proof fn lemma_duplicate_create_conflicts(
    pre: Seq<EntryModel>,
    e: EntryModel,
    again: NewKYCEntry,
)
    requires
        again.user_email@ == e.user_email,
    ensures
        has_email(pre.push(e), again.user_email@),
{
    assert(pre.push(e)[pre.len() as int] == e);
}

} // verus!
