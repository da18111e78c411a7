//! The record model: a persisted KYC entry, the input that creates one, and
//! the mathematical image of both used by every contract.

use vstd::prelude::*;

use crate::email::valid_email;

verus! {

/// A persisted KYC record.
///
/// `id` is assigned by storage, unique, and never changed afterwards.
/// `identity_hash` is an opaque caller-supplied fingerprint, never
/// interpreted. Timestamps are seconds since the Unix epoch: `created_at` is
/// set once at insertion, and `updated_at` is refreshed by every status
/// update (a deliberate choice; storage layers that leave it to a column
/// default behave the same on insertion).
#[derive(Debug)]
pub struct KYCEntry {
    pub id: i32,
    pub user_email: String,
    pub identity_hash: String,
    pub status: String,
    pub created_at: i64,
    pub updated_at: i64,
}

/// The mathematical image of one record.
#[verifier::ext_equal]
pub ghost struct EntryModel {
    pub id: int,
    pub user_email: Seq<char>,
    pub identity_hash: Seq<char>,
    pub status: Seq<char>,
    pub created_at: int,
    pub updated_at: int,
}

impl View for KYCEntry {
    type V = EntryModel;

    open spec fn view(&self) -> EntryModel {
        EntryModel {
            id: self.id as int,
            user_email: self.user_email@,
            identity_hash: self.identity_hash@,
            status: self.status@,
            created_at: self.created_at as int,
            updated_at: self.updated_at as int,
        }
    }
}

impl KYCEntry {
    /// A field-by-field copy of the record.
    pub fn duplicate(&self) -> (r: Self)
        ensures
            r == *self,
    {
        KYCEntry {
            id: self.id,
            user_email: self.user_email.clone(),
            identity_hash: self.identity_hash.clone(),
            status: self.status.clone(),
            created_at: self.created_at,
            updated_at: self.updated_at,
        }
    }
}

/// The input that creates a record: storage assigns `id` and the timestamps.
#[derive(Debug)]
pub struct NewKYCEntry {
    pub user_email: String,
    pub identity_hash: String,
    pub status: String,
}

/// The input is acceptable: a well-formed e-mail address and non-empty
/// identity hash and status.
pub open spec fn valid_new_entry(n: NewKYCEntry) -> bool {
    valid_email(n.user_email@) && n.identity_hash@.len() > 0 && n.status@.len() > 0
}

/// A stored record is well formed: a valid e-mail, non-empty identity hash
/// and status, and a positive identifier.
pub open spec fn valid_entry(e: EntryModel) -> bool {
    valid_email(e.user_email) && e.identity_hash.len() > 0 && e.status.len() > 0 && 1 <= e.id
}

/// Some record in `s` carries the e-mail `email`.
pub open spec fn has_email(s: Seq<EntryModel>, email: Seq<char>) -> bool {
    exists|i: int| 0 <= i < s.len() && (#[trigger] s[i]).user_email == email
}

/// Some record in `s` carries the identifier `id`.
pub open spec fn has_id(s: Seq<EntryModel>, id: int) -> bool {
    exists|i: int| 0 <= i < s.len() && (#[trigger] s[i]).id == id
}

/// No two records in `s` share an e-mail.
pub open spec fn emails_unique(s: Seq<EntryModel>) -> bool {
    forall|i: int, j: int|
        0 <= i < j < s.len() ==> (#[trigger] s[i]).user_email != (#[trigger] s[j]).user_email
}

/// No two records in `s` share an identifier.
pub open spec fn ids_unique(s: Seq<EntryModel>) -> bool {
    forall|i: int, j: int| 0 <= i < j < s.len() ==> (#[trigger] s[i]).id != (#[trigger] s[j]).id
}

/// The image of a record after a status update: the status becomes `status`,
/// `updated_at` becomes `now`, and every other field is kept.
pub open spec fn updated_model(e: EntryModel, status: Seq<char>, now: int) -> EntryModel {
    EntryModel { status: status, updated_at: now, ..e }
}

} // verus!
