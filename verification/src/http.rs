//! The routing layer's decisions: which HTTP status code and which kind of
//! response body each operation outcome is rendered with. Serializing the
//! body to JSON and writing it to the wire happen outside the library.

use vstd::prelude::*;

use crate::errors::{error_message_of, http_status_of, KycError};
use crate::model::KYCEntry;

verus! {

/// What a response body carries once serialized.
pub enum ResponseBody {
    /// The record, as a JSON object.
    Entry(KYCEntry),
    /// `{"error": <message>}`.
    Error(String),
    /// `{"message": <message>}`.
    Message(String),
}

/// A rendered response: the status code and what the body carries.
pub struct HttpResponse {
    pub status: u16,
    pub body: ResponseBody,
}

/// The confirmation message of a successful delete.
pub open spec fn delete_confirmation() -> Seq<char> {
    "KYC entry deleted"@
}

/// Renders a create outcome: 201 with the created record, or the error's
/// status with its sanitized message.
pub fn respond_create(r: Result<KYCEntry, KycError>) -> (out: HttpResponse)
    ensures
        r matches Ok(e) ==> (out.body matches ResponseBody::Entry(b) && out.status == 201 && b
            == e),
        r matches Err(err) ==> (out.body matches ResponseBody::Error(m) && out.status
            == http_status_of(err) && m@ == error_message_of(err)),
{
    match r {
        Ok(e) => HttpResponse { status: 201, body: ResponseBody::Entry(e) },
        Err(err) => HttpResponse {
            status: err.http_status(),
            body: ResponseBody::Error(err.message()),
        },
    }
}

/// Renders a lookup outcome: 200 with the record, 404 with the not-found
/// message when no record exists, or the error's status with its message.
pub fn respond_get(r: Result<Option<KYCEntry>, KycError>) -> (out: HttpResponse)
    ensures
        r matches Ok(Some(e)) ==> (out.body matches ResponseBody::Entry(b) && out.status == 200
            && b == e),
        r == Ok::<Option<KYCEntry>, KycError>(None) ==> (out.body matches ResponseBody::Error(m)
            && out.status == 404 && m@ == error_message_of(KycError::NotFound)),
        r matches Err(err) ==> (out.body matches ResponseBody::Error(m) && out.status
            == http_status_of(err) && m@ == error_message_of(err)),
{
    match r {
        Ok(Some(e)) => HttpResponse { status: 200, body: ResponseBody::Entry(e) },
        Ok(None) => HttpResponse {
            status: 404,
            body: ResponseBody::Error(KycError::NotFound.message()),
        },
        Err(err) => HttpResponse {
            status: err.http_status(),
            body: ResponseBody::Error(err.message()),
        },
    }
}

/// Renders an update outcome: 200 with the updated record, or the error's
/// status with its sanitized message.
pub fn respond_update(r: Result<KYCEntry, KycError>) -> (out: HttpResponse)
    ensures
        r matches Ok(e) ==> (out.body matches ResponseBody::Entry(b) && out.status == 200 && b
            == e),
        r matches Err(err) ==> (out.body matches ResponseBody::Error(m) && out.status
            == http_status_of(err) && m@ == error_message_of(err)),
{
    match r {
        Ok(e) => HttpResponse { status: 200, body: ResponseBody::Entry(e) },
        Err(err) => HttpResponse {
            status: err.http_status(),
            body: ResponseBody::Error(err.message()),
        },
    }
}

/// Renders a delete outcome: 200 with a confirmation message, or the
/// error's status with its sanitized message.
pub fn respond_delete(r: Result<(), KycError>) -> (out: HttpResponse)
    ensures
        r is Ok ==> (out.body matches ResponseBody::Message(m) && out.status == 200 && m@
            == delete_confirmation()),
        r matches Err(err) ==> (out.body matches ResponseBody::Error(m) && out.status
            == http_status_of(err) && m@ == error_message_of(err)),
{
    match r {
        Ok(_) => HttpResponse {
            status: 200,
            body: ResponseBody::Message(String::from_str("KYC entry deleted")),
        },
        Err(err) => HttpResponse {
            status: err.http_status(),
            body: ResponseBody::Error(err.message()),
        },
    }
}

} // verus!
