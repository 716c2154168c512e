//! The wire-level request and response entities, and the exact texts of
//! the error responses.

use vstd::prelude::*;

use crate::numfmt::dec_digits;
use crate::numfmt::u64_to_string;
use crate::schedule::AlertSchedule;

verus! {

/// One decoded client request, discriminated on the wire by a `type` field.
pub enum Request {
    Add { title: String, message: String, interval: u64 },
    List,
    Update { id: u64, title: String, message: String, interval: u64 },
    Remove { id: u64 },
    Stop { id: u64 },
    Start { id: u64 },
}

/// One response: a success payload per operation, or an error text. On the
/// wire it is carried under `{"status":"Ok","data":...}` or
/// `{"status":"Err","data":...}`.
pub enum Response {
    Listed { schedules: Vec<AlertSchedule> },
    Created { schedule: AlertSchedule },
    Updated { schedule: AlertSchedule },
    Stopped { schedule: AlertSchedule },
    Started { schedule: AlertSchedule },
    Removed { id: u64 },
    Error { message: String },
}

/// The text of the response to an unknown alert id.
pub open spec fn spec_not_found_message(id: u64) -> Seq<char> {
    "Alert ID "@ + dec_digits(id as nat) + " not found"@
}

/// Builds the unknown-id error text.
pub fn not_found_message(id: u64) -> (r: String)
    ensures
        r@ == spec_not_found_message(id),
{
    let mut r = "Alert ID ".to_owned();
    let digits = u64_to_string(id);
    r.append(digits.as_str());
    r.append(" not found");
    proof {
        assert(r@ =~= spec_not_found_message(id));
    }
    r
}

/// The text of the response when persisting the collection failed; the
/// change is already applied in memory, so the caller is warned rather
/// than rolled back.
pub open spec fn spec_save_error_message(detail: Seq<char>) -> Seq<char> {
    "save error: "@ + detail
}

/// Builds the failed-save error response around the I/O error's text.
pub fn save_error_response(detail: &str) -> (r: Response)
    ensures
        r matches Response::Error { message } && message@ == spec_save_error_message(detail@),
{
    let mut m = "save error: ".to_owned();
    m.append(detail);
    Response::Error { message: m }
}

/// The text of the response to a line that does not decode as a request.
pub open spec fn spec_decode_error_message(detail: Seq<char>) -> Seq<char> {
    "bad request JSON: "@ + detail
}

/// Builds the undecodable-line error response around the decoder's text.
pub fn decode_error_response(detail: &str) -> (r: Response)
    ensures
        r matches Response::Error { message } && message@ == spec_decode_error_message(detail@),
{
    let mut m = "bad request JSON: ".to_owned();
    m.append(detail);
    Response::Error { message: m }
}

} // verus!
