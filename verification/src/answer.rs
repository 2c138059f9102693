//! What Mattermost's answers mean.
use vstd::prelude::*;
use crate::error::WireError;
use crate::utf8::{fit, fitting};

verus! {

/// How much of an error's body is kept, in bytes.
pub const ERROR_BODY_LIMIT: usize = 2_000;

/// What an answer is.
#[derive(Clone, Copy, Debug, PartialEq, Eq, Structural)]
pub enum Reception {
    /// It brings what was asked for.
    Accepted,
    /// There is no such thing.
    Absent,
    /// It is an error.
    Rejected,
}

/// What an answer is, by its status.
pub open spec fn received(status: u16, optional: bool) -> Reception {
    if optional && status == 404 {
        Reception::Absent
    } else if 200 <= status <= 299 {
        Reception::Accepted
    } else {
        Reception::Rejected
    }
}

/// What an answer is, by its status. Only where a thing may be absent does a missing one differ from
/// an error.
pub fn reception(status: u16, optional: bool) -> (r: Reception)
    ensures
        r == received(status, optional),
{
    if optional && status == 404 {
        Reception::Absent
    } else if 200 <= status && status <= 299 {
        Reception::Accepted
    } else {
        Reception::Rejected
    }
}

/// An error that Mattermost answered; of its body no more than the limit is kept.
pub fn rejection(status: u16, label: String, body: &str) -> (r: WireError)
    ensures
        r is Response,
        r->status == status,
        r->label == label,
        r->body@ == fitting(body@, ERROR_BODY_LIMIT as nat),
{
    WireError::Response { status, label, body: fit(body, ERROR_BODY_LIMIT) }
}

/// Answers of success are accepted whatever was asked; a missing thing is absent where it may be and
/// an error where it may not; every other answer is an error.
pub proof fn law_answers(status: u16, optional: bool)
    ensures
        200 <= status <= 299 ==> received(status, optional) == Reception::Accepted,
        received(404, true) == Reception::Absent,
        received(404, false) == Reception::Rejected,
        status != 404 && !(200 <= status <= 299) ==> received(status, optional)
            == Reception::Rejected,
        received(status, optional) == Reception::Absent ==> optional && status == 404,
{
}

} // verus!
