//! The outcomes of a request.

use vstd::prelude::*;
use crate::text::{opt_text, same_text, texts};

verus! {

/// The HTTP status of an answer.
#[derive(Debug, Clone, Copy, PartialEq, Eq, Structural)]
pub enum Status {
    Success,
    Created,
    NoContent,
    TemporaryRedirect,
    BadRequest,
    Unauthorized,
    PaymentRequired,
    Forbidden,
    NotFound,
    Conflict,
    UnprocessableEntity,
    InternalServerError,
    NotImplemented,
    BadGateway,
    ServiceUnavailable,
}

/// The number of a status.
pub open spec fn code(s: Status) -> int {
    match s {
        Status::Success => 200,
        Status::Created => 201,
        Status::NoContent => 204,
        Status::TemporaryRedirect => 307,
        Status::BadRequest => 400,
        Status::Unauthorized => 401,
        Status::PaymentRequired => 402,
        Status::Forbidden => 403,
        Status::NotFound => 404,
        Status::Conflict => 409,
        Status::UnprocessableEntity => 422,
        Status::InternalServerError => 500,
        Status::NotImplemented => 501,
        Status::BadGateway => 502,
        Status::ServiceUnavailable => 503,
    }
}

impl Status {
    /// The number of the status.
    pub fn code(&self) -> (r: u16)
        ensures
            r == code(*self),
    {
        match self {
            Status::Success => 200,
            Status::Created => 201,
            Status::NoContent => 204,
            Status::TemporaryRedirect => 307,
            Status::BadRequest => 400,
            Status::Unauthorized => 401,
            Status::PaymentRequired => 402,
            Status::Forbidden => 403,
            Status::NotFound => 404,
            Status::Conflict => 409,
            Status::UnprocessableEntity => 422,
            Status::InternalServerError => 500,
            Status::NotImplemented => 501,
            Status::BadGateway => 502,
            Status::ServiceUnavailable => 503,
        }
    }
}

/// What a lookup found; what it did not find is answered with 404.
pub fn found<T>(row: Option<T>) -> (r: Result<T, Status>)
    ensures
        match row {
            Some(t) => r matches Ok(u) && u == t,
            None => r matches Err(e) && e == Status::NotFound,
        },
{
    match row {
        Some(t) => Ok(t),
        None => Err(Status::NotFound),
    }
}

/// A text that has to be given; an empty one is a bad request.
pub fn given(s: &str) -> (r: Result<(), Status>)
    ensures
        match r {
            Ok(_) => s@.len() > 0,
            Err(e) => s@.len() == 0 && e == Status::BadRequest,
        },
{
    if s.is_empty() {
        Err(Status::BadRequest)
    } else {
        Ok(())
    }
}

/// The status that a list is to be filtered by: `all` stands for no filter, and a status that does
/// not exist is a bad request.
pub open spec fn filter_of(status: Seq<char>, statuses: Seq<Seq<char>>) -> Result<
    Option<Seq<char>>,
    Status,
> {
    if status == "all"@ {
        Ok(None)
    } else if statuses.contains(status) {
        Ok(Some(status))
    } else {
        Err(Status::BadRequest)
    }
}

pub open spec fn filter_view(r: Result<Option<String>, Status>) -> Result<Option<Seq<char>>, Status> {
    match r {
        Ok(f) => Ok(opt_text(f)),
        Err(e) => Err(e),
    }
}

pub fn status_filter(status: &str, statuses: &Vec<String>) -> (r: Result<Option<String>, Status>)
    ensures
        filter_view(r) == filter_of(status@, texts(statuses@)),
{
    if same_text(status, "all") {
        return Ok(None);
    }
    let ghost all = texts(statuses@);
    let mut i: usize = 0;
    while i < statuses.len()
        invariant
            i <= statuses@.len(),
            all == texts(statuses@),
            status@ != "all"@,
            forall|j: int| 0 <= j < i ==> all[j] != status@,
        decreases statuses@.len() - i,
    {
        if same_text(statuses[i].as_str(), status) {
            proof {
                assert(all[i as int] == status@);
                assert(all.contains(status@));
            }
            return Ok(Some(status.to_owned()));
        }
        i += 1;
    }
    Err(Status::BadRequest)
}

/// Each status has the code that HTTP gives it, and no two have the same.
pub proof fn law_statuses_have_their_codes(s: Status, t: Status)
    ensures
        code(s) == code(t) ==> s == t,
        code(Status::Success) == 200 && code(Status::Created) == 201 && code(Status::NoContent) == 204,
        code(Status::TemporaryRedirect) == 307,
        code(Status::BadRequest) == 400 && code(Status::Unauthorized) == 401 && code(
            Status::PaymentRequired,
        ) == 402 && code(Status::Forbidden) == 403 && code(Status::NotFound) == 404,
        code(Status::Conflict) == 409 && code(Status::UnprocessableEntity) == 422,
        code(Status::InternalServerError) == 500 && code(Status::NotImplemented) == 501 && code(
            Status::BadGateway,
        ) == 502 && code(Status::ServiceUnavailable) == 503,
{
}

/// A list is asked for by one of its statuses, or by `all` for the whole of it; any other word is a
/// bad request.
pub proof fn law_filters_are_statuses_or_all(status: Seq<char>, statuses: Seq<Seq<char>>, i: int)
    ensures
        filter_of("all"@, statuses) == Ok::<Option<Seq<char>>, Status>(None),
        0 <= i < statuses.len() && statuses[i] != "all"@ ==> filter_of(statuses[i], statuses) == Ok::<
            Option<Seq<char>>,
            Status,
        >(Some(statuses[i])),
        status != "all"@ && (forall|j: int| 0 <= j < statuses.len() ==> #[trigger] statuses[j] != status)
            ==> filter_of(status, statuses) == Err::<Option<Seq<char>>, Status>(Status::BadRequest),
{
    if 0 <= i < statuses.len() {
        assert(statuses.contains(statuses[i]));
    }
}

} // verus!
