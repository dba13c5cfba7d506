use vstd::prelude::*;
use crate::records::Records;

verus! {

/// Largest request body, in bytes, that a mutating request may carry.
pub const MAX_BODY_BYTES: u64 = 1024 * 16;

/// Reply text of a successful create-or-replace.
pub const ADDED_TEXT: &'static str = "Added items to the student list";

/// Reply text of a successful delete.
pub const REMOVED_TEXT: &'static str = "Removed item from student list";

/// A record as a create-or-replace request carries it.
pub struct Item {
    pub name: String,
    pub branch: String,
}

/// The name that a delete request carries.
pub struct Id {
    pub name: String,
}

/// Outcome class of a reply.
#[derive(PartialEq, Eq, Structural, Clone, Copy, Debug)]
pub enum Status {
    Success,
    Created,
    BadRequest,
    LengthRequired,
    PayloadTooLarge,
}

impl Status {
    pub open spec fn spec_code(self) -> u16 {
        match self {
            Status::Success => 200,
            Status::Created => 201,
            Status::BadRequest => 400,
            Status::LengthRequired => 411,
            Status::PayloadTooLarge => 413,
        }
    }

    /// The HTTP status code of this outcome.
    pub fn code(&self) -> (r: u16)
        ensures
            r == self.spec_code(),
    {
        match self {
            Status::Success => 200,
            Status::Created => 201,
            Status::BadRequest => 400,
            Status::LengthRequired => 411,
            Status::PayloadTooLarge => 413,
        }
    }

    /// Whether the outcome blames the client's request.
    pub fn is_client_error(&self) -> (r: bool)
        ensures
            r == (400 <= self.spec_code() < 500),
    {
        let c = self.code();
        400 <= c && c < 500
    }
}

/// One operation on the store.
pub enum Request {
    /// Insert the record, or replace the branch of the record of that name.
    Upsert(Item),
    /// Remove the record of that name, if there is one.
    Remove(Id),
    /// Read every record.
    List,
}

/// Why a request body was refused before it reached the store.
#[derive(PartialEq, Eq, Structural, Clone, Copy, Debug)]
pub enum Rejection {
    /// The request does not declare the length of its body.
    NoLength,
    /// The body is longer than `MAX_BODY_BYTES`.
    TooLarge,
    /// The body is not a well-formed request.
    Malformed,
}

impl Rejection {
    pub open spec fn spec_status(self) -> Status {
        match self {
            Rejection::NoLength => Status::LengthRequired,
            Rejection::TooLarge => Status::PayloadTooLarge,
            Rejection::Malformed => Status::BadRequest,
        }
    }

    /// The status with which the request is refused.
    pub fn status(&self) -> (r: Status)
        ensures
            r == self.spec_status(),
    {
        match self {
            Rejection::NoLength => Status::LengthRequired,
            Rejection::TooLarge => Status::PayloadTooLarge,
            Rejection::Malformed => Status::BadRequest,
        }
    }
}

/// What a request gets back.
pub enum Reply {
    /// A status with a confirmation text.
    Message { status: Status, text: String },
    /// The full mapping, with status `Ok`.
    Listing(Records),
    /// The request was refused and the store left alone.
    Rejected(Rejection),
}

/// `r` is a message reply with that status and text.
pub open spec fn is_message(r: Reply, status: Status, text: Seq<char>) -> bool {
    r matches Reply::Message { status: s, text: t } && s == status && t@ == text
}

impl Reply {
    pub open spec fn spec_status(self) -> Status {
        match self {
            Reply::Message { status, .. } => status,
            Reply::Listing(_) => Status::Success,
            Reply::Rejected(why) => why.spec_status(),
        }
    }

    /// The status of this reply.
    pub fn status(&self) -> (r: Status)
        ensures
            r == self.spec_status(),
    {
        match self {
            Reply::Message { status, .. } => *status,
            Reply::Listing(_) => Status::Success,
            Reply::Rejected(why) => why.status(),
        }
    }
}

/// Carrying out `req` on the mapping `before` leaves `after` and replies `r`.
pub open spec fn applied(
    before: Map<Seq<char>, Seq<char>>,
    req: Request,
    after: Map<Seq<char>, Seq<char>>,
    r: Reply,
) -> bool {
    match req {
        Request::Upsert(item) => after == before.insert(item.name@, item.branch@)
            && is_message(r, Status::Created, ADDED_TEXT@),
        Request::Remove(id) => after == before.remove(id.name@)
            && is_message(r, Status::Success, REMOVED_TEXT@),
        Request::List => after == before && (r matches Reply::Listing(m) && m@ == before),
    }
}

/// `r` is the reply that `req` gets, whatever the mapping held.
pub open spec fn replied(req: Request, r: Reply) -> bool {
    match req {
        Request::Upsert(_) => is_message(r, Status::Created, ADDED_TEXT@),
        Request::Remove(_) => is_message(r, Status::Success, REMOVED_TEXT@),
        Request::List => r is Listing,
    }
}

/// What becomes of a mutating request that declares a body of
/// `content_length` bytes (`None` where it declares none) and whose body
/// decoded to `decoded` (`None` where it did not decode).
pub open spec fn spec_check_body(content_length: Option<u64>, decoded: Option<Request>) -> Result<
    Request,
    Rejection,
> {
    match content_length {
        None => Err(Rejection::NoLength),
        Some(n) => if n > MAX_BODY_BYTES {
            Err(Rejection::TooLarge)
        } else {
            match decoded {
                Some(req) => Ok(req),
                None => Err(Rejection::Malformed),
            }
        },
    }
}

/// Refuses a request without a declared length, a body over the size limit,
/// or one that did not decode.
pub fn check_body(content_length: Option<u64>, decoded: Option<Request>) -> (r: Result<
    Request,
    Rejection,
>)
    ensures
        r == spec_check_body(content_length, decoded),
{
    match content_length {
        None => Err(Rejection::NoLength),
        Some(n) => if n > MAX_BODY_BYTES {
            Err(Rejection::TooLarge)
        } else {
            match decoded {
                Some(req) => Ok(req),
                None => Err(Rejection::Malformed),
            }
        },
    }
}

impl Records {
    /// Carries out one request on the mapping.
    pub fn apply(&mut self, req: Request) -> (r: Reply)
        ensures
            applied(old(self)@, req, final(self)@, r),
    {
        match req {
            Request::Upsert(item) => {
                self.put(item.name, item.branch);
                Reply::Message { status: Status::Created, text: ADDED_TEXT.to_owned() }
            },
            Request::Remove(id) => {
                self.delete(&id.name);
                Reply::Message { status: Status::Success, text: REMOVED_TEXT.to_owned() }
            },
            Request::List => Reply::Listing(self.snapshot()),
        }
    }

    /// Carries out a mutating request that declares a body of `content_length`
    /// bytes and whose body decoded to `decoded`; a refused request leaves the
    /// mapping as it was.
    pub fn serve(&mut self, content_length: Option<u64>, decoded: Option<Request>) -> (r: Reply)
        ensures
            match spec_check_body(content_length, decoded) {
                Ok(req) => applied(old(self)@, req, final(self)@, r),
                Err(why) => final(self)@ == old(self)@ && r == Reply::Rejected(why),
            },
    {
        match check_body(content_length, decoded) {
            Ok(req) => self.apply(req),
            Err(why) => Reply::Rejected(why),
        }
    }
}

} // verus!
