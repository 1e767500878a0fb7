//! Decision logic of the author-creation API.
//!
//! The surrounding service does its I/O — HTTP and the database — in
//! unverified code at the program's edge; every decision that logic takes
//! (request validation, classifying a database failure, assembling the
//! response) is a verified function here, from plain values to plain values.

use vstd::prelude::*;

use vstd::string::{StrSliceExecFns, StringExecFns};

verus! {

/// Error data carried in an API error response body.
#[derive(Clone, Debug, PartialEq, Eq)]
pub struct ApiErrorData {
    pub message: String,
}

/// The body of an author-creation request.
#[derive(Clone, Debug, PartialEq, Eq)]
pub struct CreateAuthorRequestBody {
    name: String,
}

impl View for CreateAuthorRequestBody {
    type V = Seq<char>;

    closed spec fn view(&self) -> Seq<char> {
        self.name@
    }
}

impl CreateAuthorRequestBody {
    /// Wraps a raw author name.
    pub fn new(name: String) -> (r: Self)
        ensures
            r@ == name@,
    {
        CreateAuthorRequestBody { name }
    }

    /// The requested author name.
    pub fn name(&self) -> (r: &String)
        ensures
            r@ == self@,
    {
        &self.name
    }
}

/// How handling an author-creation request failed.
#[derive(Clone, Debug, PartialEq, Eq)]
pub enum ApiError {
    /// An unexpected failure, carrying a diagnostic message.
    InternalServerError(String),
    /// A request the service refuses to process, carrying the reason.
    UnprocessableEntity(String),
}

/// The mathematical value of an [`ApiError`].
pub ghost enum ApiErrorModel {
    InternalServerError(Seq<char>),
    UnprocessableEntity(Seq<char>),
}

impl View for ApiError {
    type V = ApiErrorModel;

    open spec fn view(&self) -> ApiErrorModel {
        match self {
            ApiError::InternalServerError(m) => ApiErrorModel::InternalServerError(m@),
            ApiError::UnprocessableEntity(m) => ApiErrorModel::UnprocessableEntity(m@),
        }
    }
}

/// Response data of a successful author creation.
#[derive(Clone, Debug, PartialEq, Eq)]
pub struct CreateAuthorResponseData {
    id: String,
}

impl View for CreateAuthorResponseData {
    type V = Seq<char>;

    closed spec fn view(&self) -> Seq<char> {
        self.id@
    }
}

impl CreateAuthorResponseData {
    /// Wraps the identifier the new author was stored under.
    pub fn new(id: String) -> (r: Self)
        ensures
            r@ == id@,
    {
        CreateAuthorResponseData { id }
    }

    /// The identifier the new author was stored under.
    pub fn id(&self) -> (r: &String)
        ensures
            r@ == self@,
    {
        &self.id
    }
}

/// Character-wise string equality.
fn str_equal(a: &str, b: &str) -> (r: bool)
    ensures
        r == (a@ == b@),
{
    let na = a.unicode_len();
    let nb = b.unicode_len();
    if na != nb {
        return false;
    }
    let mut i: usize = 0;
    while i < na
        invariant
            na == a@.len(),
            nb == b@.len(),
            na == nb,
            i <= na,
            forall|k: int| 0 <= k < i ==> a@[k] == b@[k],
        decreases na - i,
    {
        if a.get_char(i) != b.get_char(i) {
            return false;
        }
        i = i + 1;
    }
    proof {
        assert(a@ =~= b@);
    }
    true
}

/// The database error code that signals a unique-constraint violation.
pub open spec fn unique_violation_code() -> Seq<char> {
    "2067"@
}

/// Decides whether the code a database error carried (if any) names a
/// unique-constraint violation.
pub fn is_unique_constraint_violation(code: Option<&str>) -> (r: bool)
    ensures
        r == (match code {
            Some(c) => c@ == unique_violation_code(),
            None => false,
        }),
{
    match code {
        Some(c) => str_equal(c, "2067"),
        None => false,
    }
}

/// Accepts or rejects a request body: an empty author name is refused as
/// unprocessable, with the exact message the API promises; any non-empty
/// name is accepted.
pub fn validate_author_name(body: &CreateAuthorRequestBody) -> (r: Result<(), ApiError>)
    ensures
        (match r {
            Ok(_) => body@.len() > 0,
            Err(e) => body@.len() == 0 && e@ == ApiErrorModel::UnprocessableEntity(
                "author name cannot be empty"@,
            ),
        }),
{
    if body.name().as_str().is_empty() {
        Err(ApiError::UnprocessableEntity("author name cannot be empty".to_owned()))
    } else {
        Ok(())
    }
}

/// What persisting a new author came to, as plain data: the identifier it
/// was stored under, a duplicate-name conflict, or another failure with its
/// message.
#[derive(Clone, Debug, PartialEq, Eq)]
pub enum AuthorSaveOutcome {
    Saved(String),
    DuplicateName,
    Failed(String),
}

/// Turns the outcome of a save into the API response: a stored identifier
/// becomes the response data; a duplicate name is refused as unprocessable
/// with the exact message naming the author; any other failure becomes an
/// internal error carrying its message.
pub fn create_author_response(body: &CreateAuthorRequestBody, outcome: AuthorSaveOutcome) -> (r:
    Result<CreateAuthorResponseData, ApiError>)
    ensures
        (match outcome {
            AuthorSaveOutcome::Saved(id) => (match r {
                Ok(d) => d@ == id@,
                Err(_) => false,
            }),
            AuthorSaveOutcome::DuplicateName => (match r {
                Ok(_) => false,
                Err(e) => e@ == ApiErrorModel::UnprocessableEntity(
                    "author with name "@ + body@ + " already exists"@,
                ),
            }),
            AuthorSaveOutcome::Failed(msg) => (match r {
                Ok(_) => false,
                Err(e) => e@ == ApiErrorModel::InternalServerError(msg@),
            }),
        }),
{
    match outcome {
        AuthorSaveOutcome::Saved(id) => Ok(CreateAuthorResponseData::new(id)),
        AuthorSaveOutcome::DuplicateName => {
            let mut message = "author with name ".to_owned();
            message.append(body.name().as_str());
            message.append(" already exists");
            Err(ApiError::UnprocessableEntity(message))
        },
        AuthorSaveOutcome::Failed(msg) => Err(ApiError::InternalServerError(msg)),
    }
}

} // verus!
