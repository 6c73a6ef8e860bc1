//! What can go wrong when talking to the store.

use crate::text::Text;
use vstd::prelude::*;

verus! {

/// `redis::RedisError`, a failure reported by the transport or the server.
/// Opaque: it is carried through unchanged.
#[verifier::external_type_specification]
#[verifier::external_body]
pub struct ExRedisError(redis::RedisError);

/// The ways an operation of this library fails.
#[derive(Debug)]
pub enum FCallError {
    /// The caller gave a combination of arguments that the named server-side
    /// function does not take.
    WrongArgs { function: &'static str, problem: &'static str },
    /// The store could not be reached or refused the request.
    Redis(redis::RedisError),
    /// The store answered in a way this library's protocol rules out.
    Logic(&'static str),
}

/// What an operation of this library returns.
pub type FCallResult<T> = Result<T, FCallError>;

/// An error with its texts as plain sequences of characters.
pub enum ErrorView {
    WrongArgs { function: Text, problem: Text },
    Redis(redis::RedisError),
    Logic(Text),
}

impl View for FCallError {
    type V = ErrorView;

    open spec fn view(&self) -> ErrorView {
        match *self {
            FCallError::WrongArgs { function, problem } => ErrorView::WrongArgs {
                function: function@,
                problem: problem@,
            },
            FCallError::Redis(e) => ErrorView::Redis(e),
            FCallError::Logic(reason) => ErrorView::Logic(reason@),
        }
    }
}

impl From<redis::RedisError> for FCallError {
    fn from(e: redis::RedisError) -> (error: FCallError) {
        FCallError::Redis(e)
    }
}

impl vstd::std_specs::convert::FromSpecImpl<redis::RedisError> for FCallError {
    open spec fn obeys_from_spec() -> bool {
        true
    }

    open spec fn from_spec(e: redis::RedisError) -> FCallError {
        FCallError::Redis(e)
    }
}

/// How the wording of wrong arguments begins; the function's name follows.
pub const WRONG_ARGS_INTRO: &'static str = "function call to ";

/// What stands between the function's name and the problem.
pub const WRONG_ARGS_LINK: &'static str = " had the wrong arguments: ";

/// How the wording of a failure of the store begins.
pub const REDIS_INTRO: &'static str = "function call failed on redis: ";

/// How the wording of a logic error begins.
pub const LOGIC_INTRO: &'static str = "there is a logical error in the code: ";

/// `ToString::to_string` on a `redis::RedisError`: the error as the redis
/// crate words it. Nothing is claimed of the wording.
#[verifier::external_body]
fn redis_error_text(e: &redis::RedisError) -> String {
    e.to_string()
}

impl FCallError {
    /// Whether `text` is this error put into words.
    pub open spec fn is_worded(self, text: Text) -> bool {
        match self@ {
            ErrorView::WrongArgs { function, problem } => text == WRONG_ARGS_INTRO@ + function
                + WRONG_ARGS_LINK@ + problem,
            ErrorView::Redis(_) => text.len() >= REDIS_INTRO@.len() && text.subrange(
                0,
                REDIS_INTRO@.len() as int,
            ) == REDIS_INTRO@,
            ErrorView::Logic(reason) => text == LOGIC_INTRO@ + reason,
        }
    }

    /// The error in words, for a person to read.
    pub fn message(&self) -> (text: String)
        ensures
            self.is_worded(text@),
    {
        match self {
            FCallError::WrongArgs { function, problem } => {
                let mut text = String::from_str(WRONG_ARGS_INTRO);
                text.append(function);
                text.append(WRONG_ARGS_LINK);
                text.append(problem);
                text
            },
            FCallError::Redis(e) => {
                let mut text = String::from_str(REDIS_INTRO);
                let detail = redis_error_text(e);
                text.append(detail.as_str());
                assert(text@.subrange(0, REDIS_INTRO@.len() as int) =~= REDIS_INTRO@);
                text
            },
            FCallError::Logic(reason) => {
                let mut text = String::from_str(LOGIC_INTRO);
                text.append(reason);
                text
            },
        }
    }
}

} // verus!
