//! Questions to the store and its answers, as plain values.
//!
//! Reading from the store takes several round trips, and the library makes
//! none of them itself. A read is a state machine ([`Reading`]): it hands out
//! one [`Query`], takes the store's [`Answer`] to it, and either asks the next
//! query or is done. Whoever holds the connection runs the loop.

use crate::command::cmd_args;
use crate::error::{ErrorView, FCallError, FCallResult};
use crate::merge::{Entries, dedup, distinct, extend, extend_entries};
use crate::text::{Text, Texts};
use vstd::prelude::*;

verus! {

/// One question to the store.
pub enum Query {
    /// The text stored at a key.
    Get(String),
    /// The members of the set stored at a key.
    Members(String),
    /// The fields and values of the hash stored at a key.
    Fields(String),
    /// A command of its own, answered with a list of texts.
    Call(redis::Cmd),
}

/// A query as plain mathematical data: a key, or the arguments of a command.
pub enum QueryView {
    Get(Text),
    Members(Text),
    Fields(Text),
    Call(Seq<Seq<u8>>),
}

impl View for Query {
    type V = QueryView;

    open spec fn view(&self) -> QueryView {
        match *self {
            Query::Get(key) => QueryView::Get(key@),
            Query::Members(key) => QueryView::Members(key@),
            Query::Fields(key) => QueryView::Fields(key@),
            Query::Call(cmd) => QueryView::Call(cmd_args(cmd)),
        }
    }
}

/// What the store answered to a query.
#[derive(Debug)]
pub enum Answer {
    /// One text: the answer to [`Query::Get`].
    Text(String),
    /// Texts in the order the store gave them: the answer to
    /// [`Query::Members`] and [`Query::Call`].
    List(Vec<String>),
    /// Fields with their values, in the order the store gave them: the answer
    /// to [`Query::Fields`].
    Pairs(Vec<(String, String)>),
}

/// An answer as plain mathematical data.
pub enum AnswerView {
    Text(Text),
    List(Texts),
    Pairs(Entries),
}

impl View for Answer {
    type V = AnswerView;

    open spec fn view(&self) -> AnswerView {
        match *self {
            Answer::Text(text) => AnswerView::Text(text@),
            Answer::List(items) => AnswerView::List(items.deep_view()),
            Answer::Pairs(pairs) => AnswerView::Pairs(pairs.deep_view()),
        }
    }
}

/// What came back from the store: an answer, or the failure to get one.
pub type Reply = Result<Answer, redis::RedisError>;

/// A reply as plain mathematical data.
pub type ReplyView = Result<AnswerView, redis::RedisError>;

/// A reply as plain mathematical data.
pub open spec fn reply_view(reply: Reply) -> ReplyView {
    match reply {
        Ok(answer) => Ok(answer@),
        Err(e) => Err(e),
    }
}

/// What an operation returned, as plain mathematical data.
pub open spec fn outcome<T: DeepView>(result: FCallResult<T>) -> Result<T::V, ErrorView> {
    match result {
        Ok(value) => Ok(value.deep_view()),
        Err(e) => Err(e@),
    }
}

/// A store that does not change while it is read: it gives one reply to each
/// query.
pub type Store = spec_fn(QueryView) -> ReplyView;

/// The reason given when the store answers with a value of another kind than
/// the query asks for.
pub const WRONG_KIND: &'static str =
    "The store answered with another kind of value than was asked for.";

/// The text that a reply holds.
pub open spec fn text_of(reply: ReplyView) -> Result<Text, ErrorView> {
    match reply {
        Ok(AnswerView::Text(text)) => Ok(text),
        Ok(_) => Err(ErrorView::Logic(WRONG_KIND@)),
        Err(e) => Err(ErrorView::Redis(e)),
    }
}

/// The list that a reply holds.
pub open spec fn list_of(reply: ReplyView) -> Result<Texts, ErrorView> {
    match reply {
        Ok(AnswerView::List(items)) => Ok(items),
        Ok(_) => Err(ErrorView::Logic(WRONG_KIND@)),
        Err(e) => Err(ErrorView::Redis(e)),
    }
}

/// The pairs that a reply holds.
pub open spec fn pairs_of(reply: ReplyView) -> Result<Entries, ErrorView> {
    match reply {
        Ok(AnswerView::Pairs(pairs)) => Ok(pairs),
        Ok(_) => Err(ErrorView::Logic(WRONG_KIND@)),
        Err(e) => Err(ErrorView::Redis(e)),
    }
}

/// The set that a reply holds: its list without repetitions.
pub open spec fn set_of(reply: ReplyView) -> Result<Texts, ErrorView> {
    match list_of(reply) {
        Ok(items) => Ok(distinct(items)),
        Err(e) => Err(e),
    }
}

/// The map that a reply holds: its pairs, the later of two with one key
/// counting.
pub open spec fn map_of(reply: ReplyView) -> Result<Entries, ErrorView> {
    match pairs_of(reply) {
        Ok(pairs) => Ok(extend(seq![], pairs)),
        Err(e) => Err(e),
    }
}

/// Takes the text out of a reply. A failure of the store is passed on; an
/// answer of another kind is a logic error.
pub fn expect_text(reply: Reply) -> (result: FCallResult<String>)
    ensures
        outcome(result) == text_of(reply_view(reply)),
{
    match reply {
        Ok(Answer::Text(text)) => Ok(text),
        Ok(_) => Err(FCallError::Logic(WRONG_KIND)),
        Err(e) => Err(FCallError::from(e)),
    }
}

/// Takes the list out of a reply. A failure of the store is passed on; an
/// answer of another kind is a logic error.
pub fn expect_list(reply: Reply) -> (result: FCallResult<Vec<String>>)
    ensures
        outcome(result) == list_of(reply_view(reply)),
{
    match reply {
        Ok(Answer::List(items)) => Ok(items),
        Ok(_) => Err(FCallError::Logic(WRONG_KIND)),
        Err(e) => Err(FCallError::from(e)),
    }
}

/// Takes the pairs out of a reply. A failure of the store is passed on; an
/// answer of another kind is a logic error.
pub fn expect_pairs(reply: Reply) -> (result: FCallResult<Vec<(String, String)>>)
    ensures
        outcome(result) == pairs_of(reply_view(reply)),
{
    match reply {
        Ok(Answer::Pairs(pairs)) => Ok(pairs),
        Ok(_) => Err(FCallError::Logic(WRONG_KIND)),
        Err(e) => Err(FCallError::from(e)),
    }
}

/// Takes the list out of a reply as a set: of equal texts the first stays.
pub fn expect_set(reply: Reply) -> (result: FCallResult<Vec<String>>)
    ensures
        outcome(result) == set_of(reply_view(reply)),
{
    match expect_list(reply) {
        Ok(items) => Ok(dedup(items)),
        Err(e) => Err(e),
    }
}

/// Takes the pairs out of a reply as a map: of two pairs with one key the
/// later one counts.
pub fn expect_map(reply: Reply) -> (result: FCallResult<Vec<(String, String)>>)
    ensures
        outcome(result) == map_of(reply_view(reply)),
{
    match expect_pairs(reply) {
        Ok(pairs) => {
            let mut map: Vec<(String, String)> = Vec::new();
            assert(map.deep_view() =~= seq![]);
            extend_entries(&mut map, &pairs);
            Ok(map)
        },
        Err(e) => Err(e),
    }
}

/// How a read goes on after a reply.
pub enum Step<R, T> {
    /// The read is not finished: this state's query is to be put to the store
    /// next.
    Ask(R),
    /// The read is finished, with this result.
    Done(FCallResult<T>),
}

/// How a read goes on after a reply, as plain mathematical data: the query
/// it asks next, or the result it ends with.
pub enum Turn<V> {
    Ask(QueryView),
    Done(Result<V, ErrorView>),
}

/// Whether a read that needed `before` replies and now needs `after` has
/// come closer to its end. `None` stands for a number that the next reply
/// will tell.
pub open spec fn closer(before: Option<nat>, after: Option<nat>) -> bool {
    match (before, after) {
        (None, Some(_)) => true,
        (Some(before), Some(after)) => after < before,
        (_, None) => false,
    }
}

/// A read in progress: it waits for the reply to its query.
///
/// A read is specified twice over. [`turn`](Reading::turn) is the protocol:
/// which query follows which reply, and which reply ends the read with which
/// result. [`result_on`](Reading::result_on) is the meaning: the result the
/// read ends with if one unchanging [`Store`] gives every reply from here on.
/// Each step keeps that result, so a read that started as some `x_in(store)`
/// ends with it; [`run`] is the proof. Replies need not come from one
/// unchanging store, and the protocol holds of them all the same.
pub trait Reading: Sized {
    /// What the read returns.
    type Output: DeepView;

    /// The query whose reply the read waits for.
    spec fn pending(&self) -> QueryView;

    /// What the read does when `reply` comes in.
    spec fn turn(&self, reply: ReplyView) -> Turn<<Self::Output as DeepView>::V>;

    /// The result the read ends with if `store` gives every reply from here
    /// on.
    spec fn result_on(&self, store: Store) -> Result<<Self::Output as DeepView>::V, ErrorView>;

    /// How many replies the read needs at most, this one counted; `None`
    /// where only the next reply will tell.
    spec fn remaining(&self) -> Option<nat>;

    /// The query to put to the store.
    fn query(&self) -> (query: Query)
        ensures
            query@ == self.pending(),
    ;

    /// Takes the reply to the query and says how the read goes on.
    ///
    /// It does what [`turn`](Reading::turn) says. If the read goes on, it is
    /// closer to its end, and whatever store the reply came from, it will end
    /// with the same result on it; if the read is done, it returns that
    /// result.
    fn step(self, reply: Reply) -> (next: Step<Self, Self::Output>)
        ensures
            match next {
                Step::Ask(state) => {
                    &&& self.turn(reply_view(reply)) == Turn::<
                        <Self::Output as DeepView>::V,
                    >::Ask(state.pending())
                    &&& closer(self.remaining(), state.remaining())
                    &&& forall|store: Store| #[trigger]
                        store(self.pending()) == reply_view(reply) ==> state.result_on(store)
                            == self.result_on(store)
                },
                Step::Done(result) => {
                    &&& self.turn(reply_view(reply)) == Turn::Done(outcome(result))
                    &&& forall|store: Store| #[trigger]
                        store(self.pending()) == reply_view(reply) ==> outcome(result)
                            == self.result_on(store)
                },
            },
    ;
}

/// Whether `ask` answers every query as `store` does.
pub open spec fn answers_as<F: Fn(Query) -> Reply>(ask: F, store: Store) -> bool {
    forall|query: Query, reply: Reply| #[trigger]
        call_ensures(ask, (query,), reply) ==> reply_view(reply) == store(query@)
}

/// Runs a read to its end: puts each query to `ask` and hands the reply
/// back, until the read is done.
///
/// The run ends whatever the replies are. Where `ask` answers as one
/// unchanging store does, the result is that of the read on that store.
pub fn run<R: Reading, F: Fn(Query) -> Reply>(read: R, ask: F) -> (result: FCallResult<R::Output>)
    requires
        forall|query: Query| call_requires(ask, (query,)),
    ensures
        forall|store: Store| #[trigger]
            answers_as(ask, store) ==> outcome(result) == read.result_on(store),
{
    let mut state = read;
    loop
        invariant
            forall|query: Query| call_requires(ask, (query,)),
            forall|store: Store| #[trigger]
                answers_as(ask, store) ==> state.result_on(store) == read.result_on(store),
        decreases
            (if state.remaining() is None { 1nat } else { 0nat }),
            (match state.remaining() { Some(n) => n, None => 0nat }),
    {
        let query = state.query();
        let ghost asked = query;
        let reply = ask(query);
        assert forall|store: Store| #[trigger] answers_as(ask, store) implies store(
            state.pending(),
        ) == reply_view(reply) by {
            assert(call_ensures(ask, (asked,), reply));
        }
        match state.step(reply) {
            Step::Ask(next) => {
                state = next;
            },
            Step::Done(result) => {
                return result;
            },
        }
    }
}

} // verus!
