//! The four operations as one step of the store: a call comes in, the store
//! changes or does not, and a receipt says what to answer, what to write to
//! the log and whether the state has to be saved. Two of the operations are
//! queries, which only read; two are commands, which change the state when
//! they succeed and leave no trace when they fail.

use crate::exchange::{
    added_record, decoded_input, encode_events, encoded_events, record_views, AddEventError,
    EventInputRecord, EventInputRecordView, EventRecord, EventRecordView,
};
use crate::notice::{adding_event, adding_event_line, saving_greeting, saving_greeting_line};
use crate::store::{lemma_add_event_keeps_wf, Contract, StoreState};
use vstd::prelude::*;

verus! {

/// One call, with its argument in exchanged form.
pub enum Call {
    GetGreeting,
    SetGreeting(String),
    AddEvent(EventInputRecord),
    GetEvents,
}

/// The mathematical content of a [`Call`].
pub enum CallView {
    GetGreeting,
    SetGreeting(Seq<char>),
    AddEvent(EventInputRecordView),
    GetEvents,
}

impl View for Call {
    type V = CallView;

    open spec fn view(&self) -> CallView {
        match self {
            Call::GetGreeting => CallView::GetGreeting,
            Call::SetGreeting(greeting) => CallView::SetGreeting(greeting@),
            Call::AddEvent(record) => CallView::AddEvent(record@),
            Call::GetEvents => CallView::GetEvents,
        }
    }
}

impl CallView {
    /// Whether the call only reads.
    pub open spec fn is_query(self) -> bool {
        self is GetGreeting || self is GetEvents
    }
}

/// What a call that succeeded answers.
pub enum Reply {
    Greeting(String),
    Done,
    EventId(u16),
    Events(Vec<EventRecord>),
}

/// The mathematical content of a [`Reply`].
pub enum ReplyView {
    Greeting(Seq<char>),
    Done,
    EventId(u16),
    Events(Seq<EventRecordView>),
}

impl View for Reply {
    type V = ReplyView;

    open spec fn view(&self) -> ReplyView {
        match self {
            Reply::Greeting(greeting) => ReplyView::Greeting(greeting@),
            Reply::Done => ReplyView::Done,
            Reply::EventId(id) => ReplyView::EventId(*id),
            Reply::Events(records) => ReplyView::Events(record_views(records@)),
        }
    }
}

/// What is left to do once a call has been handled.
pub struct Receipt {
    /// The answer, or why there is none.
    pub reply: Result<Reply, AddEventError>,
    /// The line to write to the log, if the call leaves one.
    pub log: Option<String>,
    /// Whether the state has changed and must be saved.
    pub persist: bool,
}

/// The mathematical content of a [`Receipt`].
pub struct ReceiptView {
    pub reply: Result<ReplyView, AddEventError>,
    pub log: Option<Seq<char>>,
    pub persist: bool,
}

impl View for Receipt {
    type V = ReceiptView;

    open spec fn view(&self) -> ReceiptView {
        ReceiptView {
            reply: match self.reply {
                Ok(reply) => Ok(reply@),
                Err(fault) => Err(fault),
            },
            log: match self.log {
                Some(line) => Some(line@),
                None => None,
            },
            persist: self.persist,
        }
    }
}

/// The receipt of a query: an answer and nothing else.
pub open spec fn read_only(reply: ReplyView) -> ReceiptView {
    ReceiptView { reply: Ok(reply), log: None, persist: false }
}

/// The receipt of a command that succeeded: an answer, one line for the log,
/// and the state to be saved.
pub open spec fn committed(reply: ReplyView, line: Seq<char>) -> ReceiptView {
    ReceiptView { reply: Ok(reply), log: Some(line), persist: true }
}

/// The receipt of a command that failed: the fault and nothing else.
pub open spec fn refused(fault: AddEventError) -> ReceiptView {
    ReceiptView { reply: Err(fault), log: None, persist: false }
}

/// The state after a call, and the receipt of the call.
pub open spec fn handled(state: StoreState, call: CallView) -> (StoreState, ReceiptView) {
    match call {
        CallView::GetGreeting => (state, read_only(ReplyView::Greeting(state.greeting))),
        CallView::SetGreeting(greeting) => (
            state.set_greeting(greeting),
            committed(ReplyView::Done, saving_greeting_line(greeting)),
        ),
        CallView::AddEvent(record) => match added_record(state, record).1 {
            Ok(id) => (
                added_record(state, record).0,
                committed(ReplyView::EventId(id), adding_event_line(record.title)),
            ),
            Err(fault) => (state, refused(fault)),
        },
        CallView::GetEvents => (state, read_only(ReplyView::Events(encoded_events(state.events)))),
    }
}

impl Contract {
    /// Handles one call: does what [`handled`] says to the store and returns
    /// the receipt that it gives.
    pub fn handle(&mut self, call: Call) -> (receipt: Receipt)
        requires
            old(self)@.wf(),
        ensures
            (final(self)@, receipt@) == handled(old(self)@, call@),
            final(self)@.wf(),
    {
        match call {
            Call::GetGreeting => Receipt {
                reply: Ok(Reply::Greeting(self.get_greeting())),
                log: None,
                persist: false,
            },
            Call::SetGreeting(greeting) => {
                let line = saving_greeting(greeting.as_str());
                self.set_greeting(greeting);
                Receipt { reply: Ok(Reply::Done), log: Some(line), persist: true }
            },
            Call::AddEvent(record) => {
                let line = adding_event(record.title.as_str());
                match self.add_event_record(record) {
                    Ok(id) => Receipt {
                        reply: Ok(Reply::EventId(id)),
                        log: Some(line),
                        persist: true,
                    },
                    Err(fault) => Receipt { reply: Err(fault), log: None, persist: false },
                }
            },
            Call::GetEvents => Receipt {
                reply: Ok(Reply::Events(encode_events(self.get_events()))),
                log: None,
                persist: false,
            },
        }
    }
}

/// A query changes nothing, leaves no line in the log, asks for nothing to
/// be saved, and always has an answer.
pub proof fn lemma_queries_only_read(state: StoreState, call: CallView)
    requires
        call.is_query(),
    ensures
        handled(state, call).0 == state,
        handled(state, call).1.reply.is_ok(),
        handled(state, call).1.log.is_none(),
        !handled(state, call).1.persist,
{
}

/// A call that fails changes nothing, leaves no line in the log and asks for
/// nothing to be saved; and only the addition of an event can fail.
pub proof fn lemma_failure_leaves_no_trace(state: StoreState, call: CallView)
    requires
        handled(state, call).1.reply.is_err(),
    ensures
        call is AddEvent,
        handled(state, call).0 == state,
        handled(state, call).1.log.is_none(),
        !handled(state, call).1.persist,
{
}

/// A command that succeeds leaves exactly one line in the log and asks for
/// the state to be saved; setting a greeting always succeeds.
pub proof fn lemma_commands_commit(state: StoreState, call: CallView)
    requires
        !call.is_query(),
        handled(state, call).1.reply.is_ok(),
    ensures
        handled(state, call).1.log.is_some(),
        handled(state, call).1.persist,
        call is SetGreeting ==> handled(state, call).1.reply == Ok::<ReplyView, AddEventError>(
            ReplyView::Done,
        ),
{
}

/// Whatever the call, a well-formed state stays well formed, the events that
/// were there stay in front and unchanged, and the counter never goes back.
pub proof fn lemma_handling_keeps_wf(state: StoreState, call: CallView)
    requires
        state.wf(),
    ensures
        handled(state, call).0.wf(),
        handled(state, call).0.events.len() >= state.events.len(),
        handled(state, call).0.events.subrange(0, state.events.len() as int) == state.events,
        handled(state, call).0.next_event_id >= state.next_event_id,
{
    let after = handled(state, call).0;
    if after != state && call is AddEvent {
        let record = call->AddEvent_0;
        let input = decoded_input(record).unwrap();
        lemma_add_event_keeps_wf(state, input);
    }
    assert(after.events.subrange(0, state.events.len() as int) =~= state.events);
}

} // verus!
