//! The store itself: a greeting, the events in the order they were added, and
//! the counter from which identifiers are taken.

use crate::model::{Event, EventInput, EventInputView, EventView};
use vstd::prelude::*;
use vstd::string::*;

verus! {

/// The mathematical content of a [`Contract`].
pub struct StoreState {
    pub greeting: Seq<char>,
    pub events: Seq<EventView>,
    pub next_event_id: int,
}

/// The views of a run of stored events, in the same order.
pub open spec fn event_views(events: Seq<Event>) -> Seq<EventView> {
    Seq::new(events.len(), |i: int| events[i]@)
}

/// The state that a greeting, a run of events and a counter make together.
pub open spec fn restored_state(
    greeting: Seq<char>,
    events: Seq<Event>,
    next_event_id: u16,
) -> StoreState {
    StoreState { greeting, events: event_views(events), next_event_id: next_event_id as int }
}

/// The events that `inputs` become when they are given consecutive
/// identifiers, the first of them `first_id`.
pub open spec fn numbered(inputs: Seq<EventInputView>, first_id: int) -> Seq<EventView> {
    Seq::new(inputs.len(), |k: int| inputs[k].with_id(first_id + k))
}

impl StoreState {
    /// The state of a store that nothing has been done to yet.
    pub open spec fn initial() -> StoreState {
        StoreState { greeting: "Hello"@, events: Seq::empty(), next_event_id: 1 }
    }

    /// Identifiers grow strictly along the list, and the counter lies above
    /// all of them and within what sixteen bits can hold.
    pub open spec fn wf(self) -> bool {
        &&& 0 <= self.next_event_id <= u16::MAX
        &&& forall|i: int|
            0 <= i < self.events.len() ==> 0 <= (#[trigger] self.events[i]).id
                < self.next_event_id
        &&& forall|i: int, j: int|
            0 <= i < j < self.events.len() ==> (#[trigger] self.events[i]).id
                < (#[trigger] self.events[j]).id
    }

    /// Whether one more identifier can be handed out. The counter must stay
    /// above the identifier it hands out, so the largest sixteen-bit value is
    /// never assigned.
    pub open spec fn has_room(self) -> bool {
        self.next_event_id < u16::MAX
    }

    /// The state after the greeting has been replaced by `greeting`.
    pub open spec fn set_greeting(self, greeting: Seq<char>) -> StoreState {
        StoreState { greeting, ..self }
    }

    /// The state after `input` has been appended under the next identifier.
    pub open spec fn add_event(self, input: EventInputView) -> StoreState {
        StoreState {
            greeting: self.greeting,
            events: self.events.push(input.with_id(self.next_event_id)),
            next_event_id: self.next_event_id + 1,
        }
    }

    /// The identifier that the addition at position `k` of `inputs` returns
    /// when the additions are made one after the other, starting here.
    pub open spec fn assigned_id(self, inputs: Seq<EventInputView>, k: int) -> int {
        self.add_events(inputs.take(k)).next_event_id
    }

    /// The state after every element of `inputs` has been appended, first
    /// element first.
    pub open spec fn add_events(self, inputs: Seq<EventInputView>) -> StoreState
        decreases inputs.len(),
    {
        if inputs.len() == 0 {
            self
        } else {
            self.add_events(inputs.drop_last()).add_event(inputs.last())
        }
    }
}

/// The store. Its fields are private: a store comes from [`Contract::default`]
/// or [`Contract::restore`], both of which give a well-formed one, and every
/// operation keeps [`StoreState::wf`].
pub struct Contract {
    greeting: String,
    events: Vec<Event>,
    next_event_id: u16,
}

impl View for Contract {
    type V = StoreState;

    closed spec fn view(&self) -> StoreState {
        StoreState {
            greeting: self.greeting@,
            events: event_views(self.events@),
            next_event_id: self.next_event_id as int,
        }
    }
}

impl Default for Contract {
    /// A fresh store: greeting `Hello`, no events, counter at one.
    fn default() -> (contract: Contract)
        ensures
            contract@ == StoreState::initial(),
            contract@.wf(),
    {
        let contract = Contract {
            greeting: String::from_str("Hello"),
            events: Vec::new(),
            next_event_id: 1,
        };
        assert(contract@.events =~= Seq::empty());
        contract
    }
}

impl Contract {
    /// Puts a store back together from parts that were kept elsewhere. The
    /// parts are taken as they are if they form a well-formed state, and
    /// refused otherwise.
    pub fn restore(greeting: String, events: Vec<Event>, next_event_id: u16) -> (contract: Option<
        Contract,
    >)
        ensures
            contract.is_some() == restored_state(greeting@, events@, next_event_id).wf(),
            contract.is_some() ==> contract.unwrap()@ == restored_state(
                greeting@,
                events@,
                next_event_id,
            ),
    {
        let ghost state = restored_state(greeting@, events@, next_event_id);
        let mut i: usize = 0;
        while i < events.len()
            invariant
                i <= events.len(),
                state == restored_state(greeting@, events@, next_event_id),
                forall|k: int| 0 <= k < i ==> (#[trigger] events@[k]).id < next_event_id,
                forall|a: int, b: int|
                    0 <= a < b < i ==> (#[trigger] events@[a]).id < (#[trigger] events@[b]).id,
            decreases events.len() - i,
        {
            if events[i].id >= next_event_id {
                assert(state.events[i as int].id >= state.next_event_id);
                return None;
            }
            if i > 0 && events[i - 1].id >= events[i].id {
                assert(state.events[i - 1].id >= state.events[i as int].id);
                return None;
            }
            i += 1;
        }
        Some(Contract { greeting, events, next_event_id })
    }

    /// A copy of the current greeting.
    pub fn get_greeting(&self) -> (greeting: String)
        ensures
            greeting@ == self@.greeting,
    {
        self.greeting.clone()
    }

    /// Replaces the greeting, whatever the text; the events and the counter
    /// stay as they are.
    pub fn set_greeting(&mut self, greeting: String)
        ensures
            final(self)@ == old(self)@.set_greeting(greeting@),
            old(self)@.wf() ==> final(self)@.wf(),
    {
        self.greeting = greeting;
    }

    /// The counter: the identifier that the next added event will get.
    pub fn next_event_id(&self) -> (id: u16)
        ensures
            id == self@.next_event_id,
    {
        self.next_event_id
    }

    /// Whether another event can still be given an identifier.
    pub fn has_room(&self) -> (room: bool)
        ensures
            room == self@.has_room(),
    {
        self.next_event_id < u16::MAX
    }

    /// Appends `event` under the counter's current value, moves the counter
    /// up by one, and returns the identifier that was assigned.
    pub fn add_event(&mut self, event: EventInput) -> (id: u16)
        requires
            old(self)@.wf(),
            old(self)@.has_room(),
        ensures
            id == old(self)@.next_event_id,
            final(self)@ == old(self)@.add_event(event@),
            final(self)@.wf(),
    {
        let ghost before = self@;
        let new_event = Event::from_input(self.next_event_id, event);
        self.next_event_id += 1;
        self.events.push(new_event);
        proof {
            assert(self@.events =~= before.events.push(event@.with_id(before.next_event_id)));
            lemma_add_event_keeps_wf(before, event@);
        }
        self.next_event_id - 1
    }

    /// As [`Contract::add_event`], but for any store: where no identifier is
    /// left, nothing changes and `None` is returned.
    pub fn try_add_event(&mut self, event: EventInput) -> (id: Option<u16>)
        requires
            old(self)@.wf(),
        ensures
            old(self)@.has_room() ==> id == Some(old(self)@.next_event_id as u16) && final(self)@
                == old(self)@.add_event(event@),
            !old(self)@.has_room() ==> id.is_none() && final(self)@ == old(self)@,
            final(self)@.wf(),
    {
        if self.has_room() {
            Some(self.add_event(event))
        } else {
            None
        }
    }

    /// All events, oldest first, for reading only.
    pub fn get_events(&self) -> (events: &Vec<Event>)
        ensures
            event_views(events@) == self@.events,
    {
        &self.events
    }
}

/// Replacing the greeting keeps a well-formed state well formed and leaves
/// the events and the counter alone.
pub proof fn lemma_set_greeting_keeps_wf(state: StoreState, greeting: Seq<char>)
    requires
        state.wf(),
    ensures
        state.set_greeting(greeting).wf(),
        state.set_greeting(greeting).events == state.events,
        state.set_greeting(greeting).next_event_id == state.next_event_id,
{
}

/// Adding an event to a well-formed state with room keeps it well formed:
/// the earlier events stay where they were, the new one comes last with the
/// old counter as its identifier, and the counter grows by exactly one.
pub proof fn lemma_add_event_keeps_wf(state: StoreState, input: EventInputView)
    requires
        state.wf(),
        state.has_room(),
    ensures
        state.add_event(input).wf(),
        state.add_event(input).greeting == state.greeting,
        state.add_event(input).events.len() == state.events.len() + 1,
        state.add_event(input).events.subrange(0, state.events.len() as int) == state.events,
        state.add_event(input).events.last() == input.with_id(state.next_event_id),
        state.add_event(input).next_event_id == state.next_event_id + 1,
{
    let after = state.add_event(input);
    assert(after.events.subrange(0, state.events.len() as int) =~= state.events);
    assert forall|i: int| 0 <= i < after.events.len() implies 0 <= (#[trigger] after.events[i]).id
        < after.next_event_id by {
        if i < state.events.len() {
            assert(after.events[i] == state.events[i]);
        }
    }
    assert forall|i: int, j: int| 0 <= i < j < after.events.len() implies (
    #[trigger] after.events[i]).id < (#[trigger] after.events[j]).id by {
        assert(after.events[i] == state.events[i]);
        if j < state.events.len() {
            assert(after.events[j] == state.events[j]);
        }
    }
}

/// Of two greetings set one after the other only the second one counts: the
/// state is the one that setting the second alone would have given, and the
/// greeting read back is the second.
pub proof fn lemma_later_greeting_wins(state: StoreState, first: Seq<char>, second: Seq<char>)
    ensures
        state.set_greeting(first).set_greeting(second) == state.set_greeting(second),
        state.set_greeting(first).set_greeting(second).greeting == second,
{
}

/// A run of additions to a well-formed state that has identifiers left for
/// all of them: the events that were there stay in front, unchanged; the new
/// ones follow in the order of the additions, numbered upwards from the old
/// counter; the addition at position `k` returns the old counter plus `k`
/// (which leaves it room, so it is allowed); and the state stays well formed.
pub proof fn lemma_additions_in_order(state: StoreState, inputs: Seq<EventInputView>)
    requires
        state.wf(),
        state.next_event_id + inputs.len() <= u16::MAX,
    ensures
        state.add_events(inputs).wf(),
        state.add_events(inputs).greeting == state.greeting,
        state.add_events(inputs).next_event_id == state.next_event_id + inputs.len(),
        state.add_events(inputs).events == state.events + numbered(inputs, state.next_event_id),
        forall|k: int|
            0 <= k < inputs.len() ==> #[trigger] state.assigned_id(inputs, k)
                == state.next_event_id + k,
    decreases inputs.len(),
{
    let after = state.add_events(inputs);
    if inputs.len() == 0 {
        assert(after.events =~= state.events + numbered(inputs, state.next_event_id));
    } else {
        let front = inputs.drop_last();
        let middle = state.add_events(front);
        lemma_additions_in_order(state, front);
        lemma_add_event_keeps_wf(middle, inputs.last());
        assert(after.events =~= state.events + numbered(inputs, state.next_event_id));
        assert forall|k: int| 0 <= k < inputs.len() implies #[trigger] state.assigned_id(inputs, k)
            == state.next_event_id + k by {
            if k < front.len() {
                assert(inputs.take(k) =~= front.take(k));
                assert(state.assigned_id(front, k) == state.next_event_id + k);
            } else {
                assert(inputs.take(k) =~= front);
            }
        }
    }
}

/// On a fresh store, `n` additions return the identifiers one to `n` in the
/// order of the calls, and the store then holds exactly the `n` events, in
/// that order, under those identifiers.
pub proof fn lemma_fresh_store_counts_from_one(inputs: Seq<EventInputView>)
    requires
        inputs.len() < u16::MAX,
    ensures
        StoreState::initial().add_events(inputs).wf(),
        StoreState::initial().add_events(inputs).events == numbered(inputs, 1),
        StoreState::initial().add_events(inputs).events.len() == inputs.len(),
        forall|k: int|
            0 <= k < inputs.len() ==> #[trigger] StoreState::initial().assigned_id(inputs, k) == k
                + 1,
        forall|k: int|
            0 <= k < inputs.len() ==> (#[trigger] StoreState::initial().add_events(
                inputs,
            ).events[k]).id == k + 1,
{
    let fresh = StoreState::initial();
    lemma_additions_in_order(fresh, inputs);
    assert(fresh.events + numbered(inputs, 1) =~= numbered(inputs, 1));
    assert forall|k: int| 0 <= k < inputs.len() implies #[trigger] fresh.assigned_id(inputs, k)
        == k + 1 by {
        assert(fresh.assigned_id(inputs, k) == fresh.next_event_id + k);
    }
}

} // verus!
