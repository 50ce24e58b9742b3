//! The lines that the two commands leave in the host's log. The store only
//! words them; writing them out is the caller's business.

use vstd::prelude::*;
use vstd::string::*;

verus! {

/// The line for a greeting that is about to be saved.
pub open spec fn saving_greeting_line(greeting: Seq<char>) -> Seq<char> {
    "Saving greeting: "@ + greeting
}

/// The line for an event that is about to be added, named by its title.
pub open spec fn adding_event_line(title: Seq<char>) -> Seq<char> {
    "Adding new event: "@ + title
}

/// Words the line for a greeting that is about to be saved.
pub fn saving_greeting(greeting: &str) -> (line: String)
    ensures
        line@ == saving_greeting_line(greeting@),
{
    String::from_str("Saving greeting: ").concat(greeting)
}

/// Words the line for an event that is about to be added.
pub fn adding_event(title: &str) -> (line: String)
    ensures
        line@ == adding_event_line(title@),
{
    String::from_str("Adding new event: ").concat(title)
}

} // verus!
