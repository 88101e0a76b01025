//! The stream of events about files.

use vstd::prelude::*;

verus! {

/// What happened while a client listens.
#[derive(Debug, PartialEq)]
pub enum BusEvent {
    /// An event.
    Data(String),
    /// The client was too slow, and events were lost.
    Lagged,
    /// There will be no more events.
    Closed,
    /// It is time to show that the stream lives.
    Tick,
}

/// What a client is sent.
#[derive(Debug, PartialEq)]
pub enum StreamStep {
    /// An event with this data.
    Send(String),
    /// A comment.
    Comment(String),
    /// Nothing.
    Skip,
    /// The end.
    End,
}

/// What a client is sent for what happened.
pub open spec fn is_sent(event: BusEvent, step: StreamStep) -> bool {
    match event {
        BusEvent::Data(d) => step matches StreamStep::Send(s) && s@ == d@,
        BusEvent::Lagged => step is Skip,
        BusEvent::Closed => step is End,
        BusEvent::Tick => step matches StreamStep::Comment(c) && c@ == "keepalive"@,
    }
}

/// What a client is sent for what happened. A client that was too slow goes on with the next event.
pub fn file_updates(event: BusEvent) -> (r: StreamStep)
    ensures
        is_sent(event, r),
{
    match event {
        BusEvent::Data(d) => StreamStep::Send(d),
        BusEvent::Lagged => StreamStep::Skip,
        BusEvent::Closed => StreamStep::End,
        BusEvent::Tick => StreamStep::Comment(String::from_str("keepalive")),
    }
}

/// Every event reaches the client as it is, and nothing else does as an event. The stream ends where the
/// events do, and not for a client that was too slow.
pub proof fn law_events_reach_the_client(event: BusEvent, step: StreamStep)
    requires
        is_sent(event, step),
    ensures
        step is Send <==> event is Data,
        step matches StreamStep::Send(s) ==> s@ == event->Data_0@,
        step is End <==> event is Closed,
        event is Lagged ==> step is Skip,
        event is Tick ==> (step matches StreamStep::Comment(c) && c@ == "keepalive"@),
{
}

} // verus!
