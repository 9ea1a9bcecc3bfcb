//! What arrives from the chat server.
use crate::types::{AppEvent, MediaChat};
use std::collections::VecDeque;
use vstd::prelude::*;

verus! {

/// A notification of the server.
pub enum Notice {
    /// The connection stands.
    Connect,
    /// Messages, each parsed or not readable; nothing where the payload is no text.
    MediaChat(Option<VecDeque<Option<MediaChat>>>),
    Flush,
    Skip,
    Error,
}

/// What a notification leads to.
pub struct Response {
    /// The room to join.
    pub join: Option<String>,
    /// The events to pass on, in order.
    pub events: Vec<AppEvent>,
}

/// The messages that could be read, in order.
pub open spec fn readable(parsed: Seq<Option<MediaChat>>) -> Seq<MediaChat>
    decreases parsed.len(),
{
    if parsed.len() == 0 {
        Seq::empty()
    } else {
        match parsed[0] {
            Some(chat) => seq![chat] + readable(parsed.drop_first()),
            None => readable(parsed.drop_first()),
        }
    }
}

/// One event for each message.
pub open spec fn arrivals(chats: Seq<MediaChat>) -> Seq<AppEvent> {
    Seq::new(chats.len(), |i: int| AppEvent::NewMediaChat(chats[i]))
}

/// The events that a notification is passed on as.
pub open spec fn events_of(notice: Notice) -> Seq<AppEvent> {
    match notice {
        Notice::MediaChat(Some(parsed)) => arrivals(readable(parsed@)),
        Notice::Flush => seq![AppEvent::Flush],
        Notice::Skip => seq![AppEvent::Skip],
        _ => Seq::empty(),
    }
}

/// The room that a notification leads to joining.
pub open spec fn room_to_join(notice: Notice, room: Seq<char>) -> Option<Seq<char>> {
    if notice is Connect {
        Some(room)
    } else {
        None
    }
}

/// A message that cannot be read takes none of the others with it.
pub proof fn law_unreadable_messages_are_skipped(
    before: Seq<Option<MediaChat>>,
    after: Seq<Option<MediaChat>>,
)
    ensures
        readable(before + seq![None] + after) == readable(before + after),
        readable(before + after) == readable(before) + readable(after),
    decreases before.len(),
{
    if before.len() == 0 {
        assert((before + seq![None] + after).drop_first() =~= after);
        assert(before + after =~= after);
        assert(readable(before) + readable(after) =~= readable(after));
    } else {
        let rest = before.drop_first();
        law_unreadable_messages_are_skipped(rest, after);
        assert((before + seq![None] + after).drop_first() =~= rest + seq![None] + after);
        assert((before + after).drop_first() =~= rest + after);
        if let Some(chat) = before[0] {
            assert((seq![chat] + readable(rest)) + readable(after) =~= seq![chat] + (readable(rest)
                + readable(after)));
        }
    }
}

/// Every readable message comes through, once and in its place: one alone gives
/// itself, one more at the end is one more at the end.
pub proof fn law_readable_messages_come_through(parsed: Seq<Option<MediaChat>>, chat: MediaChat)
    ensures
        readable(seq![Some(chat)]) == seq![chat],
        readable(parsed.push(Some(chat))) == readable(parsed).push(chat),
        readable(parsed.push(None)) == readable(parsed),
        readable(Seq::<Option<MediaChat>>::empty()).len() == 0,
{
    let one = seq![Some(chat)];
    assert(one.drop_first() =~= Seq::empty());
    reveal_with_fuel(readable, 2);
    assert(readable(one) =~= seq![chat]);
    law_unreadable_messages_are_skipped(parsed, one);
    assert(parsed + one =~= parsed.push(Some(chat)));
    assert(readable(parsed) + seq![chat] =~= readable(parsed).push(chat));
    law_unreadable_messages_are_skipped(parsed, Seq::empty());
    assert(parsed + seq![None] + Seq::<Option<MediaChat>>::empty() =~= parsed.push(None));
    assert(parsed + Seq::<Option<MediaChat>>::empty() =~= parsed);
}

/// What a notification is passed on as: messages as arrivals, one for one and in
/// order, a flush or a skip as itself, anything else as nothing. Only a
/// connection joins the room.
pub proof fn law_notices_are_passed_on(notice: Notice, room: Seq<char>)
    ensures
        notice matches Notice::MediaChat(Some(parsed)) ==> {
            &&& events_of(notice).len() == readable(parsed@).len()
            &&& forall|i: int|
                0 <= i < readable(parsed@).len() ==> #[trigger] events_of(notice)[i]
                    == AppEvent::NewMediaChat(readable(parsed@)[i])
        },
        notice matches Notice::MediaChat(None) ==> events_of(notice).len() == 0,
        notice is Flush ==> events_of(notice) == seq![AppEvent::Flush],
        notice is Skip ==> events_of(notice) == seq![AppEvent::Skip],
        notice is Connect || notice is Error ==> events_of(notice).len() == 0,
        notice is Connect ==> room_to_join(notice, room) == Some(room),
        !(notice is Connect) ==> room_to_join(notice, room) is None,
{
}

/// Turns parsed messages into events.
fn deliver(parsed: VecDeque<Option<MediaChat>>) -> (events: Vec<AppEvent>)
    ensures
        events@ == arrivals(readable(parsed@)),
{
    let mut parsed = parsed;
    let mut events: Vec<AppEvent> = Vec::new();
    let ghost all = parsed@;
    assert(events@ + arrivals(readable(parsed@)) =~= arrivals(readable(all)));
    while parsed.len() > 0
        invariant
            events@ + arrivals(readable(parsed@)) == arrivals(readable(all)),
        decreases parsed@.len(),
    {
        let ghost before = parsed@;
        let ghost done = events@;
        let first = parsed.pop_front();
        assert(parsed@ =~= before.drop_first());
        match first {
            Some(Some(chat)) => {
                events.push(AppEvent::NewMediaChat(chat));
                assert(arrivals(seq![chat] + readable(parsed@)) =~= seq![
                    AppEvent::NewMediaChat(chat),
                ] + arrivals(readable(parsed@)));
                assert(events@ + arrivals(readable(parsed@)) =~= done + arrivals(readable(before)));
            },
            _ => {},
        }
    }
    assert(events@ + arrivals(readable(parsed@)) =~= events@);
    events
}

/// Decides what a notification leads to.
pub fn respond(notice: Notice, room: &str) -> (r: Response)
    ensures
        (r.join is Some) == (notice is Connect),
        r.join matches Some(name) ==> name@ == room@,
        r.events@ == events_of(notice),
        (r.join is Some) == (room_to_join(notice, room@) is Some),
        r.join matches Some(name) ==> room_to_join(notice, room@) == Some(name@),
{
    match notice {
        Notice::Connect => Response { join: Some(room.to_owned()), events: Vec::new() },
        Notice::MediaChat(Some(parsed)) => Response { join: None, events: deliver(parsed) },
        Notice::Flush => Response { join: None, events: vec![AppEvent::Flush] },
        Notice::Skip => Response { join: None, events: vec![AppEvent::Skip] },
        _ => Response { join: None, events: Vec::new() },
    }
}

} // verus!
