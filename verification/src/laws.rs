//! What holds of the overlay across events.
use crate::app::{
    asked, download_event, due, fetching, nanos_between, player_line, seconds_between, shows_video,
    Action, ActionView, ActiveView, AppView, Asset, TextureSlot,
};
use crate::outside::secs_of_nanos;
use crate::picture::{avatar_of, image_of};
use crate::scene::{color_is_broken, scene_of};
use crate::seconds::{law_le_transitive, Seconds, DEFAULT_DURATION};
use crate::types::{AppEvent, MediaChat, MediaType, VideoFrame};
use egui::TextureHandle;
use std::sync::mpsc::Receiver;
use vstd::prelude::*;

verus! {

/// Every event keeps the invariant, and a message moves up only when the one on
/// display goes: arrivals join at the end, a skip takes the first away, a flush
/// takes all, and nothing else touches the line.
pub proof fn law_line_is_first_in_first_out(state: AppView, event: AppEvent, now: u64)
    requires
        state.wf(),
    ensures
        state.after(event, now).wf(),
        state.after(event, now).lineup() == match event {
            AppEvent::NewMediaChat(chat) => state.lineup().push(chat),
            AppEvent::Flush => Seq::empty(),
            AppEvent::Skip => if state.lineup().len() == 0 {
                Seq::empty()
            } else {
                state.lineup().drop_first()
            },
            _ => state.lineup(),
        },
{
    assert(state.after(event, now).lineup() =~= match event {
        AppEvent::NewMediaChat(chat) => state.lineup().push(chat),
        AppEvent::Flush => Seq::empty(),
        AppEvent::Skip => if state.lineup().len() == 0 {
            Seq::empty()
        } else {
            state.lineup().drop_first()
        },
        _ => state.lineup(),
    });
}

/// A message that has been on display long enough leaves the line, too.
pub proof fn law_advancing_takes_the_first(state: AppView, now: u64)
    requires
        state.wf(),
        state.current is Some,
    ensures
        state.advanced(now).wf(),
        state.advanced(now).lineup() == state.lineup().drop_first(),
        state.lineup()[0] == state.current->0.chat,
{
    assert(state.advanced(now).lineup() =~= state.lineup().drop_first());
}

/// The state after a number of events, each with its time.
pub open spec fn run(state: AppView, events: Seq<(AppEvent, u64)>) -> AppView
    decreases events.len(),
{
    if events.len() == 0 {
        state
    } else {
        let last = events.last();
        run(state, events.drop_last()).after(last.0, last.1)
    }
}

/// Whatever arrives, the invariant holds.
pub proof fn law_every_run_keeps_the_invariant(state: AppView, events: Seq<(AppEvent, u64)>)
    requires
        state.wf(),
    ensures
        run(state, events).wf(),
    decreases events.len(),
{
    if events.len() > 0 {
        law_every_run_keeps_the_invariant(state, events.drop_last());
        let last = events.last();
        law_line_is_first_in_first_out(run(state, events.drop_last()), last.0, last.1);
    }
}

/// Handling events in two batches gives what handling them in one gives.
pub proof fn law_batches_do_not_matter(
    state: AppView,
    first: Seq<(AppEvent, u64)>,
    second: Seq<(AppEvent, u64)>,
)
    ensures
        run(state, first + second) == run(run(state, first), second),
    decreases second.len(),
{
    if second.len() == 0 {
        assert(first + second =~= first);
    } else {
        law_batches_do_not_matter(state, first, second.drop_last());
        assert((first + second).drop_last() =~= first + second.drop_last());
    }
}

/// The state after going on to the next message a number of times.
pub open spec fn advances(state: AppView, times: Seq<u64>) -> AppView
    decreases times.len(),
{
    if times.len() == 0 {
        state
    } else {
        advances(state, times.drop_last()).advanced(times.last())
    }
}

/// Going on again and again shows the waiting messages in the order of their
/// arrival, each started afresh and with no audio left, while the others keep
/// waiting in order; after the last nothing is displayed.
pub proof fn law_advances_show_the_queue(state: AppView, times: Seq<u64>)
    requires
        0 < times.len() <= state.queue.len() + 1,
    ensures
        advances(state, times).audio_child is None,
        times.len() <= state.queue.len() ==> {
            &&& advances(state, times).current == Some(
                ActiveView::new(state.queue[times.len() - 1], times.last()),
            )
            &&& advances(state, times).queue == state.queue.skip(times.len() as int)
        },
        times.len() == state.queue.len() + 1 ==> advances(state, times).current is None && advances(
            state,
            times,
        ).queue.len() == 0,
    decreases times.len(),
{
    let fewer = times.drop_last();
    if fewer.len() > 0 {
        law_advances_show_the_queue(state, fewer);
    }
    assert(advances(state, fewer).queue =~= state.queue.skip(fewer.len() as int));
    if times.len() <= state.queue.len() {
        assert(state.queue.skip(fewer.len() as int).drop_first() =~= state.queue.skip(
            times.len() as int,
        ));
    }
}

/// Messages line up in the order in which they arrive.
pub proof fn law_arrivals_line_up(state: AppView, chats: Seq<MediaChat>, times: Seq<u64>)
    requires
        state.wf(),
        chats.len() == times.len(),
    ensures
        run(
            state,
            Seq::new(chats.len(), |i: int| (AppEvent::NewMediaChat(chats[i]), times[i])),
        ).lineup() == state.lineup() + chats,
    decreases chats.len(),
{
    let events = Seq::new(chats.len(), |i: int| (AppEvent::NewMediaChat(chats[i]), times[i]));
    if chats.len() == 0 {
        assert(state.lineup() + chats =~= state.lineup());
    } else {
        let fewer = chats.drop_last();
        law_arrivals_line_up(state, fewer, times.drop_last());
        assert(events.drop_last() =~= Seq::new(
            fewer.len(),
            |i: int| (AppEvent::NewMediaChat(fewer[i]), times.drop_last()[i]),
        ));
        law_every_run_keeps_the_invariant(state, events.drop_last());
        law_line_is_first_in_first_out(
            run(state, events.drop_last()),
            events.last().0,
            events.last().1,
        );
        assert((state.lineup() + fewer).push(chats.last()) =~= state.lineup() + chats);
    }
}

/// Each skip moves the line up by one, so that message number `n` is on display
/// after as many skips.
pub proof fn law_skips_move_the_line_up(state: AppView, times: Seq<u64>)
    requires
        state.wf(),
        times.len() <= state.lineup().len(),
    ensures
        run(state, Seq::new(times.len(), |i: int| (AppEvent::Skip, times[i]))).lineup()
            == state.lineup().skip(times.len() as int),
    decreases times.len(),
{
    let events = Seq::new(times.len(), |i: int| (AppEvent::Skip, times[i]));
    if times.len() == 0 {
        assert(state.lineup().skip(0) =~= state.lineup());
    } else {
        let fewer = times.drop_last();
        law_skips_move_the_line_up(state, fewer);
        assert(events.drop_last() =~= Seq::new(
            fewer.len(),
            |i: int| (AppEvent::Skip, fewer[i]),
        ));
        law_every_run_keeps_the_invariant(state, events.drop_last());
        law_line_is_first_in_first_out(
            run(state, events.drop_last()),
            events.last().0,
            events.last().1,
        );
        assert(state.lineup().skip(fewer.len() as int).drop_first() =~= state.lineup().skip(
            times.len() as int,
        ));
    }
}

/// When the displayed message goes, its audio is stopped and its file removed
/// before anything is fetched for the next, and no player is remembered.
pub proof fn law_leaving_cleans_up(state: AppView, event: AppEvent, now: u64)
    requires
        event is Flush || event is Skip,
    ensures
        (state.killing() + state.removing()).is_prefix_of(state.reaction(event)),
        state.after(event, now).audio_child is None,
        state.after(event, now).current matches Some(active) ==> active.temp_path is None,
{
    assert(state.reaction(event).subrange(0, (state.killing() + state.removing()).len() as int)
        =~= state.killing() + state.removing());
}

/// A message that goes because it has been on display long enough is cleaned up
/// after in the same way.
pub proof fn law_advancing_cleans_up(state: AppView, now: u64)
    ensures
        (state.killing() + state.removing()).is_prefix_of(state.advancing()),
        state.advanced(now).audio_child is None,
        state.advanced(now).current matches Some(active) ==> active.temp_path is None,
{
    assert(state.advancing().subrange(0, (state.killing() + state.removing()).len() as int)
        =~= state.killing() + state.removing());
}

/// While nothing is on display, only a new message changes what is displayed;
/// downloads and video events that come too late are dropped.
pub proof fn law_late_events_are_dropped(state: AppView, event: AppEvent, now: u64)
    requires
        state.wf(),
        state.current is None,
        !(event is NewMediaChat),
    ensures
        state.after(event, now).current is None,
        state.after(event, now).queue =~= state.queue,
        !(event is Flush) && !(event is Skip) ==> state.after(event, now) == state
            && state.reaction(event) == Seq::<ActionView>::empty(),
{
}

/// Once the window has been set up, nothing asks for it again.
pub proof fn law_window_is_set_up_once(state: AppView, event: AppEvent, now: u64)
    requires
        state.win32_initialized,
    ensures
        state.after(event, now).win32_initialized,
        state.advanced(now).win32_initialized,
        state.played(now).win32_initialized,
{
}

/// The frames that are due are a run at the front; the first after it is not due.
pub proof fn law_due_frames_are_in_front(pending: Seq<VideoFrame>, elapsed: Seconds)
    ensures
        due(pending, elapsed) <= pending.len(),
        forall|i: int|
            0 <= i < due(pending, elapsed) ==> (#[trigger] pending[i]).pts_secs.le(elapsed),
        due(pending, elapsed) < pending.len() ==> !pending[due(
            pending,
            elapsed,
        ) as int].pts_secs.le(elapsed),
    decreases pending.len(),
{
    if pending.len() > 0 && pending[0].pts_secs.le(elapsed) {
        let rest = pending.drop_first();
        law_due_frames_are_in_front(rest, elapsed);
        assert forall|i: int| 0 <= i < due(pending, elapsed) implies (
        #[trigger] pending[i]).pts_secs.le(elapsed) by {
            if i > 0 {
                assert(rest[i - 1] == pending[i]);
            }
        }
    }
}

/// Where frames wait in the order of their times, the one that is shown is the
/// latest whose time has come: every frame that is due comes no later, and no
/// frame that stays is due.
pub proof fn law_shown_frame_is_the_latest_due(pending: Seq<VideoFrame>, elapsed: Seconds)
    requires
        forall|i: int, j: int|
            0 <= i <= j < pending.len() ==> (#[trigger] pending[i]).pts_secs.le(
                (#[trigger] pending[j]).pts_secs,
            ),
    ensures
        forall|i: int|
            0 <= i < pending.len() ==> ((#[trigger] pending[i]).pts_secs.le(elapsed) <==> i < due(
                pending,
                elapsed,
            )),
        due(pending, elapsed) > 0 ==> forall|i: int|
            0 <= i < pending.len() && (#[trigger] pending[i]).pts_secs.le(elapsed)
                ==> pending[i].pts_secs.le(pending[due(pending, elapsed) - 1].pts_secs),
{
    law_due_frames_are_in_front(pending, elapsed);
    let n = due(pending, elapsed) as int;
    assert forall|i: int| 0 <= i < pending.len() implies ((#[trigger] pending[i]).pts_secs.le(
        elapsed,
    ) <==> i < n) by {
        if i >= n && pending[i].pts_secs.le(elapsed) {
            law_le_transitive(pending[n].pts_secs, pending[i].pts_secs, elapsed);
        }
    }
}

/// After an update no frame is due any more, and the frames that wait are those
/// behind the shown one, in the same order.
pub proof fn law_update_leaves_no_frame_due(state: AppView, now: u64)
    ensures
        state.played(now).due_count(now) == 0,
        state.played(now).due_frame(now) is None,
        state.played(now).lineup() == state.lineup(),
        state.wf() ==> state.played(now).wf(),
        state.current matches Some(active) ==> state.played(now).current->0.pending_frames
            == active.pending_frames.skip(state.due_count(now) as int),
{
    if let Some(active) = state.current {
        if let Some(start) = active.video_clock {
            let elapsed = seconds_between(start, now);
            law_due_frames_are_in_front(active.pending_frames, elapsed);
        }
    }
}

/// A video stays while a frame waits or the decoder has not ended, however long
/// it takes.
pub proof fn law_video_plays_to_its_end(active: ActiveView, now: u64)
    requires
        shows_video(active.chat),
    ensures
        active.is_finished(now) <==> active.video_ended && active.pending_frames.len() == 0,
{
}

/// A video whose decoder has ended goes as soon as the time of all its frames
/// has come: no frame is left behind that would hold it up.
pub proof fn law_ended_video_goes_with_its_last_frame(state: AppView, now: u64)
    requires
        state.wf(),
        state.current matches Some(active) && shows_video(active.chat) && active.video_ended,
        state.current->0.video_clock matches Some(start) ==> forall|i: int|
            0 <= i < state.current->0.pending_frames.len() ==> (
            #[trigger] state.current->0.pending_frames[i]).pts_secs.le(seconds_between(start, now)),
    ensures
        state.played(now).is_finished(now),
{
    let active = state.current->0;
    if let Some(start) = active.video_clock {
        law_due_frames_are_in_front(active.pending_frames, seconds_between(start, now));
    }
}

/// The state after a number of frames have been received, each at its time.
pub open spec fn receiving(state: AppView, frames: Seq<(VideoFrame, u64)>) -> AppView
    decreases frames.len(),
{
    if frames.len() == 0 {
        state
    } else {
        receiving(state, frames.drop_last()).with_frame(frames.last().0, frames.last().1)
    }
}

/// However many frames are received, and whenever, the clock shows the time at
/// which the first of them was: one that already runs is not touched. The frames
/// wait in the order in which they came, and nothing else changes.
pub proof fn law_clock_runs_from_the_first_frame(
    state: AppView,
    frames: Seq<(VideoFrame, u64)>,
)
    requires
        state.current is Some,
        frames.len() > 0,
    ensures
        ({
            let before = state.current->0;
            let after = receiving(state, frames).current->0;
            &&& receiving(state, frames).current is Some
            &&& before.video_clock matches Some(start) ==> after.video_clock == Some(start)
            &&& before.video_clock is None ==> after.video_clock == Some(frames[0].1)
            &&& after.pending_frames == before.pending_frames + Seq::new(
                frames.len(),
                |i: int| frames[i].0,
            )
            &&& receiving(state, frames) == (AppView { current: Some(after), ..state })
            &&& after == (ActiveView {
                video_clock: after.video_clock,
                pending_frames: after.pending_frames,
                ..before
            })
        }),
    decreases frames.len(),
{
    let fewer = frames.drop_last();
    if fewer.len() == 0 {
        assert(receiving(state, fewer) == state);
    } else {
        law_clock_runs_from_the_first_frame(state, fewer);
    }
    let came = Seq::new(frames.len(), |i: int| frames[i].0);
    assert(receiving(state, frames).current->0.pending_frames
        =~= state.current->0.pending_frames + came);
}

/// Frames that are received while nothing is displayed are dropped.
pub proof fn law_frames_need_an_item(state: AppView, frame: VideoFrame, now: u64)
    requires
        state.current is None,
    ensures
        state.with_frame(frame, now) == state,
{
}

/// The time between two readings of the clock is what the later has over the
/// earlier; against the order there is none. Seconds are counted from it.
pub proof fn law_time_runs_from_the_earlier_reading(since: u64, now: u64)
    ensures
        since <= now ==> since + nanos_between(since, now) == now,
        since > now ==> nanos_between(since, now) == 0,
        seconds_between(since, now).bits == secs_of_nanos(nanos_between(since, now)),
{
}

/// At any time the video shows the last frame in line whose time has come,
/// counted from its clock: it and those before it leave the line, the next has
/// to wait, and nothing else changes.
pub proof fn law_video_shows_the_last_frame_due(state: AppView, now: u64)
    requires
        state.current matches Some(active) && active.video_clock is Some && (
        active.chat.media matches Some(media) && media.media_type == MediaType::Video),
    ensures
        ({
            let before = state.current->0;
            let start = before.video_clock->0;
            let elapsed = Seconds {
                bits: secs_of_nanos(
                    if start <= now {
                        (now - start) as u64
                    } else {
                        0
                    },
                ),
            };
            let waiting = before.pending_frames;
            let left = state.played(now).current->0.pending_frames;
            let gone = waiting.len() - left.len();
            &&& 0 <= gone
            &&& left == waiting.skip(gone)
            &&& forall|i: int| 0 <= i < gone ==> (#[trigger] waiting[i]).pts_secs.le(elapsed)
            &&& left.len() > 0 ==> !left[0].pts_secs.le(elapsed)
            &&& gone == 0 ==> state.due_frame(now) is None
            &&& gone > 0 ==> state.due_frame(now) == Some(waiting[gone - 1])
            &&& state.played(now) == (AppView {
                current: Some(ActiveView { pending_frames: left, ..before }),
                ..state
            })
        }),
{
    let before = state.current->0;
    let elapsed = seconds_between(before.video_clock->0, now);
    law_due_frames_are_in_front(before.pending_frames, elapsed);
}

/// Without a video on display, or before its clock runs, no frame is shown and
/// nothing changes.
pub proof fn law_only_a_running_video_shows_frames(state: AppView, now: u64)
    requires
        state.current matches Some(active) ==> active.video_clock is None || !(
        active.chat.media matches Some(media) && media.media_type == MediaType::Video),
    ensures
        state.due_frame(now) is None,
        state.played(now) == state,
{
    if let Some(active) = state.current {
        assert(active.pending_frames.skip(0) =~= active.pending_frames);
    }
}

/// A video has been displayed long enough once its decoder has ended and no
/// frame waits, whatever its duration. Any other message has once its own
/// duration is over, whatever it carries, and after the default where it names
/// none.
pub proof fn law_when_a_message_is_finished(active: ActiveView, now: u64)
    ensures
        (active.chat.media matches Some(media) && media.media_type == MediaType::Video) ==> (
        active.is_finished(now) <==> active.video_ended && active.pending_frames.len() == 0),
        !(active.chat.media matches Some(media) && media.media_type == MediaType::Video) ==> (
        active.is_finished(now) <==> (match active.chat.duration {
            Some(duration) => duration,
            None => Seconds { bits: DEFAULT_DURATION },
        }).le(
            Seconds {
                bits: secs_of_nanos(
                    if active.started_at <= now {
                        (now - active.started_at) as u64
                    } else {
                        0
                    },
                ),
            },
        )),
{
}

/// Two messages that came up together and name the same duration go together,
/// whoever sent them and whatever they carry, unless one shows a video.
pub proof fn law_only_the_duration_counts(a: ActiveView, b: ActiveView, now: u64)
    requires
        a.started_at == b.started_at,
        a.chat.duration == b.chat.duration,
        !(a.chat.media matches Some(media) && media.media_type == MediaType::Video),
        !(b.chat.media matches Some(media) && media.media_type == MediaType::Video),
    ensures
        a.is_finished(now) == b.is_finished(now),
{
}

/// A message with a longer duration stays at least as long.
pub proof fn law_longer_durations_last_longer(a: ActiveView, b: ActiveView, now: u64)
    requires
        a.started_at == b.started_at,
        !(a.chat.media matches Some(media) && media.media_type == MediaType::Video),
        !(b.chat.media matches Some(media) && media.media_type == MediaType::Video),
        a.chat.duration is Some,
        b.chat.duration is Some,
        a.chat.duration->0.le(b.chat.duration->0),
    ensures
        b.is_finished(now) ==> a.is_finished(now),
{
    if b.is_finished(now) {
        law_le_transitive(
            a.chat.duration->0,
            b.chat.duration->0,
            seconds_between(b.started_at, now),
        );
    }
}

/// Looking whether it is time to go on changes something only when the
/// displayed message is finished; then it is what a skip does.
pub proof fn law_finished_messages_are_skipped(state: AppView, now: u64)
    ensures
        state.current is None ==> state.passed(now) == state && state.passing(now).len() == 0,
        state.current matches Some(active) && active.is_finished(now) ==> state.passed(now)
            == state.after(AppEvent::Skip, now) && state.passing(now) == state.reaction(
            AppEvent::Skip,
        ),
        state.current matches Some(active) && !active.is_finished(now) ==> state.passed(now)
            == state && state.passing(now).len() == 0,
{
}

/// An item that has just come up holds its message and the time, and nothing
/// else yet.
pub proof fn law_items_start_afresh(chat: MediaChat, now: u64)
    ensures
        ({
            let fresh = ActiveView::new(chat, now);
            &&& fresh.chat == chat
            &&& fresh.started_at == now
            &&& fresh.avatar_tex is None
            &&& fresh.media_tex is None
            &&& fresh.frame_tex is None
            &&& fresh.frame_rx is None
            &&& fresh.pending_frames.len() == 0
            &&& !fresh.video_ended
            &&& fresh.video_clock is None
            &&& fresh.temp_path is None
        }),
{
}

/// On an idle overlay a message comes up at once: the old player is stopped,
/// then what the message needs is asked for. While another is displayed it only
/// waits, behind all that already do.
pub proof fn law_arrivals_come_up_or_wait(state: AppView, chat: MediaChat, now: u64)
    ensures
        state.current is None ==> {
            &&& state.after(AppEvent::NewMediaChat(chat), now) == (AppView {
                queue: state.queue,
                current: Some(ActiveView::new(chat, now)),
                audio_child: None,
                win32_initialized: state.win32_initialized,
            })
            &&& state.audio_child is None ==> state.reaction(AppEvent::NewMediaChat(chat))
                == fetching(chat)
            &&& state.audio_child matches Some(id) ==> state.reaction(
                AppEvent::NewMediaChat(chat),
            ) == seq![ActionView::KillAudio(id)] + fetching(chat)
        },
        state.current is Some ==> {
            &&& state.after(AppEvent::NewMediaChat(chat), now) == (AppView {
                queue: state.queue.push(chat),
                current: state.current,
                audio_child: state.audio_child,
                win32_initialized: state.win32_initialized,
            })
            &&& state.reaction(AppEvent::NewMediaChat(chat)).len() == 0
        },
{
    assert(state.killing() + fetching(chat) =~= match state.audio_child {
        Some(id) => seq![ActionView::KillAudio(id)] + fetching(chat),
        None => fetching(chat),
    });
}

/// Which actions stop a player or remove a file when the displayed item goes:
/// the player that is remembered, and the file of the item, each once and in
/// this order.
pub proof fn law_what_goes_with_an_item(state: AppView)
    ensures
        forall|id: u32|
            #[trigger] (state.killing() + state.removing()).contains(ActionView::KillAudio(id))
                <==> state.audio_child == Some(id),
        forall|path: Seq<char>|
            #[trigger] (state.killing() + state.removing()).contains(ActionView::RemoveFile(path))
                <==> (state.current matches Some(active) && active.temp_path == Some(path)),
        (state.killing() + state.removing()).len() == (if state.audio_child is Some {
            1int
        } else {
            0
        }) + (if state.current is Some && state.current->0.temp_path is Some {
            1int
        } else {
            0
        }),
        state.audio_child matches Some(id) ==> (state.killing() + state.removing())[0]
            == ActionView::KillAudio(id),
        // Taking the overlay down removes the file alone.
        state.removing() == match state.current {
            Some(active) => match active.temp_path {
                Some(path) => seq![ActionView::RemoveFile(path)],
                None => Seq::empty(),
            },
            None => Seq::empty(),
        },
{
    let actions = state.killing() + state.removing();
    if let Some(id) = state.audio_child {
        assert(actions[0] == ActionView::KillAudio(id));
    }
    if let Some(active) = state.current {
        if let Some(path) = active.temp_path {
            assert(actions[actions.len() - 1] == ActionView::RemoveFile(path));
        }
    }
}

/// A flush leaves nothing on display and nothing in line. The player is stopped
/// and the file removed.
pub proof fn law_flush_leaves_nothing(state: AppView, now: u64)
    ensures
        state.after(AppEvent::Flush, now) == (AppView {
            queue: Seq::empty(),
            current: None,
            audio_child: None,
            win32_initialized: state.win32_initialized,
        }),
        state.reaction(AppEvent::Flush) == state.killing() + state.removing(),
{
}

/// A skip puts the next in line on display, or nothing where none waits. The
/// player is stopped and the file removed before the next is fetched.
pub proof fn law_skip_shows_the_next(state: AppView, now: u64)
    ensures
        state.queue.len() == 0 ==> {
            &&& state.after(AppEvent::Skip, now) == (AppView {
                queue: Seq::empty(),
                current: None,
                audio_child: None,
                win32_initialized: state.win32_initialized,
            })
            &&& state.reaction(AppEvent::Skip) == state.killing() + state.removing()
        },
        state.queue.len() > 0 ==> {
            &&& state.after(AppEvent::Skip, now) == (AppView {
                queue: state.queue.drop_first(),
                current: Some(ActiveView::new(state.queue[0], now)),
                audio_child: None,
                win32_initialized: state.win32_initialized,
            })
            &&& state.reaction(AppEvent::Skip) == state.killing() + state.removing() + fetching(
                state.queue[0],
            )
        },
        state.advanced(now) == state.after(AppEvent::Skip, now),
        state.advancing() == state.reaction(AppEvent::Skip),
{
    if state.queue.len() == 0 {
        assert(state.queue =~= Seq::empty());
        assert(state.reaction(AppEvent::Skip) =~= state.killing() + state.removing());
    }
}

/// A downloaded picture that can be decoded becomes a texture of the displayed
/// item: the avatar cut to a disc, the media image as it is. The state changes
/// only when the texture has been loaded.
pub proof fn law_pictures_become_textures(state: AppView, data: Vec<u8>, now: u64)
    ensures
        state.after(AppEvent::AvatarLoaded(data), now) == state,
        state.after(AppEvent::MediaImageLoaded(data), now) == state,
        state.current is Some ==> (avatar_of(data@) matches Some(image) ==> state.reaction(
            AppEvent::AvatarLoaded(data),
        ) == seq![ActionView::LoadTexture { slot: TextureSlot::Avatar, image }]),
        state.current is Some ==> (image_of(data@) matches Some(image) ==> state.reaction(
            AppEvent::MediaImageLoaded(data),
        ) == seq![ActionView::LoadTexture { slot: TextureSlot::Media, image }]),
        state.current is None || avatar_of(data@) is None ==> state.reaction(
            AppEvent::AvatarLoaded(data),
        ).len() == 0,
        state.current is None || image_of(data@) is None ==> state.reaction(
            AppEvent::MediaImageLoaded(data),
        ).len() == 0,
{
}

/// What is downloaded as an avatar is shown as one, and what is downloaded as a
/// media image is shown as that. A failed download is dropped.
pub proof fn law_downloads_reach_their_place(state: AppView, asset: Asset, data: Vec<u8>)
    ensures
        download_event(asset, None) is None,
        download_event(asset, Some(data)) is Some,
        ({
            let actions = state.reaction(download_event(asset, Some(data))->0);
            let image = match asset {
                Asset::Avatar => avatar_of(data@),
                Asset::MediaImage => image_of(data@),
            };
            let slot = match asset {
                Asset::Avatar => TextureSlot::Avatar,
                Asset::MediaImage => TextureSlot::Media,
            };
            if state.current is Some && image is Some {
                actions == seq![ActionView::LoadTexture { slot, image: image->0 }]
            } else {
                actions.len() == 0
            }
        }),
        asset == Asset::Avatar ==> download_event(asset, Some(data)) == Some(
            AppEvent::AvatarLoaded(data),
        ),
        asset == Asset::MediaImage ==> download_event(asset, Some(data)) == Some(
            AppEvent::MediaImageLoaded(data),
        ),
{
}

/// When the decoder of a video is ready its frames are taken in, with sound or
/// without. The sound is played from the file, which goes with the item; a silent
/// video brings no file. Nothing else changes.
pub proof fn law_ready_videos_deliver_frames(
    state: AppView,
    frame_rx: Receiver<VideoFrame>,
    audio_path: Option<String>,
    now: u64,
)
    ensures
        ({
            let event = AppEvent::VideoReady { frame_rx, audio_path };
            let next = state.after(event, now);
            &&& state.current is None ==> next == state && state.reaction(event).len() == 0
            &&& state.current matches Some(before) ==> {
                let after = next.current->0;
                &&& next == (AppView { current: Some(after), ..state })
                &&& after.frame_rx == Some(frame_rx)
                &&& after == (ActiveView {
                    frame_rx: after.frame_rx,
                    temp_path: after.temp_path,
                    ..before
                })
                &&& audio_path is None ==> after.temp_path == before.temp_path && state.reaction(
                    event,
                ).len() == 0
                &&& audio_path matches Some(path) ==> after.temp_path == Some(path@)
                    && state.reaction(event) == seq![ActionView::PlayAudio { url: path@ }]
                &&& (before.chat.media matches Some(media) && media.media_type == MediaType::Video)
                    ==> next.frame_source() == Some(frame_rx)
            }
        }),
{
}

/// The file that a video brought for its sound is removed when the video goes.
pub proof fn law_file_of_the_sound_is_removed(
    state: AppView,
    frame_rx: Receiver<VideoFrame>,
    path: String,
    now: u64,
    event: AppEvent,
)
    requires
        state.current is Some,
        event is Skip || event is Flush,
    ensures
        state.after(AppEvent::VideoReady { frame_rx, audio_path: Some(path) }, now).reaction(
            event,
        ).contains(ActionView::RemoveFile(path@)),
{
    let ready = state.after(AppEvent::VideoReady { frame_rx, audio_path: Some(path) }, now);
    let actions = ready.reaction(event);
    assert(actions[ready.killing().len() as int] == ActionView::RemoveFile(path@));
}

/// The end of the decoder is noted on the displayed item, and nothing else.
pub proof fn law_end_of_the_decoder_is_noted(state: AppView, now: u64)
    ensures
        state.reaction(AppEvent::VideoEnded).len() == 0,
        state.current is None ==> state.after(AppEvent::VideoEnded, now) == state,
        state.current matches Some(before) ==> state.after(AppEvent::VideoEnded, now) == (AppView {
            current: Some(ActiveView { video_ended: true, ..before }),
            ..state
        }),
{
}

/// Frames arrive from the decoder for as long as a video is displayed, also
/// after the decoder has ended, and for nothing else.
pub proof fn law_frames_arrive_for_videos(state: AppView)
    ensures
        state.current is None ==> state.frame_source() is None,
        state.current matches Some(active) && (active.chat.media matches Some(media)
            && media.media_type == MediaType::Video) ==> state.frame_source()
            == state.current->0.frame_rx,
        state.current matches Some(active) && !(active.chat.media matches Some(media)
            && media.media_type == MediaType::Video) ==> state.frame_source() is None,
{
}

/// A texture goes to its own place of the displayed item and touches no other.
pub proof fn law_textures_keep_their_place(
    state: AppView,
    slot: TextureSlot,
    texture: TextureHandle,
)
    ensures
        state.current is None ==> state.with_texture(slot, texture) == state,
        state.current matches Some(before) ==> {
            let after = state.with_texture(slot, texture).current->0;
            &&& state.with_texture(slot, texture) == (AppView { current: Some(after), ..state })
            &&& after.avatar_tex == if slot == TextureSlot::Avatar {
                Some(texture)
            } else {
                before.avatar_tex
            }
            &&& after.media_tex == if slot == TextureSlot::Media {
                Some(texture)
            } else {
                before.media_tex
            }
            &&& after.frame_tex == if slot == TextureSlot::Frame {
                Some(texture)
            } else {
                before.frame_tex
            }
            &&& after == (ActiveView {
                avatar_tex: after.avatar_tex,
                media_tex: after.media_tex,
                frame_tex: after.frame_tex,
                ..before
            })
        },
{
}

/// A player that was started is the one that is stopped when the item goes; one
/// that could not be started leaves the last in its place.
pub proof fn law_started_players_are_stopped(state: AppView, id: u32, event: AppEvent)
    requires
        event is Skip || event is Flush,
    ensures
        state.with_player(Some(id)).reaction(event).len() > 0,
        state.with_player(Some(id)).reaction(event)[0] == ActionView::KillAudio(id),
        state.with_player(None) == state,
        state.with_player(Some(id)) == (AppView { audio_child: Some(id), ..state }),
{
}

/// An overlay starts with nothing on display, nothing in line, no player and a
/// window that has to be set up. The first message comes up at once.
pub proof fn law_overlays_start_idle(chat: MediaChat, now: u64)
    ensures
        AppView::idle().wf(),
        AppView::idle().lineup().len() == 0,
        AppView::idle().current is None,
        AppView::idle().audio_child is None,
        AppView::idle().needs_setup(),
        AppView::idle().after(AppEvent::NewMediaChat(chat), now).current == Some(
            ActiveView::new(chat, now),
        ),
{
}

/// The player is told what to play last. Before that it is told to show no
/// window, to end by itself and to keep quiet, whatever it plays.
pub proof fn law_player_is_told_what_to_play(url: Seq<char>, other: Seq<char>)
    ensures
        player_line(url).len() == 6,
        player_line(url).last() == url,
        player_line(url).drop_last() == player_line(other).drop_last(),
        player_line(url)[0] == "ffplay"@,
        player_line(url).contains("-nodisp"@),
        player_line(url).contains("-autoexit"@),
        player_line(url)[3] == "-loglevel"@ && player_line(url)[4] == "quiet"@,
{
    assert(player_line(url)[1] == "-nodisp"@);
    assert(player_line(url)[2] == "-autoexit"@);
    assert(player_line(url).drop_last() =~= player_line(other).drop_last());
}

/// A colour can only be broken while its message is displayed.
pub proof fn law_broken_colors_are_displayed(state: AppView)
    ensures
        state.current is None ==> !state.shows_broken_color(),
        state.current matches Some(active) ==> state.shows_broken_color() == color_is_broken(
            active.chat,
        ),
{
}

/// The scene shows the displayed message with its own textures, and there is
/// one exactly while a message is displayed.
pub proof fn law_scene_is_of_the_displayed_message(state: AppView)
    ensures
        state.current is None ==> state.scenery() is None,
        state.current matches Some(active) ==> state.scenery() == Some(
            scene_of(active.chat, active.avatar_tex, active.media_tex, active.frame_tex),
        ),
{
}

/// Setting the window up is asked for once and changes nothing else.
pub proof fn law_setup_is_asked_for_once(state: AppView)
    ensures
        state.needs_setup() <==> !state.win32_initialized,
        !state.set_up().needs_setup(),
        state.set_up() == (AppView { win32_initialized: true, ..state }),
{
}

/// What the invariant asks: with nothing on display nothing waits, and with
/// frames in line their clock runs. It asks nothing else.
pub proof fn law_what_the_invariant_asks(state: AppView)
    ensures
        state.current is None ==> (state.wf() <==> state.queue.len() == 0),
        state.current matches Some(active) ==> (state.wf() <==> active.pending_frames.len() == 0
            || active.video_clock is Some),
{
}

/// The line-up is the displayed message followed by those that wait.
pub proof fn law_line_starts_with_the_displayed(state: AppView)
    ensures
        state.current is None ==> state.lineup() == state.queue,
        state.current matches Some(active) ==> {
            &&& state.lineup().len() == state.queue.len() + 1
            &&& state.lineup()[0] == active.chat
            &&& state.lineup().drop_first() == state.queue
        },
{
    if let Some(active) = state.current {
        assert(state.lineup().drop_first() =~= state.queue);
    }
}

/// A list of actions asks for what each of them says, one by one.
pub proof fn law_actions_say_what_they_ask_for(actions: Seq<Action>, i: int)
    requires
        0 <= i < actions.len(),
    ensures
        asked(actions).len() == actions.len(),
        match actions[i] {
            Action::KillAudio(id) => asked(actions)[i] == ActionView::KillAudio(id),
            Action::RemoveFile(path) => asked(actions)[i] == ActionView::RemoveFile(path@),
            Action::Download { url, asset } => asked(actions)[i] == (ActionView::Download {
                url: url@,
                asset,
            }),
            Action::DecodeVideo { url } => asked(actions)[i] == (ActionView::DecodeVideo {
                url: url@,
            }),
            Action::PlayAudio { url } => asked(actions)[i] == (ActionView::PlayAudio { url: url@ }),
            Action::LoadTexture { slot, image } => asked(actions)[i] == (ActionView::LoadTexture {
                slot,
                image: image@,
            }),
        },
{
}

} // verus!
