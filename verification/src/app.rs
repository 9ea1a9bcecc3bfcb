//! The state of the overlay and how it reacts.
//!
//! The state never touches the outside itself: each step hands back the actions
//! that the caller has to perform, in order.
use crate::outside::{elapsed_secs, secs_of_nanos, tells_seconds, FINE_NANOS};
use crate::picture::{avatar_of, decode_circular, decode_image, image_of, ColorImage, ImageView};
use crate::scene::{color_is_broken, compose, has_broken_color, scene_of, Scene, SceneView};
use crate::seconds::{law_default_duration_is_five_seconds, Seconds, DEFAULT_DURATION};
use crate::types::{AppEvent, MediaChat, MediaType, VideoFrame};
use egui::TextureHandle;
use std::collections::VecDeque;
use std::sync::mpsc::Receiver;
use vstd::arithmetic::power2::{lemma_pow2_pos, pow2};
use vstd::prelude::*;

verus! {

/// What a texture of the displayed item is for.
#[derive(Clone, Copy, Debug, PartialEq, Eq, Structural)]
pub enum TextureSlot {
    Avatar,
    Media,
    Frame,
}

/// A picture that is downloaded for the displayed item.
#[derive(Clone, Copy, Debug, PartialEq, Eq, Structural)]
pub enum Asset {
    Avatar,
    MediaImage,
}

/// What the caller has to do.
#[derive(Debug)]
pub enum Action {
    /// Stop the player with this process number and wait for its end.
    KillAudio(u32),
    /// Remove a temporary file.
    RemoveFile(String),
    /// Fetch a picture in the background.
    Download { url: String, asset: Asset },
    /// Decode a video in the background.
    DecodeVideo { url: String },
    /// Start a player and report its process number.
    PlayAudio { url: String },
    /// Load a texture and report its handle for the slot.
    LoadTexture { slot: TextureSlot, image: ColorImage },
}

/// What an action asks for.
pub enum ActionView {
    KillAudio(u32),
    RemoveFile(Seq<char>),
    Download { url: Seq<char>, asset: Asset },
    DecodeVideo { url: Seq<char> },
    PlayAudio { url: Seq<char> },
    LoadTexture { slot: TextureSlot, image: ImageView },
}

impl View for Action {
    type V = ActionView;

    open spec fn view(&self) -> ActionView {
        match self {
            Action::KillAudio(id) => ActionView::KillAudio(*id),
            Action::RemoveFile(path) => ActionView::RemoveFile(path@),
            Action::Download { url, asset } => ActionView::Download { url: url@, asset: *asset },
            Action::DecodeVideo { url } => ActionView::DecodeVideo { url: url@ },
            Action::PlayAudio { url } => ActionView::PlayAudio { url: url@ },
            Action::LoadTexture { slot, image } => ActionView::LoadTexture {
                slot: *slot,
                image: image@,
            },
        }
    }
}

/// What a list of actions asks for.
pub open spec fn asked(actions: Seq<Action>) -> Seq<ActionView> {
    Seq::new(actions.len(), |i: int| actions[i]@)
}

/// The displayed item.
pub struct ActiveMedia {
    chat: MediaChat,
    avatar_tex: Option<TextureHandle>,
    media_tex: Option<TextureHandle>,
    frame_tex: Option<TextureHandle>,
    /// Where frames arrive from the decoder.
    frame_rx: Option<Receiver<VideoFrame>>,
    /// Decoded frames that wait for their time.
    pending_frames: VecDeque<VideoFrame>,
    video_ended: bool,
    /// When the first frame arrived.
    video_clock: Option<u64>,
    /// When the item came up.
    started_at: u64,
    /// The file to remove when the item goes.
    temp_path: Option<String>,
}

/// The displayed item, as contracts speak of it.
pub struct ActiveView {
    pub chat: MediaChat,
    pub avatar_tex: Option<TextureHandle>,
    pub media_tex: Option<TextureHandle>,
    pub frame_tex: Option<TextureHandle>,
    pub frame_rx: Option<Receiver<VideoFrame>>,
    pub pending_frames: Seq<VideoFrame>,
    pub video_ended: bool,
    pub video_clock: Option<u64>,
    pub started_at: u64,
    pub temp_path: Option<Seq<char>>,
}

/// The time between two readings of the clock, in nanoseconds; none where the
/// second lies before the first.
pub open spec fn nanos_between(since: u64, now: u64) -> u64 {
    if since <= now {
        (now - since) as u64
    } else {
        0
    }
}

/// The time between two readings of the clock, in seconds.
pub open spec fn seconds_between(since: u64, now: u64) -> Seconds {
    Seconds { bits: secs_of_nanos(nanos_between(since, now)) }
}

/// How many frames at the front are due.
pub open spec fn due(pending: Seq<VideoFrame>, elapsed: Seconds) -> nat
    decreases pending.len(),
{
    if pending.len() > 0 && pending[0].pts_secs.le(elapsed) {
        1 + due(pending.drop_first(), elapsed)
    } else {
        0
    }
}

/// The later it is, the more frames are due.
pub proof fn law_frames_stay_due(pending: Seq<VideoFrame>, earlier: Seconds, later: Seconds)
    requires
        earlier.le(later),
    ensures
        due(pending, earlier) <= due(pending, later),
    decreases pending.len(),
{
    if pending.len() > 0 {
        law_frames_stay_due(pending.drop_first(), earlier, later);
    }
}

/// Whether a message shows a video.
pub open spec fn shows_video(chat: MediaChat) -> bool {
    chat.media matches Some(media) && media.media_type == MediaType::Video
}

/// How long a message stays that shows no video.
pub open spec fn display_time(chat: MediaChat) -> Seconds {
    match chat.duration {
        Some(d) => d,
        None => Seconds { bits: DEFAULT_DURATION },
    }
}

impl ActiveView {
    /// An item that has just come up.
    pub open spec fn new(chat: MediaChat, now: u64) -> ActiveView {
        ActiveView {
            chat,
            avatar_tex: None,
            media_tex: None,
            frame_tex: None,
            frame_rx: None,
            pending_frames: Seq::empty(),
            video_ended: false,
            video_clock: None,
            started_at: now,
            temp_path: None,
        }
    }

    /// Whether the item has been on display long enough: a video until its last
    /// frame was shown, anything else for its duration.
    pub open spec fn is_finished(self, now: u64) -> bool {
        if shows_video(self.chat) {
            self.video_ended && self.pending_frames.len() == 0
        } else {
            display_time(self.chat).le(seconds_between(self.started_at, now))
        }
    }

    /// How many nanoseconds the item has been on display.
    pub open spec fn age(self, now: u64) -> u64 {
        nanos_between(self.started_at, now)
    }

    /// The item with a texture in a slot.
    pub open spec fn with_texture(self, slot: TextureSlot, texture: TextureHandle) -> ActiveView {
        match slot {
            TextureSlot::Avatar => ActiveView { avatar_tex: Some(texture), ..self },
            TextureSlot::Media => ActiveView { media_tex: Some(texture), ..self },
            TextureSlot::Frame => ActiveView { frame_tex: Some(texture), ..self },
        }
    }

    /// The item with one more frame; the first one starts the clock.
    pub open spec fn with_frame(self, frame: VideoFrame, now: u64) -> ActiveView {
        ActiveView {
            pending_frames: self.pending_frames.push(frame),
            video_clock: match self.video_clock {
                Some(t) => Some(t),
                None => Some(now),
            },
            ..self
        }
    }
}

impl ActiveMedia {
    /// The item, as contracts speak of it.
    pub closed spec fn view(&self) -> ActiveView {
        ActiveView {
            chat: self.chat,
            avatar_tex: self.avatar_tex,
            media_tex: self.media_tex,
            frame_tex: self.frame_tex,
            frame_rx: self.frame_rx,
            pending_frames: self.pending_frames@,
            video_ended: self.video_ended,
            video_clock: self.video_clock,
            started_at: self.started_at,
            temp_path: match self.temp_path {
                Some(path) => Some(path@),
                None => None,
            },
        }
    }

    /// An item that has just come up.
    pub fn new(chat: MediaChat, now: u64) -> (r: ActiveMedia)
        ensures
            r@ == ActiveView::new(chat, now),
            r@.chat == chat,
            r@.started_at == now,
    {
        ActiveMedia {
            chat,
            avatar_tex: None,
            media_tex: None,
            frame_tex: None,
            frame_rx: None,
            pending_frames: VecDeque::new(),
            video_ended: false,
            video_clock: None,
            started_at: now,
            temp_path: None,
        }
    }

    /// Tells whether the item shows a video.
    pub fn is_video(&self) -> (r: bool)
        ensures
            r == shows_video(self@.chat),
    {
        match &self.chat.media {
            Some(media) => media.media_type == MediaType::Video,
            None => false,
        }
    }

    /// Tells whether the item has been on display long enough.
    pub fn should_advance(&self, now: u64) -> (r: bool)
        ensures
            r == self@.is_finished(now),
            // A video stays until its decoder has ended and no frame waits.
            (self@.chat.media matches Some(media) && media.media_type == MediaType::Video) ==> r
                == (self@.video_ended && self@.pending_frames.len() == 0),
            // Anything else that names a duration stays for that long, whatever
            // it carries.
            !(self@.chat.media matches Some(media) && media.media_type == MediaType::Video) ==> (
            self@.chat.duration matches Some(duration) ==> r == duration.le(
                Seconds {
                    bits: secs_of_nanos(
                        if self@.started_at <= now {
                            (now - self@.started_at) as u64
                        } else {
                            0
                        },
                    ),
                },
            )),
            // Anything else that names none stays for five seconds.
            !(self@.chat.media matches Some(media) && media.media_type == MediaType::Video)
                && self@.chat.duration is None ==> r == (now - self@.started_at >= 5_000_000_000),
            // Without a duration it takes five seconds, to the nanosecond.
            !shows_video(self@.chat) && self@.chat.duration is None ==> r == (self@.age(now)
                >= 5_000_000_000),
            // With one it takes that long, give or take a nanosecond.
            !shows_video(self@.chat) && self@.age(now) < FINE_NANOS && !display_time(
                self@.chat,
            ).is_nan() && 1_000_000_000 * display_time(self@.chat).value() <= (self@.age(now) - 1)
                * pow2(1074) ==> r,
            !shows_video(self@.chat) && self@.age(now) < FINE_NANOS && 1_000_000_000 * display_time(
                self@.chat,
            ).value() >= (self@.age(now) + 1) * pow2(1074) ==> !r,
            // Whole seconds are told exactly, however many.
            !shows_video(self@.chat) && self@.age(now) as int % 1_000_000_000 == 0 ==> r == (
            !display_time(self@.chat).is_nan() && 1_000_000_000 * display_time(self@.chat).value()
                <= self@.age(now) * pow2(1074)),
            // After a span of any length the whole seconds around it decide.
            !shows_video(self@.chat) && !display_time(self@.chat).is_nan() && display_time(
                self@.chat,
            ).value() <= self@.age(now) as int / 1_000_000_000 * pow2(1074) ==> r,
            !shows_video(self@.chat) && display_time(self@.chat).value() > (self@.age(now) as int
                / 1_000_000_000 + 1) * pow2(1074) ==> !r,
            // What was finished before still is.
            forall|earlier: u64|
                earlier <= now && #[trigger] self@.is_finished(earlier) ==> r,
    {
        proof {
            law_default_duration_is_five_seconds();
            lemma_pow2_pos(1074);
            let (n, p) = (self@.age(now) as int, pow2(1074) as int);
            if n >= 5_000_000_000 {
                assert(5 * p <= n / 1_000_000_000 * p) by (nonlinear_arith)
                    requires
                        n >= 5_000_000_000,
                        p > 0,
                ;
            } else {
                assert((n + 1) * p <= 5_000_000_000 * p) by (nonlinear_arith)
                    requires
                        n < 5_000_000_000,
                        p > 0,
                ;
            }
            if n % 1_000_000_000 == 0 {
                assert(n * p == 1_000_000_000 * (n / 1_000_000_000 * p)) by (nonlinear_arith)
                    requires
                        n % 1_000_000_000 == 0,
                ;
            }
        }
        if self.is_video() {
            self.video_ended && self.pending_frames.len() == 0
        } else {
            let duration = match self.chat.duration {
                Some(d) => d,
                None => Seconds { bits: DEFAULT_DURATION },
            };
            duration.at_most(time_between(self.started_at, now))
        }
    }

    /// Takes the frames that are due off the queue and hands out the last.
    fn take_due(&mut self, elapsed: Seconds) -> (shown: Option<VideoFrame>)
        ensures
            ({
                let pending = old(self)@.pending_frames;
                let n = due(pending, elapsed);
                &&& n <= pending.len()
                &&& shown == if n == 0 {
                    None
                } else {
                    Some(pending[n - 1])
                }
                &&& final(self)@ == (ActiveView { pending_frames: pending.skip(n as int), ..old(
                    self,
                )@ })
            }),
    {
        let mut last: Option<VideoFrame> = None;
        let ghost mut n: int = 0;
        let ghost pending = self.pending_frames@;
        assert(pending.skip(0) =~= pending);
        while self.pending_frames.len() > 0 && self.pending_frames[0].pts_secs.at_most(elapsed)
            invariant
                0 <= n <= pending.len(),
                pending == old(self)@.pending_frames,
                self.pending_frames@ == pending.skip(n),
                self@ == (ActiveView { pending_frames: pending.skip(n), ..old(self)@ }),
                due(pending, elapsed) == n + due(pending.skip(n), elapsed),
                last == if n == 0 {
                    None
                } else {
                    Some(pending[n - 1])
                },
            decreases self.pending_frames@.len(),
        {
            last = self.pending_frames.pop_front();
            proof {
                assert(pending.skip(n).drop_first() =~= pending.skip(n + 1));
                n = n + 1;
                assert(self.pending_frames@ =~= pending.skip(n));
            }
        }
        last
    }
}

/// The event that the end of a download gives rise to: none where it failed.
pub open spec fn download_event(asset: Asset, body: Option<Vec<u8>>) -> Option<AppEvent> {
    match body {
        Some(data) => match asset {
            Asset::Avatar => Some(AppEvent::AvatarLoaded(data)),
            Asset::MediaImage => Some(AppEvent::MediaImageLoaded(data)),
        },
        None => None,
    }
}

/// Computes `download_event`.
pub fn download_finished(asset: Asset, body: Option<Vec<u8>>) -> (event: Option<AppEvent>)
    ensures
        event == match (asset, body) {
            (Asset::Avatar, Some(data)) => Some(AppEvent::AvatarLoaded(data)),
            (Asset::MediaImage, Some(data)) => Some(AppEvent::MediaImageLoaded(data)),
            (_, None) => None,
        },
        event == download_event(asset, body),
{
    match body {
        Some(data) => match asset {
            Asset::Avatar => Some(AppEvent::AvatarLoaded(data)),
            Asset::MediaImage => Some(AppEvent::MediaImageLoaded(data)),
        },
        None => None,
    }
}

/// The program that plays audio, and its arguments for a URL or a file.
pub open spec fn player_line(url: Seq<char>) -> Seq<Seq<char>> {
    seq!["ffplay"@, "-nodisp"@, "-autoexit"@, "-loglevel"@, "quiet"@, url]
}

/// The program that plays audio, and its arguments for a URL or a file.
pub fn player_command(url: &str) -> (r: (String, Vec<String>))
    ensures
        r.0@ == "ffplay"@,
        r.1@.len() == 5,
        r.1@[0]@ == "-nodisp"@,
        r.1@[1]@ == "-autoexit"@,
        r.1@[2]@ == "-loglevel"@,
        r.1@[3]@ == "quiet"@,
        r.1@[4]@ == url@,
        player_line(url@).len() == r.1@.len() + 1,
        player_line(url@)[0] == r.0@,
        forall|i: int| 0 <= i < r.1@.len() ==> player_line(url@)[i + 1] == #[trigger] r.1@[i]@,
{
    let args = vec![
        "-nodisp".to_owned(),
        "-autoexit".to_owned(),
        "-loglevel".to_owned(),
        "quiet".to_owned(),
        url.to_owned(),
    ];
    let program = "ffplay".to_owned();
    assert(forall|i: int| 0 <= i < args@.len() ==> player_line(url@)[i + 1] == #[trigger] args@[i]@);
    (program, args)
}

/// Computes `seconds_between`.
fn time_between(since: u64, now: u64) -> (r: Seconds)
    ensures
        r == seconds_between(since, now),
        !r.is_nan(),
        tells_seconds(r.value(), nanos_between(since, now)),
        forall|shorter: u64|
            shorter <= nanos_between(since, now) ==> (Seconds {
                bits: #[trigger] secs_of_nanos(shorter),
            }).le(r),
{
    let nanos: u64 = if since <= now {
        now - since
    } else {
        0
    };
    Seconds { bits: elapsed_secs(nanos) }
}

/// The overlay.
pub struct App {
    /// The messages that wait, first come first served.
    queue: VecDeque<MediaChat>,
    current: Option<ActiveMedia>,
    /// The process number of the player for the current audio.
    audio_child: Option<u32>,
    /// Whether the window has been set up as an overlay.
    win32_initialized: bool,
}

/// The overlay, as contracts speak of it.
pub struct AppView {
    pub queue: Seq<MediaChat>,
    pub current: Option<ActiveView>,
    pub audio_child: Option<u32>,
    pub win32_initialized: bool,
}

impl AppView {
    /// An overlay with nothing to display.
    pub open spec fn idle() -> AppView {
        AppView {
            queue: Seq::empty(),
            current: None,
            audio_child: None,
            win32_initialized: false,
        }
    }

    /// Nothing waits while nothing is displayed, and frames wait only while
    /// their clock runs.
    pub open spec fn wf(self) -> bool {
        match self.current {
            Some(active) => active.pending_frames.len() > 0 ==> active.video_clock is Some,
            None => self.queue.len() == 0,
        }
    }

    /// Every message that is on display or waits for it, in order: the first is
    /// the one on display.
    pub open spec fn lineup(self) -> Seq<MediaChat> {
        match self.current {
            Some(active) => seq![active.chat] + self.queue,
            None => self.queue,
        }
    }

    /// What stops the current audio.
    pub open spec fn killing(self) -> Seq<ActionView> {
        match self.audio_child {
            Some(id) => seq![ActionView::KillAudio(id)],
            None => Seq::empty(),
        }
    }

    /// What removes the file of the displayed item.
    pub open spec fn removing(self) -> Seq<ActionView> {
        match self.current {
            Some(active) => match active.temp_path {
                Some(path) => seq![ActionView::RemoveFile(path)],
                None => Seq::empty(),
            },
            None => Seq::empty(),
        }
    }

    /// Nothing on display and no audio.
    pub open spec fn cleared(self) -> AppView {
        AppView { current: None, audio_child: None, ..self }
    }

    /// A message on display since `now`, and no audio yet.
    pub open spec fn showing(self, chat: MediaChat, now: u64) -> AppView {
        AppView { current: Some(ActiveView::new(chat, now)), audio_child: None, ..self }
    }

    /// The next message on display, if any waits.
    pub open spec fn advanced(self, now: u64) -> AppView {
        if self.queue.len() == 0 {
            self.cleared()
        } else {
            (AppView { queue: self.queue.drop_first(), ..self }).showing(self.queue[0], now)
        }
    }

    /// What going on to the next message asks for.
    pub open spec fn advancing(self) -> Seq<ActionView> {
        self.killing() + self.removing() + if self.queue.len() == 0 {
            Seq::empty()
        } else {
            fetching(self.queue[0])
        }
    }

    /// The state after an event at `now`.
    pub open spec fn after(self, event: AppEvent, now: u64) -> AppView {
        match event {
            AppEvent::NewMediaChat(chat) => match self.current {
                None => self.showing(chat, now),
                Some(_) => AppView { queue: self.queue.push(chat), ..self },
            },
            AppEvent::Flush => AppView { queue: Seq::empty(), ..self.cleared() },
            AppEvent::Skip => self.advanced(now),
            AppEvent::VideoReady { frame_rx, audio_path } => match self.current {
                Some(active) => AppView {
                    current: Some(
                        ActiveView {
                            frame_rx: Some(frame_rx),
                            temp_path: match audio_path {
                                Some(path) => Some(path@),
                                None => active.temp_path,
                            },
                            ..active
                        },
                    ),
                    ..self
                },
                None => self,
            },
            AppEvent::VideoEnded => match self.current {
                Some(active) => AppView {
                    current: Some(ActiveView { video_ended: true, ..active }),
                    ..self
                },
                None => self,
            },
            _ => self,
        }
    }

    /// What an event asks for.
    pub open spec fn reaction(self, event: AppEvent) -> Seq<ActionView> {
        match event {
            AppEvent::NewMediaChat(chat) => match self.current {
                None => self.killing() + fetching(chat),
                Some(_) => Seq::empty(),
            },
            AppEvent::Flush => self.killing() + self.removing(),
            AppEvent::Skip => self.advancing(),
            AppEvent::AvatarLoaded(data) => self.texture_for(
                TextureSlot::Avatar,
                avatar_of(data@),
            ),
            AppEvent::MediaImageLoaded(data) => self.texture_for(
                TextureSlot::Media,
                image_of(data@),
            ),
            AppEvent::VideoReady { frame_rx, audio_path } => match (self.current, audio_path) {
                (Some(_), Some(path)) => seq![ActionView::PlayAudio { url: path@ }],
                _ => Seq::empty(),
            },
            AppEvent::VideoEnded => Seq::empty(),
        }
    }

    /// Whether the displayed message has been on display long enough.
    pub open spec fn is_finished(self, now: u64) -> bool {
        self.current matches Some(active) && active.is_finished(now)
    }

    /// How many frames of the displayed video are due.
    pub open spec fn due_count(self, now: u64) -> nat {
        match self.current {
            Some(active) => match active.video_clock {
                Some(start) => if shows_video(active.chat) {
                    due(active.pending_frames, seconds_between(start, now))
                } else {
                    0
                },
                None => 0,
            },
            None => 0,
        }
    }

    /// The last frame of the displayed video that is due.
    pub open spec fn due_frame(self, now: u64) -> Option<VideoFrame> {
        let n = self.due_count(now);
        if n == 0 {
            None
        } else {
            Some(self.current->0.pending_frames[n - 1])
        }
    }

    /// The state without the frames that are due.
    pub open spec fn played(self, now: u64) -> AppView {
        match self.current {
            Some(active) => AppView {
                current: Some(
                    ActiveView {
                        pending_frames: active.pending_frames.skip(self.due_count(now) as int),
                        ..active
                    },
                ),
                ..self
            },
            None => self,
        }
    }

    /// The state with the process number of a player that was started, if it was.
    pub open spec fn with_player(self, id: Option<u32>) -> AppView {
        AppView {
            audio_child: if id is Some {
                id
            } else {
                self.audio_child
            },
            ..self
        }
    }

    /// The state with a texture of the displayed item.
    pub open spec fn with_texture(self, slot: TextureSlot, texture: TextureHandle) -> AppView {
        AppView {
            current: match self.current {
                Some(active) => Some(active.with_texture(slot, texture)),
                None => None,
            },
            ..self
        }
    }

    /// The state with one more frame of the displayed item.
    pub open spec fn with_frame(self, frame: VideoFrame, now: u64) -> AppView {
        AppView {
            current: match self.current {
                Some(active) => Some(active.with_frame(frame, now)),
                None => None,
            },
            ..self
        }
    }

    /// Where frames of the displayed video arrive.
    pub open spec fn frame_source(self) -> Option<Receiver<VideoFrame>> {
        match self.current {
            Some(active) => if shows_video(active.chat) {
                active.frame_rx
            } else {
                None
            },
            None => None,
        }
    }

    /// The state without the displayed message, where that has been on display
    /// long enough.
    pub open spec fn passed(self, now: u64) -> AppView {
        if self.is_finished(now) {
            self.advanced(now)
        } else {
            self
        }
    }

    /// What going on from a message that has been on display long enough asks for.
    pub open spec fn passing(self, now: u64) -> Seq<ActionView> {
        if self.is_finished(now) {
            self.advancing()
        } else {
            Seq::empty()
        }
    }

    /// The scene of the displayed message.
    pub open spec fn scenery(self) -> Option<SceneView> {
        match self.current {
            Some(active) => Some(
                scene_of(active.chat, active.avatar_tex, active.media_tex, active.frame_tex),
            ),
            None => None,
        }
    }

    /// Whether the colour of the displayed message is broken.
    pub open spec fn shows_broken_color(self) -> bool {
        self.current matches Some(active) && color_is_broken(active.chat)
    }

    /// Whether the window still has to be set up as an overlay.
    pub open spec fn needs_setup(self) -> bool {
        !self.win32_initialized
    }

    /// The state once the window has been set up.
    pub open spec fn set_up(self) -> AppView {
        AppView { win32_initialized: true, ..self }
    }

    /// What a downloaded picture asks for: nothing where it could not be
    /// decoded, or where no item is left to show it.
    pub open spec fn texture_for(self, slot: TextureSlot, image: Option<ImageView>) -> Seq<
        ActionView,
    > {
        match (self.current, image) {
            (Some(_), Some(image)) => seq![ActionView::LoadTexture { slot, image }],
            _ => Seq::empty(),
        }
    }
}

/// What a message needs when it comes up: its avatar, then its media.
pub open spec fn fetching(chat: MediaChat) -> Seq<ActionView> {
    (match chat.author.image {
        Some(url) => seq![ActionView::Download { url: url@, asset: Asset::Avatar }],
        None => Seq::empty(),
    }) + (match chat.media {
        Some(media) => seq![
            match media.media_type {
                MediaType::Image => ActionView::Download { url: media.url@, asset: Asset::MediaImage },
                MediaType::Video => ActionView::DecodeVideo { url: media.url@ },
                MediaType::Sound => ActionView::PlayAudio { url: media.url@ },
            },
        ],
        None => Seq::empty(),
    })
}

/// What a message needs when it comes up, said of each action: its avatar is
/// downloaded from where the author's picture is found, and only then; its
/// media is downloaded, decoded or played, as its type has it, from its own
/// address, and only then. Nothing is asked for twice, and nothing else.
pub proof fn law_coming_up_needs_avatar_and_media(chat: MediaChat)
    ensures
        forall|url: Seq<char>|
            #[trigger] fetching(chat).contains(ActionView::Download { url, asset: Asset::Avatar })
                <==> (chat.author.image matches Some(image) && image@ == url),
        forall|url: Seq<char>|
            #[trigger] fetching(chat).contains(
                ActionView::Download { url, asset: Asset::MediaImage },
            ) <==> (chat.media matches Some(media) && media.media_type == MediaType::Image
                && media.url@ == url),
        forall|url: Seq<char>|
            #[trigger] fetching(chat).contains(ActionView::DecodeVideo { url }) <==> (
            chat.media matches Some(media) && media.media_type == MediaType::Video && media.url@
                == url),
        forall|url: Seq<char>|
            #[trigger] fetching(chat).contains(ActionView::PlayAudio { url }) <==> (
            chat.media matches Some(media) && media.media_type == MediaType::Sound && media.url@
                == url),
        fetching(chat).len() == (if chat.author.image is Some {
            1int
        } else {
            0
        }) + (if chat.media is Some {
            1int
        } else {
            0
        }),
        chat.author.image matches Some(image) ==> fetching(chat)[0] == (ActionView::Download {
            url: image@,
            asset: Asset::Avatar,
        }),
{
    let actions = fetching(chat);
    if let Some(url) = chat.author.image {
        assert(actions[0] == ActionView::Download { url: url@, asset: Asset::Avatar });
    }
    if let Some(media) = chat.media {
        let last = actions[actions.len() - 1];
        assert(actions.contains(last));
    }
}

/// A message that comes up on an idle overlay has its avatar fetched, whatever
/// its media.
pub proof fn law_arrival_fetches_the_avatar(state: AppView, event: AppEvent)
    ensures
        state.current is None ==> (event matches AppEvent::NewMediaChat(chat) ==> (
        chat.author.image matches Some(url) ==> state.reaction(event).contains(
            ActionView::Download { url: url@, asset: Asset::Avatar },
        ))),
{
    if let AppEvent::NewMediaChat(chat) = event {
        law_coming_up_needs_avatar_and_media(chat);
        if let Some(url) = chat.author.image {
            let avatar = ActionView::Download { url: url@, asset: Asset::Avatar };
            let (first, rest) = (state.killing(), fetching(chat));
            assert(rest.contains(avatar));
            let i = choose|i: int| 0 <= i < rest.len() && rest[i] == avatar;
            assert((first + rest)[first.len() + i] == avatar);
        }
    }
}

impl App {
    /// The overlay, as contracts speak of it.
    pub closed spec fn view(&self) -> AppView {
        AppView {
            queue: self.queue@,
            current: match self.current {
                Some(active) => Some(active@),
                None => None,
            },
            audio_child: self.audio_child,
            win32_initialized: self.win32_initialized,
        }
    }

    /// An overlay with nothing to display.
    pub fn new() -> (r: App)
        ensures
            r@ == (AppView {
                queue: Seq::empty(),
                current: None,
                audio_child: None,
                win32_initialized: false,
            }),
            r@ == AppView::idle(),
            r@.wf(),
    {
        App { queue: VecDeque::new(), current: None, audio_child: None, win32_initialized: false }
    }

    /// Stops the current audio.
    fn kill_audio(&mut self, actions: &mut Vec<Action>)
        ensures
            final(self)@ == (AppView { audio_child: None, ..old(self)@ }),
            asked(final(actions)@) == asked(old(actions)@) + old(self)@.killing(),
    {
        match self.audio_child {
            Some(id) => {
                actions.push(Action::KillAudio(id));
                self.audio_child = None;
            },
            None => {},
        }
        assert(asked(actions@) =~= asked(old(actions)@) + old(self)@.killing());
    }

    /// Takes the displayed item away.
    fn drop_current(&mut self, actions: &mut Vec<Action>)
        ensures
            final(self)@ == (AppView { current: None, ..old(self)@ }),
            asked(final(actions)@) == asked(old(actions)@) + old(self)@.removing(),
    {
        match self.current.take() {
            Some(active) => {
                match active.temp_path {
                    Some(path) => {
                        actions.push(Action::RemoveFile(path));
                    },
                    None => {},
                }
            },
            None => {},
        }
        assert(asked(actions@) =~= asked(old(actions)@) + old(self)@.removing());
    }

    /// Puts a message on display.
    fn start_item(&mut self, chat: MediaChat, now: u64, actions: &mut Vec<Action>)
        ensures
            final(self)@ == old(self)@.showing(chat, now),
            asked(final(actions)@) == asked(old(actions)@) + old(self)@.killing() + old(
                self,
            )@.removing() + fetching(chat),
    {
        self.kill_audio(actions);
        self.drop_current(actions);
        let ghost before = asked(actions@);
        match &chat.author.image {
            Some(url) => {
                actions.push(Action::Download { url: url.clone(), asset: Asset::Avatar });
            },
            None => {},
        }
        match &chat.media {
            Some(media) => {
                let url = media.url.clone();
                actions.push(
                    match media.media_type {
                        MediaType::Image => Action::Download { url, asset: Asset::MediaImage },
                        MediaType::Video => Action::DecodeVideo { url },
                        MediaType::Sound => Action::PlayAudio { url },
                    },
                );
            },
            None => {},
        }
        assert(asked(actions@) =~= before + fetching(chat));
        self.current = Some(ActiveMedia::new(chat, now));
    }

    /// Goes on to the next message.
    pub fn advance(&mut self, now: u64) -> (actions: Vec<Action>)
        ensures
            final(self)@ == old(self)@.advanced(now),
            final(self)@.wf(),
            asked(actions@) == old(self)@.advancing(),
    {
        let mut actions: Vec<Action> = Vec::new();
        self.kill_audio(&mut actions);
        self.drop_current(&mut actions);
        match self.queue.pop_front() {
            Some(next) => {
                assert(self.queue@ =~= old(self)@.queue.drop_first());
                self.start_item(next, now, &mut actions);
            },
            None => {},
        }
        assert(asked(actions@) =~= old(self)@.advancing());
        actions
    }

    /// Reacts to an event.
    pub fn process_event(&mut self, event: AppEvent, now: u64) -> (actions: Vec<Action>)
        requires
            old(self)@.wf(),
        ensures
            final(self)@ == old(self)@.after(event, now),
            final(self)@.wf(),
            asked(actions@) == old(self)@.reaction(event),
            // The frames of a video are taken in whether or not it has sound; the
            // sound is played from the file, which goes with the item.
            old(self)@.current is Some ==> (event matches AppEvent::VideoReady {
                frame_rx,
                audio_path,
            } ==> {
                &&& final(self)@.current is Some
                &&& final(self)@.current->0.frame_rx == Some(frame_rx)
                &&& audio_path matches Some(path) ==> final(self)@.current->0.temp_path == Some(
                    path@,
                ) && asked(actions@) == seq![ActionView::PlayAudio { url: path@ }]
                &&& audio_path is None ==> final(self)@.current->0.temp_path == old(
                    self,
                )@.current->0.temp_path && actions@.len() == 0
            }),
            // A message that comes up has its avatar fetched, whatever its media.
            old(self)@.current is None ==> (event matches AppEvent::NewMediaChat(chat) ==> (
            chat.author.image matches Some(url) ==> asked(actions@).contains(
                ActionView::Download { url: url@, asset: Asset::Avatar },
            ))),
    {
        let mut actions: Vec<Action> = Vec::new();
        proof {
            law_arrival_fetches_the_avatar(self@, event);
        }
        match event {
            AppEvent::NewMediaChat(chat) => {
                if self.current.is_none() {
                    self.start_item(chat, now, &mut actions);
                } else {
                    self.queue.push_back(chat);
                }
            },
            AppEvent::Flush => {
                self.queue.clear();
                self.kill_audio(&mut actions);
                self.drop_current(&mut actions);
            },
            AppEvent::Skip => {
                actions = self.advance(now);
            },
            AppEvent::AvatarLoaded(data) => {
                if self.current.is_some() {
                    match decode_circular(data.as_slice()) {
                        Some(image) => {
                            actions.push(Action::LoadTexture { slot: TextureSlot::Avatar, image });
                        },
                        None => {},
                    }
                }
            },
            AppEvent::MediaImageLoaded(data) => {
                if self.current.is_some() {
                    match decode_image(data.as_slice()) {
                        Some(image) => {
                            actions.push(Action::LoadTexture { slot: TextureSlot::Media, image });
                        },
                        None => {},
                    }
                }
            },
            AppEvent::VideoReady { frame_rx, audio_path } => {
                match &mut self.current {
                    Some(active) => {
                        active.frame_rx = Some(frame_rx);
                        match audio_path {
                            Some(path) => {
                                actions.push(Action::PlayAudio { url: path.clone() });
                                active.temp_path = Some(path);
                            },
                            None => {},
                        }
                    },
                    None => {},
                }
            },
            AppEvent::VideoEnded => {
                match &mut self.current {
                    Some(active) => {
                        active.video_ended = true;
                    },
                    None => {},
                }
            },
        }
        assert(asked(actions@) =~= old(self)@.reaction(event));
        actions
    }

    /// Notes how starting a player went: its process number, or nothing where it
    /// could not be started. A player that was already known is forgotten, not
    /// stopped.
    pub fn audio_spawned(&mut self, id: Option<u32>)
        ensures
            final(self)@ == old(self)@.with_player(id),
            final(self)@ == (AppView {
                audio_child: if id is Some {
                    id
                } else {
                    old(self)@.audio_child
                },
                ..old(self)@
            }),
            old(self)@.wf() ==> final(self)@.wf(),
    {
        match id {
            Some(id) => {
                self.audio_child = Some(id);
            },
            None => {},
        }
    }

    /// Takes in a texture that has been loaded. It goes with the item that was
    /// on display, if none is left.
    pub fn texture_loaded(&mut self, slot: TextureSlot, texture: TextureHandle)
        ensures
            final(self)@ == old(self)@.with_texture(slot, texture),
            final(self)@ == (AppView {
                current: match old(self)@.current {
                    Some(active) => Some(active.with_texture(slot, texture)),
                    None => None,
                },
                ..old(self)@
            }),
            old(self)@.wf() ==> final(self)@.wf(),
    {
        match &mut self.current {
            Some(active) => match slot {
                TextureSlot::Avatar => {
                    active.avatar_tex = Some(texture);
                },
                TextureSlot::Media => {
                    active.media_tex = Some(texture);
                },
                TextureSlot::Frame => {
                    active.frame_tex = Some(texture);
                },
            },
            None => {},
        }
    }

    /// Where frames of the displayed video arrive.
    pub fn frame_receiver(&self) -> (r: Option<&Receiver<VideoFrame>>)
        ensures
            match r {
                Some(rx) => self@.current matches Some(active) && shows_video(active.chat)
                    && active.frame_rx == Some(*rx),
                None => self@.current matches Some(active) ==> !shows_video(active.chat)
                    || active.frame_rx is None,
            },
            (r is Some) == (self@.frame_source() is Some),
            r matches Some(rx) ==> self@.frame_source() == Some(*rx),
    {
        match &self.current {
            Some(active) => if active.is_video() {
                active.frame_rx.as_ref()
            } else {
                None
            },
            None => None,
        }
    }

    /// Takes in a frame that has been decoded.
    pub fn receive_frame(&mut self, frame: VideoFrame, now: u64)
        ensures
            final(self)@ == old(self)@.with_frame(frame, now),
            final(self)@ == (AppView {
                current: match old(self)@.current {
                    Some(active) => Some(active.with_frame(frame, now)),
                    None => None,
                },
                ..old(self)@
            }),
            old(self)@.wf() ==> final(self)@.wf(),
            (final(self)@.current is Some) == (old(self)@.current is Some),
            // The first frame starts the clock, and no later one touches it.
            old(self)@.current matches Some(active) ==> final(self)@.current->0.video_clock
                == Some(
                if active.video_clock is Some {
                    active.video_clock->0
                } else {
                    now
                },
            ),
            // The frame waits behind those that came before.
            old(self)@.current matches Some(active) ==> final(self)@.current->0.pending_frames
                == active.pending_frames.push(frame),
    {
        match &mut self.current {
            Some(active) => {
                if active.video_clock.is_none() {
                    active.video_clock = Some(now);
                }
                active.pending_frames.push_back(frame);
            },
            None => {},
        }
    }

    /// Goes on to the frame that is due at `now`: of the frames whose time has
    /// come, all but the last are dropped.
    pub fn update_video_frame(&mut self, now: u64) -> (shown: Option<VideoFrame>)
        ensures
            final(self)@ == old(self)@.played(now),
            shown == old(self)@.due_frame(now),
            old(self)@.wf() ==> final(self)@.wf(),
            // What was due before still is.
            forall|earlier: u64|
                earlier <= now ==> #[trigger] old(self)@.due_count(earlier) <= old(self)@.due_count(
                    now,
                ),
    {
        proof {
            if let Some(active) = self@.current {
                assert(active.pending_frames.skip(0) =~= active.pending_frames);
            }
        }
        match &mut self.current {
            Some(active) => {
                if !active.is_video() {
                    return None;
                }
                match active.video_clock {
                    Some(start) => {
                        let elapsed = time_between(start, now);
                        proof {
                            assert forall|earlier: u64| earlier <= now implies #[trigger] old(
                                self,
                            )@.due_count(earlier) <= old(self)@.due_count(now) by {
                                law_frames_stay_due(
                                    old(self)@.current->0.pending_frames,
                                    seconds_between(start, earlier),
                                    elapsed,
                                );
                            }
                        }
                        active.take_due(elapsed)
                    },
                    None => None,
                }
            },
            None => None,
        }
    }

    /// Goes on to the next message where the displayed one has been on display
    /// long enough.
    pub fn advance_if_finished(&mut self, now: u64) -> (actions: Vec<Action>)
        requires
            old(self)@.wf(),
        ensures
            final(self)@.wf(),
            old(self)@.is_finished(now) ==> final(self)@ == old(self)@.advanced(now) && asked(
                actions@,
            ) == old(self)@.advancing(),
            !old(self)@.is_finished(now) ==> final(self)@ == old(self)@ && actions@.len() == 0,
            final(self)@ == old(self)@.passed(now),
            asked(actions@) == old(self)@.passing(now),
            // What was finished before goes now at the latest.
            forall|earlier: u64|
                earlier <= now && #[trigger] old(self)@.is_finished(earlier) ==> final(self)@
                    == old(self)@.advanced(now),
    {
        let finished = match &self.current {
            Some(active) => active.should_advance(now),
            None => false,
        };
        if finished {
            self.advance(now)
        } else {
            Vec::new()
        }
    }

    /// Tells whether the window still has to be set up, and notes that it is.
    pub fn take_overlay_setup(&mut self) -> (due: bool)
        ensures
            due == !old(self)@.win32_initialized,
            final(self)@ == (AppView { win32_initialized: true, ..old(self)@ }),
            due == old(self)@.needs_setup(),
            final(self)@ == old(self)@.set_up(),
            old(self)@.wf() ==> final(self)@.wf(),
    {
        let due = !self.win32_initialized;
        self.win32_initialized = true;
        due
    }

    /// Takes the overlay down. The file of the displayed item goes; a player is
    /// left to come to its end.
    pub fn close(self) -> (actions: Vec<Action>)
        ensures
            asked(actions@) == self@.removing(),
    {
        let mut app = self;
        let mut actions: Vec<Action> = Vec::new();
        app.drop_current(&mut actions);
        assert(asked(actions@) =~= self@.removing());
        actions
    }

    /// Tells whether the scene cannot be composed because the colour of the
    /// displayed message is broken.
    pub fn has_broken_color(&self) -> (r: bool)
        ensures
            r == (self@.current matches Some(active) && color_is_broken(active.chat)),
            r == self@.shows_broken_color(),
    {
        match &self.current {
            Some(active) => has_broken_color(&active.chat),
            None => false,
        }
    }

    /// What is drawn: nothing but an idle mark where no message is on display.
    pub fn scene(&self) -> (scene: Option<Scene<'_>>)
        requires
            self@.current matches Some(active) ==> !color_is_broken(active.chat),
        ensures
            match (scene, self@.current) {
                (Some(scene), Some(active)) => scene@ == scene_of(
                    active.chat,
                    active.avatar_tex,
                    active.media_tex,
                    active.frame_tex,
                ),
                (None, None) => true,
                _ => false,
            },
            (scene is Some) == (self@.scenery() is Some),
            scene matches Some(scene) ==> self@.scenery() == Some(scene@),
    {
        match &self.current {
            Some(active) => Some(
                compose(
                    &active.chat,
                    active.avatar_tex.as_ref(),
                    active.media_tex.as_ref(),
                    active.frame_tex.as_ref(),
                ),
            ),
            None => None,
        }
    }
}

} // verus!
