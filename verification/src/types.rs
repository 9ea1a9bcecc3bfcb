//! The messages that drive the overlay.
use crate::seconds::Seconds;
use std::sync::mpsc::Receiver;
use vstd::prelude::*;

verus! {

/// What kind of media a message carries.
#[derive(Clone, Copy, Debug, PartialEq, Eq, Structural)]
pub enum MediaType {
    Image,
    Video,
    Sound,
}

/// A piece of media and where it is found.
#[derive(Debug)]
pub struct Media {
    pub url: String,
    pub media_type: MediaType,
}

/// Who sent a message.
#[derive(Debug)]
pub struct Author {
    pub name: String,
    /// Where the avatar is found.
    pub image: Option<String>,
}

/// The size of a font, as the bits of a single-precision number.
#[derive(Clone, Copy, Debug, PartialEq, Eq, Structural)]
pub struct FontSize {
    pub bits: u32,
}

/// How the text of a message is drawn.
#[derive(Debug)]
pub struct TextOptions {
    pub color: Option<String>,
    pub font_size: Option<FontSize>,
}

/// How a message is drawn.
#[derive(Debug)]
pub struct ChatOptions {
    pub hide_author: Option<bool>,
    pub text: Option<TextOptions>,
}

/// A message to display.
#[derive(Debug)]
pub struct MediaChat {
    pub author: Author,
    pub media: Option<Media>,
    pub message: Option<String>,
    /// How long the message stays, unless it shows a video.
    pub duration: Option<Seconds>,
    pub options: Option<ChatOptions>,
}

/// A decoded video frame.
#[derive(Debug)]
pub struct VideoFrame {
    pub width: u32,
    pub height: u32,
    /// RGBA, not premultiplied.
    pub data: Vec<u8>,
    /// When the frame is due, from the start of the video.
    pub pts_secs: Seconds,
}

/// What the overlay reacts to.
pub enum AppEvent {
    /// A message arrived.
    NewMediaChat(MediaChat),
    /// Drop everything.
    Flush,
    /// Go on to the next message.
    Skip,
    /// The bytes of an avatar were downloaded.
    AvatarLoaded(Vec<u8>),
    /// The bytes of a media image were downloaded.
    MediaImageLoaded(Vec<u8>),
    /// The video decoder is ready.
    VideoReady {
        /// Where decoded frames arrive.
        frame_rx: Receiver<VideoFrame>,
        /// The file to play for the sound; none where the video is silent.
        audio_path: Option<String>,
    },
    /// All frames have been sent; some may still wait in the channel.
    VideoEnded,
}

} // verus!
