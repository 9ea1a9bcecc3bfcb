//! The core of a native overlay that shows chat messages with media on top of
//! a stream.
//!
//! [`app`] holds the state: the message on display, those that wait, and the
//! frames of a video that wait for their time. [`scene`] says what is drawn,
//! [`picture`] and [`color`] read images and colours, [`socket`] and [`video`]
//! decide what server notifications and the decoder's progress lead to, and
//! [`overlay`] sets the window up. [`seconds`] and [`single`] are the exact
//! arithmetic below them. What holds across events stands in [`laws`]; what is
//! taken from other crates stands in [`outside`].
pub mod app;
pub mod color;
pub mod laws;
pub mod outside;
pub mod overlay;
pub mod picture;
pub mod scene;
pub mod seconds;
pub mod single;
pub mod socket;
pub mod types;
pub mod video;
