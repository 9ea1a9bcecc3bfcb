use mediachat_native::app::{
    download_finished, player_command, Action, ActiveMedia, App, Asset, TextureSlot,
};
use mediachat_native::seconds::Seconds;
use mediachat_native::types::{
    AppEvent, Author, ChatOptions, FontSize, Media, MediaChat, MediaType, TextOptions, VideoFrame,
};
use std::sync::mpsc::sync_channel;

const SECOND: u64 = 1_000_000_000;

fn chat(name: &str) -> MediaChat {
    MediaChat {
        author: Author { name: name.to_string(), image: None },
        media: None,
        message: Some(name.to_string()),
        duration: None,
        options: None,
    }
}

fn with_media(name: &str, media_type: MediaType) -> MediaChat {
    MediaChat {
        author: Author { name: name.to_string(), image: Some(format!("{name}.png")) },
        media: Some(Media { url: format!("http://{name}"), media_type }),
        ..chat(name)
    }
}

fn caption(app: &App) -> Option<String> {
    app.scene().map(|scene| scene.caption.map(|c| c.text).unwrap_or_default())
}

fn texture(ctx: &egui::Context, name: &str) -> egui::TextureHandle {
    ctx.load_texture(name, egui::ColorImage::example(), egui::TextureOptions::LINEAR)
}

fn png() -> Vec<u8> {
    let image = image::RgbaImage::from_pixel(4, 2, image::Rgba([10, 20, 30, 255]));
    let mut out = std::io::Cursor::new(Vec::new());
    image.write_to(&mut out, image::ImageFormat::Png).unwrap();
    out.into_inner()
}

fn frame(pts: f64) -> VideoFrame {
    VideoFrame {
        width: 1,
        height: 1,
        data: vec![0; 4],
        pts_secs: Seconds { bits: pts.to_bits() },
    }
}

#[test]
fn messages_are_shown_in_order_of_arrival() {
    let mut app = App::new();
    assert!(app.scene().is_none());
    for name in ["a", "b", "c"] {
        assert!(app.process_event(AppEvent::NewMediaChat(chat(name)), 0).is_empty());
    }
    assert_eq!(caption(&app).as_deref(), Some("A"));
    app.process_event(AppEvent::Skip, 1);
    assert_eq!(caption(&app).as_deref(), Some("B"));
    app.process_event(AppEvent::NewMediaChat(chat("d")), 1);
    app.process_event(AppEvent::Skip, 1);
    assert_eq!(caption(&app).as_deref(), Some("C"));
    app.process_event(AppEvent::Skip, 1);
    assert_eq!(caption(&app).as_deref(), Some("D"));
    app.process_event(AppEvent::Skip, 1);
    assert!(app.scene().is_none());
    app.process_event(AppEvent::Skip, 1);
    assert!(app.scene().is_none());
}

#[test]
fn flush_drops_everything() {
    let mut app = App::new();
    for name in ["a", "b", "c"] {
        app.process_event(AppEvent::NewMediaChat(chat(name)), 0);
    }
    app.process_event(AppEvent::Flush, 0);
    assert!(app.scene().is_none());
    app.process_event(AppEvent::Skip, 0);
    assert!(app.scene().is_none());
    app.process_event(AppEvent::NewMediaChat(chat("z")), 0);
    assert_eq!(caption(&app).as_deref(), Some("Z"));
}

#[test]
fn coming_up_fetches_the_avatar_and_the_media() {
    let mut app = App::new();
    let actions = app.process_event(AppEvent::NewMediaChat(with_media("i", MediaType::Image)), 0);
    assert!(matches!(
        &actions[..],
        [Action::Download { url: a, asset: Asset::Avatar }, Action::Download { url: b, asset: Asset::MediaImage }]
            if a == "i.png" && b == "http://i"
    ));
    let mut app = App::new();
    let actions = app.process_event(AppEvent::NewMediaChat(with_media("v", MediaType::Video)), 0);
    assert!(matches!(
        &actions[..],
        [Action::Download { .. }, Action::DecodeVideo { url }] if url == "http://v"
    ));
    let mut app = App::new();
    let actions = app.process_event(AppEvent::NewMediaChat(with_media("s", MediaType::Sound)), 0);
    assert!(matches!(
        &actions[..],
        [Action::Download { .. }, Action::PlayAudio { url }] if url == "http://s"
    ));
}

#[test]
fn leaving_stops_the_audio_and_removes_the_file() {
    let mut app = App::new();
    app.process_event(AppEvent::NewMediaChat(with_media("v", MediaType::Video)), 0);
    app.process_event(AppEvent::NewMediaChat(with_media("s", MediaType::Sound)), 0);
    let (_tx, frame_rx) = sync_channel(15);
    let ready = AppEvent::VideoReady { frame_rx, audio_path: Some("/tmp/v".to_string()) };
    let actions = app.process_event(ready, 0);
    assert!(matches!(&actions[..], [Action::PlayAudio { url }] if url == "/tmp/v"));
    app.audio_spawned(Some(41));
    app.audio_spawned(None);
    let actions = app.process_event(AppEvent::Skip, 1);
    assert!(matches!(
        &actions[..],
        [
            Action::KillAudio(41),
            Action::RemoveFile(path),
            Action::Download { .. },
            Action::PlayAudio { url },
        ] if path == "/tmp/v" && url == "http://s"
    ));
    app.audio_spawned(Some(42));
    let actions = app.process_event(AppEvent::Flush, 2);
    assert!(matches!(&actions[..], [Action::KillAudio(42)]));
    assert!(app.process_event(AppEvent::Flush, 3).is_empty());
}

#[test]
fn silent_videos_leave_no_file() {
    let mut app = App::new();
    app.process_event(AppEvent::NewMediaChat(with_media("v", MediaType::Video)), 0);
    let (_tx, frame_rx) = sync_channel(15);
    let ready = AppEvent::VideoReady { frame_rx, audio_path: None };
    assert!(app.process_event(ready, 0).is_empty());
    assert!(app.frame_receiver().is_some());
    assert!(app.process_event(AppEvent::Skip, 0).is_empty());
}

#[test]
fn closing_removes_the_file_only() {
    let mut app = App::new();
    app.process_event(AppEvent::NewMediaChat(with_media("v", MediaType::Video)), 0);
    let (_tx, frame_rx) = sync_channel(15);
    let ready = AppEvent::VideoReady { frame_rx, audio_path: Some("/tmp/v".to_string()) };
    app.process_event(ready, 0);
    app.audio_spawned(Some(3));
    assert!(matches!(&app.close()[..], [Action::RemoveFile(path)] if path == "/tmp/v"));
    assert!(App::new().close().is_empty());
}

#[test]
fn messages_stay_for_five_seconds_by_default() {
    let item = ActiveMedia::new(chat("a"), 7 * SECOND);
    assert!(!item.should_advance(0));
    assert!(!item.should_advance(7 * SECOND));
    assert!(!item.should_advance(12 * SECOND - 1));
    assert!(item.should_advance(12 * SECOND));
    assert!(item.should_advance(400 * SECOND));
}

#[test]
fn messages_stay_for_their_duration() {
    let half = MediaChat { duration: Some(Seconds { bits: 0.5f64.to_bits() }), ..chat("a") };
    let item = ActiveMedia::new(half, 0);
    assert!(!item.should_advance(SECOND / 2 - 1));
    assert!(item.should_advance(SECOND / 2));
    let negative = MediaChat { duration: Some(Seconds { bits: (-1.0f64).to_bits() }), ..chat("a") };
    assert!(ActiveMedia::new(negative, 5).should_advance(5));
    let never = MediaChat { duration: Some(Seconds { bits: f64::NAN.to_bits() }), ..chat("a") };
    assert!(!ActiveMedia::new(never, 0).should_advance(u64::MAX));
    let sound = MediaChat { duration: None, ..with_media("s", MediaType::Sound) };
    assert!(ActiveMedia::new(sound, 0).should_advance(5 * SECOND));
}

#[test]
fn finished_messages_make_room() {
    let mut app = App::new();
    app.process_event(AppEvent::NewMediaChat(chat("a")), 0);
    app.process_event(AppEvent::NewMediaChat(with_media("b", MediaType::Image)), SECOND);
    assert!(app.advance_if_finished(4 * SECOND).is_empty());
    assert_eq!(caption(&app).as_deref(), Some("A"));
    let actions = app.advance_if_finished(5 * SECOND);
    assert_eq!(actions.len(), 2);
    assert_eq!(caption(&app).as_deref(), Some("B"));
    assert!(app.advance_if_finished(9 * SECOND).is_empty());
    app.advance_if_finished(10 * SECOND);
    assert!(app.scene().is_none());
    assert!(app.advance_if_finished(99 * SECOND).is_empty());
}

#[test]
fn any_time_is_enough_for_no_duration() {
    let zero = MediaChat { duration: Some(Seconds { bits: 0 }), ..chat("a") };
    let item = ActiveMedia::new(zero, 3);
    assert!(item.should_advance(3));
    assert!(item.should_advance(4));
    let item = ActiveMedia::new(chat("a"), 0);
    assert!(item.should_advance(6 * SECOND + SECOND / 2));
    assert!(!item.should_advance(4 * SECOND - 1));
    assert!(!item.should_advance(4 * SECOND + SECOND / 2));
    assert!(!item.should_advance(5 * SECOND - 1));
    assert!(item.should_advance(5 * SECOND));
}

#[test]
fn durations_count_to_the_nanosecond() {
    for duration in [0.1f64, 2.7, 4.5, 59.999999999, 8_000_000.3] {
        let long = MediaChat { duration: Some(Seconds { bits: duration.to_bits() }), ..chat("a") };
        let item = ActiveMedia::new(long, 0);
        let nanos = (duration as u64) * SECOND + (duration.fract() * 1e9).round() as u64;
        assert!(!item.should_advance(nanos - 2));
        assert!(item.should_advance(nanos + 2));
        let mut finished = false;
        for now in nanos - 5..nanos + 5 {
            assert!(!finished || item.should_advance(now));
            finished = item.should_advance(now);
        }
        assert!(finished);
    }
}

#[test]
fn frames_stay_due() {
    let shown_at = |now| {
        let mut app = App::new();
        app.process_event(AppEvent::NewMediaChat(with_media("v", MediaType::Video)), 0);
        for pts in [0.0, 0.1, 0.2, 0.3] {
            app.receive_frame(frame(pts), 0);
        }
        app.update_video_frame(now).map(|f| f64::from_bits(f.pts_secs.bits))
    };
    assert_eq!(shown_at(0), Some(0.0));
    assert_eq!(shown_at(100_000_000), Some(0.1));
    assert_eq!(shown_at(299_999_999), Some(0.2));
    let mut last = Some(0.0);
    for now in 0..40 {
        let shown = shown_at(now * 10_000_000);
        assert!(shown >= last);
        last = shown;
    }
    assert_eq!(last, Some(0.3));
}

#[test]
fn finished_messages_stay_finished() {
    let mut app = App::new();
    let two = MediaChat { duration: Some(Seconds { bits: 2.5f64.to_bits() }), ..chat("a") };
    let item = ActiveMedia::new(two, SECOND);
    assert!(item.should_advance(3 * SECOND + SECOND / 2));
    for later in 4..40 {
        assert!(item.should_advance(later * SECOND));
    }
    app.process_event(AppEvent::NewMediaChat(chat("b")), 0);
    app.advance_if_finished(77 * SECOND);
    assert!(app.scene().is_none());
}

#[test]
fn batches_do_not_matter() {
    let events = || {
        vec![
            AppEvent::NewMediaChat(chat("a")),
            AppEvent::NewMediaChat(chat("b")),
            AppEvent::Skip,
            AppEvent::NewMediaChat(chat("c")),
            AppEvent::Flush,
            AppEvent::NewMediaChat(chat("d")),
            AppEvent::NewMediaChat(chat("e")),
        ]
    };
    for cut in 0..=events().len() {
        let (mut whole, mut parts) = (App::new(), App::new());
        for event in events() {
            whole.process_event(event, 0);
        }
        let mut first = events();
        let second = first.split_off(cut);
        for event in first {
            parts.process_event(event, 0);
        }
        for event in second {
            parts.process_event(event, 0);
        }
        for expected in [Some("D"), Some("E"), None] {
            assert_eq!(caption(&whole).as_deref(), expected);
            assert_eq!(caption(&parts).as_deref(), expected);
            whole.advance(1);
            parts.advance(1);
        }
    }
}

#[test]
fn advancing_shows_the_queue_and_ends_idle() {
    let mut app = App::new();
    app.process_event(AppEvent::NewMediaChat(with_media("s", MediaType::Sound)), 0);
    app.audio_spawned(Some(8));
    for name in ["b", "c"] {
        app.process_event(AppEvent::NewMediaChat(chat(name)), 0);
    }
    assert!(matches!(&app.advance(1)[..], [Action::KillAudio(8)]));
    assert_eq!(caption(&app).as_deref(), Some("B"));
    assert!(app.advance(2).is_empty());
    assert_eq!(caption(&app).as_deref(), Some("C"));
    assert!(app.advance(3).is_empty());
    assert!(app.scene().is_none());
}

#[test]
fn videos_play_until_the_last_frame() {
    let mut app = App::new();
    app.process_event(AppEvent::NewMediaChat(with_media("v", MediaType::Video)), 0);
    assert!(app.frame_receiver().is_none());
    assert!(app.update_video_frame(0).is_none());
    let (tx, frame_rx) = sync_channel(15);
    app.process_event(AppEvent::VideoReady { frame_rx, audio_path: None }, 0);
    for pts in [0.0, 0.5, 1.0] {
        tx.send(frame(pts)).unwrap();
    }
    while let Some(f) = app.frame_receiver().and_then(|rx| rx.try_recv().ok()) {
        app.receive_frame(f, 10 * SECOND);
    }
    let shown = app.update_video_frame(10 * SECOND).unwrap();
    assert_eq!(shown.pts_secs.bits, 0.0f64.to_bits());
    assert!(app.update_video_frame(10 * SECOND).is_none());
    let shown = app.update_video_frame(10 * SECOND + SECOND / 2).unwrap();
    assert_eq!(shown.pts_secs.bits, 0.5f64.to_bits());
    app.process_event(AppEvent::VideoEnded, 0);
    assert!(app.advance_if_finished(100 * SECOND).is_empty());
    assert!(app.scene().is_some());
    assert!(app.update_video_frame(100 * SECOND).is_some());
    app.advance_if_finished(100 * SECOND);
    assert!(app.scene().is_none());
}

#[test]
fn late_frames_are_dropped_for_the_latest() {
    let mut app = App::new();
    app.process_event(AppEvent::NewMediaChat(with_media("v", MediaType::Video)), 0);
    for pts in [0.0, 0.1, 0.2, 0.9, f64::NAN, 0.3] {
        app.receive_frame(frame(pts), 0);
    }
    let shown = app.update_video_frame(SECOND / 4).unwrap();
    assert_eq!(shown.pts_secs.bits, 0.2f64.to_bits());
    let shown = app.update_video_frame(SECOND).unwrap();
    assert_eq!(shown.pts_secs.bits, 0.9f64.to_bits());
    // What has no time is never due and holds up what is behind it.
    assert!(app.update_video_frame(900 * SECOND).is_none());
}

#[test]
fn an_ended_video_goes_with_its_last_frame() {
    let mut app = App::new();
    app.process_event(AppEvent::NewMediaChat(with_media("v", MediaType::Video)), 0);
    for pts in [0.0, 1.0, 2.0] {
        app.receive_frame(frame(pts), 3 * SECOND);
    }
    app.process_event(AppEvent::VideoEnded, 0);
    app.update_video_frame(5 * SECOND - 1);
    assert!(app.advance_if_finished(5 * SECOND - 1).is_empty());
    assert!(app.scene().is_some());
    assert_eq!(app.update_video_frame(5 * SECOND).unwrap().pts_secs.bits, 2.0f64.to_bits());
    app.advance_if_finished(5 * SECOND);
    assert!(app.scene().is_none());
}

#[test]
fn an_ended_video_without_frames_goes() {
    let mut app = App::new();
    app.process_event(AppEvent::NewMediaChat(with_media("v", MediaType::Video)), 0);
    assert!(app.advance_if_finished(900 * SECOND).is_empty());
    assert!(app.scene().is_some());
    app.process_event(AppEvent::VideoEnded, 0);
    app.advance_if_finished(0);
    assert!(app.scene().is_none());
}

#[test]
fn frames_only_arrive_for_videos() {
    let mut app = App::new();
    app.process_event(AppEvent::NewMediaChat(with_media("i", MediaType::Image)), 0);
    let (_tx, frame_rx) = sync_channel(15);
    app.process_event(AppEvent::VideoReady { frame_rx, audio_path: None }, 0);
    assert!(app.frame_receiver().is_none());
    app.receive_frame(frame(0.0), 0);
    assert!(app.update_video_frame(SECOND).is_none());
}

#[test]
fn downloads_become_textures() {
    let mut app = App::new();
    assert!(app.process_event(AppEvent::AvatarLoaded(png()), 0).is_empty());
    app.process_event(AppEvent::NewMediaChat(chat("a")), 0);
    let actions = app.process_event(AppEvent::AvatarLoaded(png()), 0);
    assert!(matches!(
        &actions[..],
        [Action::LoadTexture { slot: TextureSlot::Avatar, image }]
            if image.width == 2 && image.height == 2
    ));
    let actions = app.process_event(AppEvent::MediaImageLoaded(png()), 0);
    assert!(matches!(
        &actions[..],
        [Action::LoadTexture { slot: TextureSlot::Media, image }]
            if image.width == 4 && image.height == 2 && image.pixels[7].g == 20
    ));
    assert!(app.process_event(AppEvent::MediaImageLoaded(vec![1, 2]), 0).is_empty());
    assert!(app.process_event(AppEvent::AvatarLoaded(vec![1, 2]), 0).is_empty());
}

#[test]
fn late_events_change_nothing() {
    let mut app = App::new();
    let (_tx, frame_rx) = sync_channel(15);
    let ready = AppEvent::VideoReady { frame_rx, audio_path: Some("/tmp/x".to_string()) };
    assert!(app.process_event(ready, 0).is_empty());
    assert!(app.process_event(AppEvent::VideoEnded, 0).is_empty());
    assert!(app.process_event(AppEvent::MediaImageLoaded(png()), 0).is_empty());
    assert!(app.scene().is_none());
    assert!(app.close().is_empty());
}

#[test]
fn scenes_show_what_has_been_loaded() {
    let ctx = egui::Context::default();
    let (avatar, image, video) = (texture(&ctx, "a"), texture(&ctx, "m"), texture(&ctx, "v"));
    let mut app = App::new();
    app.process_event(AppEvent::NewMediaChat(chat("stra\u{df}e")), 0);
    {
        let scene = app.scene().unwrap();
        assert!(scene.author.is_none() && scene.media.is_none());
        let caption = scene.caption.unwrap();
        assert_eq!(caption.text, "STRASSE");
        assert_eq!(f32::from_bits(caption.size.bits), 36.0);
        assert_eq!((caption.color.r, caption.color.g, caption.color.b, caption.color.a), (255, 255, 255, 255));
    }
    app.texture_loaded(TextureSlot::Avatar, avatar.clone());
    app.texture_loaded(TextureSlot::Media, image.clone());
    {
        let scene = app.scene().unwrap();
        let author = scene.author.unwrap();
        assert_eq!((author.avatar.id(), author.name.as_str()), (avatar.id(), "STRASSE"));
        assert_eq!(scene.media.unwrap().id(), image.id());
    }
    app.texture_loaded(TextureSlot::Frame, video.clone());
    assert_eq!(app.scene().unwrap().media.unwrap().id(), video.id());
}

#[test]
fn scenes_follow_the_options() {
    let ctx = egui::Context::default();
    let options = |hide_author, color: Option<&str>, font_size: Option<f32>| {
        Some(ChatOptions {
            hide_author,
            text: Some(TextOptions {
                color: color.map(|c| c.to_string()),
                font_size: font_size.map(|s| FontSize { bits: s.to_bits() }),
            }),
        })
    };
    let mut app = App::new();
    let hidden = MediaChat { options: options(Some(true), Some("#0f0"), Some(12.5)), ..chat("a") };
    app.process_event(AppEvent::NewMediaChat(hidden), 0);
    app.texture_loaded(TextureSlot::Avatar, texture(&ctx, "a"));
    {
        let scene = app.scene().unwrap();
        assert!(scene.author.is_none());
        let caption = scene.caption.unwrap();
        assert_eq!(f32::from_bits(caption.size.bits), 12.5);
        assert_eq!((caption.color.r, caption.color.g, caption.color.b), (0, 255, 0));
    }
    let shown = MediaChat { options: options(Some(false), Some("nope"), None), ..chat("b") };
    app.process_event(AppEvent::Flush, 0);
    app.process_event(AppEvent::NewMediaChat(shown), 0);
    app.texture_loaded(TextureSlot::Avatar, texture(&ctx, "a"));
    let scene = app.scene().unwrap();
    assert!(scene.author.is_some());
    assert_eq!(scene.caption.unwrap().color.g, 255);
}

#[test]
fn empty_messages_have_no_caption() {
    let mut app = App::new();
    let empty = MediaChat { message: Some(String::new()), ..chat("a") };
    app.process_event(AppEvent::NewMediaChat(empty), 0);
    assert!(app.scene().unwrap().caption.is_none());
    app.process_event(AppEvent::Flush, 0);
    app.process_event(AppEvent::NewMediaChat(MediaChat { message: None, ..chat("a") }), 0);
    assert!(app.scene().unwrap().caption.is_none());
}

#[test]
fn broken_colors_are_found() {
    let mut app = App::new();
    assert!(!app.has_broken_color());
    let text = Some(TextOptions { color: Some("#a\u{e9}aaa".to_string()), font_size: None });
    let broken = MediaChat { options: Some(ChatOptions { hide_author: None, text }), ..chat("a") };
    app.process_event(AppEvent::NewMediaChat(broken), 0);
    assert!(app.has_broken_color());
    app.process_event(AppEvent::Skip, 0);
    app.process_event(AppEvent::NewMediaChat(chat("b")), 0);
    assert!(!app.has_broken_color());
}

#[test]
fn the_window_is_set_up_once() {
    let mut app = App::new();
    assert!(app.take_overlay_setup());
    assert!(!app.take_overlay_setup());
}

#[test]
fn finished_downloads_become_events() {
    assert!(matches!(
        download_finished(Asset::Avatar, Some(vec![1])),
        Some(AppEvent::AvatarLoaded(data)) if data == [1]
    ));
    assert!(matches!(
        download_finished(Asset::MediaImage, Some(vec![2])),
        Some(AppEvent::MediaImageLoaded(data)) if data == [2]
    ));
    assert!(download_finished(Asset::Avatar, None).is_none());
    assert!(download_finished(Asset::MediaImage, None).is_none());
}

#[test]
fn the_player_is_quiet_and_ends_by_itself() {
    let (program, args) = player_command("http://x/y.ogg");
    assert_eq!(program, "ffplay");
    assert_eq!(args, ["-nodisp", "-autoexit", "-loglevel", "quiet", "http://x/y.ogg"]);
}
