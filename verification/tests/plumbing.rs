use mediachat_native::overlay::{color_key, color_ref, frameless_style, overlay_style};
use mediachat_native::picture::Color;
use mediachat_native::scene::outlined_text;
use mediachat_native::socket::{respond, Notice};
use mediachat_native::types::{AppEvent, Author, MediaChat};
use mediachat_native::video::{DecodeStep, Order, Outcome, Pipeline, Reply, FRAME_BUF};
use std::collections::VecDeque;

fn chat(name: &str) -> MediaChat {
    MediaChat {
        author: Author { name: name.to_string(), image: None },
        media: None,
        message: None,
        duration: None,
        options: None,
    }
}

#[test]
fn styles_lose_the_frame_and_nothing_else() {
    assert_eq!(frameless_style(0x14cf_0000), 0x1400_0000);
    assert_eq!(frameless_style(-1), 0xff30_ffffu32 as i32);
    assert_eq!(frameless_style(frameless_style(0x14cf_1234)), 0x1400_1234);
    assert_eq!(overlay_style(0x100), 0x0008_0120);
    assert_eq!(overlay_style(overlay_style(0)), 0x0008_0020);
}

#[test]
fn the_key_is_the_fill() {
    let key = color_key();
    assert_eq!((key.r, key.g, key.b, key.a), (1, 0, 1, 255));
    assert_eq!(color_ref(key), 0x0001_0001);
    assert_eq!(color_ref(Color { r: 0x11, g: 0x22, b: 0x33, a: 0 }), 0x0033_2211);
}

#[test]
fn outlines_are_drawn_before_the_text() {
    let (fill, outline) = (Color { r: 9, g: 8, b: 7, a: 255 }, Color { r: 0, g: 0, b: 0, a: 255 });
    let strokes = outlined_text(fill, outline);
    let moves: Vec<(i32, i32)> = strokes.iter().map(|s| (s.dx, s.dy)).collect();
    assert_eq!(moves, [(-1, -1), (1, -1), (-1, 1), (1, 1), (0, 0)]);
    assert!(strokes[..4].iter().all(|s| s.color == outline));
    assert_eq!(strokes[4].color, fill);
}

#[test]
fn a_connection_joins_the_room() {
    let r = respond(Notice::Connect, "kitchen");
    assert_eq!(r.join.as_deref(), Some("kitchen"));
    assert!(r.events.is_empty());
}

#[test]
fn unreadable_messages_are_passed_over() {
    let parsed = VecDeque::from(vec![Some(chat("a")), None, Some(chat("b")), None]);
    let r = respond(Notice::MediaChat(Some(parsed)), "kitchen");
    assert!(r.join.is_none());
    let names: Vec<String> = r
        .events
        .into_iter()
        .map(|event| match event {
            AppEvent::NewMediaChat(chat) => chat.author.name,
            _ => panic!("another event"),
        })
        .collect();
    assert_eq!(names, ["a", "b"]);
    assert!(respond(Notice::MediaChat(None), "kitchen").events.is_empty());
}

#[test]
fn commands_are_passed_on() {
    assert!(matches!(respond(Notice::Flush, "r").events[..], [AppEvent::Flush]));
    assert!(matches!(respond(Notice::Skip, "r").events[..], [AppEvent::Skip]));
    let r = respond(Notice::Error, "r");
    assert!(r.join.is_none() && r.events.is_empty());
}

#[test]
fn a_video_with_sound_runs_through() {
    let (mut pipeline, first) = Pipeline::start("http://v".to_string());
    assert!(matches!(first, Order::Download { url } if url == "http://v"));
    assert!(matches!(pipeline.step(Outcome::Downloaded)[..], [Order::Store]));
    let orders = pipeline.step(Outcome::Stored { path: "/tmp/v".to_string() });
    assert!(matches!(&orders[..], [Order::Probe { path }] if path == "/tmp/v"));
    let orders = pipeline.step(Outcome::Probed { has_audio: true });
    assert!(matches!(
        &orders[..],
        [Order::AnnounceReady { audio_path: Some(a) }, Order::Decode { path }]
            if a == "/tmp/v" && path == "/tmp/v"
    ));
    let orders = pipeline.step(Outcome::Decoded);
    assert!(matches!(
        &orders[..],
        [Order::AnnounceEnded, Order::RemoveFile { path }] if path == "/tmp/v"
    ));
}

#[test]
fn every_failure_announces_the_end_and_removes_the_file() {
    for steps in 0..4 {
        let (mut pipeline, _) = Pipeline::start("u".to_string());
        let outcomes = vec![
            Outcome::Downloaded,
            Outcome::Stored { path: "p".to_string() },
            Outcome::Probed { has_audio: false },
        ];
        let mut ready = 0;
        for outcome in outcomes.into_iter().take(steps) {
            for order in pipeline.step(outcome) {
                assert!(!matches!(order, Order::AnnounceEnded));
                if matches!(order, Order::AnnounceReady { audio_path: None }) {
                    ready += 1;
                }
            }
        }
        assert_eq!(ready, if steps == 3 { 1 } else { 0 });
        let orders = pipeline.step(Outcome::Failed);
        assert!(matches!(orders[0], Order::AnnounceEnded));
        if steps < 2 {
            // Nothing has been kept yet.
            assert_eq!(orders.len(), 1);
        } else {
            assert!(matches!(&orders[1..], [Order::RemoveFile { path }] if path == "p"));
        }
    }
}

#[test]
fn decoding_passes_over_other_streams() {
    let read = DecodeStep::ReadPacket;
    assert_eq!(read.next(2, Reply::Packet(1)), DecodeStep::ReadPacket);
    assert_eq!(read.next(2, Reply::Packet(2)), DecodeStep::SendPacket);
    assert_eq!(read.next(2, Reply::NoPacket), DecodeStep::SendEof);
}

#[test]
fn decoding_drains_and_flushes() {
    for flushing in [false, true] {
        let receive = DecodeStep::ReceiveFrame { flushing };
        let scale = receive.next(0, Reply::Done);
        assert_eq!(scale, DecodeStep::ScaleFrame { flushing });
        let deliver = scale.next(0, Reply::Done);
        assert_eq!(deliver, DecodeStep::DeliverFrame { flushing });
        assert_eq!(deliver.next(0, Reply::Done), receive);
        assert_eq!(deliver.next(0, Reply::Refused), DecodeStep::Finished);
        assert_eq!(scale.next(0, Reply::Refused), DecodeStep::Failed);
        let drained = receive.next(0, Reply::Refused);
        let expected = if flushing { DecodeStep::Finished } else { DecodeStep::ReadPacket };
        assert_eq!(drained, expected);
    }
    assert_eq!(DecodeStep::SendPacket.next(0, Reply::Done), DecodeStep::ReceiveFrame { flushing: false });
    assert_eq!(DecodeStep::SendEof.next(0, Reply::Done), DecodeStep::ReceiveFrame { flushing: true });
    assert_eq!(DecodeStep::SendPacket.next(0, Reply::Refused), DecodeStep::Failed);
    assert_eq!(DecodeStep::SendEof.next(0, Reply::Refused), DecodeStep::Failed);
}

#[test]
fn each_frame_is_delivered_once() {
    // Two packets with two frames and one, a foreign packet, and one frame at the end.
    let mut replies = VecDeque::from(vec![Reply::Packet(1), Reply::Packet(0), Reply::Done]);
    replies.extend([Reply::Done; 6]);
    replies.extend([Reply::Refused, Reply::Packet(0)]);
    replies.extend([Reply::Done; 4]);
    replies.extend([Reply::Refused, Reply::NoPacket]);
    replies.extend([Reply::Done; 4]);
    replies.push_back(Reply::Refused);
    let (mut received, mut delivered) = (0, 0);
    let mut step = DecodeStep::ReadPacket;
    while let Some(reply) = replies.pop_front() {
        if matches!((step, reply), (DecodeStep::ReceiveFrame { .. }, Reply::Done)) {
            received += 1;
        }
        if matches!(step, DecodeStep::DeliverFrame { .. }) {
            delivered += 1;
        }
        step = step.next(0, reply);
    }
    assert_eq!((step, received, delivered), (DecodeStep::Finished, 4, 4));
}

#[test]
fn fifteen_frames_may_wait() {
    assert_eq!(FRAME_BUF, 15);
}
