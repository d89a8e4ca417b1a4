use beat::errors::BeatError;
use beat::events::EndedAction;
use beat::queue::Queue;
use beat::store::QueueStore;
use beat::track::TrackMetadata;
use beat::transport::{rotate_tail_to_front, StatusUpdate};
use std::collections::VecDeque;

fn track(title: &str, artist: &str, duration_secs: u64, url: Option<&str>) -> TrackMetadata {
    TrackMetadata {
        title: title.to_string(),
        artist: artist.to_string(),
        duration_secs,
        source_url: url.map(|u| u.to_string()),
        thumbnail: format!("https://img.example/{}", title),
    }
}

fn playing_queue(n: usize) -> Queue {
    let mut q = Queue::default();
    q.reset_for_play();
    for i in 0..n {
        let t = track(
            &format!("t{}", i),
            "artist",
            60,
            Some(&format!("https://media.example/{}", i)),
        );
        q.insert_track(t).unwrap();
    }
    q
}

#[test]
fn default_queue_is_empty_and_stopping() {
    let q = Queue::default();
    assert!(q.stopping);
    assert!(!q.did_skip);
    assert!(!q.pause);
    assert!(!q.repeat);
    assert_eq!(q.playing_index, 0);
    assert_eq!(q.message_id, None);
    assert!(q.queue.is_empty());
}

#[test]
fn reset_for_play_reopens_queue() {
    let mut q = playing_queue(2);
    q.reset_for_play();
    assert!(!q.stopping);
    assert!(q.queue.is_empty());
    assert_eq!(q.playing_index, 0);
}

#[test]
fn insert_rejected_while_stopping() {
    let mut q = Queue::default();
    let r = q.insert_track(track("a", "b", 10, None));
    assert_eq!(r, Err(BeatError::Stopping));
    assert!(q.queue.is_empty());
}

#[test]
fn round_trip_two_tracks_then_teardown() {
    let mut q = Queue::default();
    q.reset_for_play();

    let r = q.insert_track(track("A", "x", 60, Some("https://a"))).unwrap();
    assert_eq!(r, StatusUpdate::Create);
    q.record_status_message(7);

    let r = q.insert_track(track("B", "y", 60, Some("https://b"))).unwrap();
    assert_eq!(r, StatusUpdate::Edit(7));

    let titles: Vec<&str> = q.queue.iter().map(|t| t.title.as_str()).collect();
    assert_eq!(titles, vec!["A", "B"]);
    assert_eq!(q.playing_index, 0);

    assert_eq!(q.on_track_ended(), EndedAction::Advance);
    assert_eq!(q.playing_index, 1);

    assert_eq!(
        q.on_track_ended(),
        EndedAction::Teardown { delete_message: Some(7) }
    );
    assert!(q.stopping);
    assert!(q.queue.is_empty());
    assert_eq!(q.playing_index, 0);
    assert_eq!(q.message_id, None);
}

#[test]
fn ended_on_empty_queue_tears_down() {
    let mut q = Queue::default();
    q.reset_for_play();
    assert_eq!(
        q.on_track_ended(),
        EndedAction::Teardown { delete_message: None }
    );
    assert!(q.stopping);
}

#[test]
fn stop_wins_over_concurrent_insert_both_orders() {
    // Insert serialized before stop: the stop still ends in the reset state.
    let mut q = playing_queue(1);
    q.record_status_message(9);
    q.insert_track(track("B", "y", 60, None)).unwrap();
    let deleted = q.stop();
    assert_eq!(deleted, Some(9));
    assert!(q.stopping);
    assert!(q.queue.is_empty());
    assert_eq!(q.message_id, None);

    // Stop serialized before insert: the insert is rejected, the reset state stays.
    let r = q.insert_track(track("C", "z", 60, None));
    assert_eq!(r, Err(BeatError::Stopping));
    assert!(q.stopping);
    assert!(q.queue.is_empty());
}

#[test]
fn skip_leaves_state_untouched_and_end_event_advances_once() {
    let mut q = playing_queue(3);
    let before_index = q.playing_index;
    q.skip();
    assert_eq!(q.playing_index, before_index);
    assert!(!q.did_skip);
    // The end event the skip provokes advances exactly one step.
    assert_eq!(q.on_track_ended(), EndedAction::Advance);
    assert_eq!(q.playing_index, before_index + 1);
}

#[test]
fn previous_at_boundary_restarts_current() {
    let mut q = playing_queue(3);
    assert_eq!(q.playing_index, 0);
    let plan = q.previous().unwrap();
    assert_eq!(q.playing_index, 0);
    assert!(q.did_skip);
    assert_eq!(plan.rotate, 1);
    assert_eq!(plan.urls, vec!["https://media.example/0".to_string()]);
}

#[test]
fn previous_steps_back_and_reenqueues_both() {
    let mut q = playing_queue(3);
    q.playing_index = 2;
    let plan = q.previous().unwrap();
    assert_eq!(q.playing_index, 1);
    assert!(q.did_skip);
    assert_eq!(plan.rotate, 2);
    assert_eq!(
        plan.urls,
        vec![
            "https://media.example/1".to_string(),
            "https://media.example/2".to_string()
        ]
    );
}

#[test]
fn previous_then_end_event_does_not_advance_again() {
    let mut q = playing_queue(3);
    q.playing_index = 2;
    q.previous().unwrap();
    assert_eq!(q.playing_index, 1);
    // The stale track's end event consumes did_skip instead of advancing.
    assert_eq!(q.on_track_ended(), EndedAction::Advance);
    assert_eq!(q.playing_index, 1);
    assert!(!q.did_skip);
}

#[test]
fn previous_errors_leave_queue_unmodified() {
    let mut q = Queue::default();
    q.reset_for_play();
    assert_eq!(q.previous().unwrap_err(), BeatError::NoCurrentTrack);

    let mut q = Queue::default();
    q.reset_for_play();
    q.insert_track(track("A", "x", 60, None)).unwrap();
    q.insert_track(track("B", "y", 60, Some("https://b"))).unwrap();
    q.playing_index = 1;
    assert_eq!(q.previous().unwrap_err(), BeatError::NoPreviousSourceUrl);
    assert_eq!(q.playing_index, 1);
    assert!(!q.did_skip);

    let mut q = Queue::default();
    q.reset_for_play();
    q.insert_track(track("A", "x", 60, Some("https://a"))).unwrap();
    q.insert_track(track("B", "y", 60, None)).unwrap();
    q.playing_index = 1;
    assert_eq!(q.previous().unwrap_err(), BeatError::NoCurrentSourceUrl);
    assert_eq!(q.playing_index, 1);
}

#[test]
fn toggle_pause_flips_and_reports() {
    let mut q = playing_queue(1);
    assert!(q.toggle_pause());
    assert!(q.pause);
    assert!(!q.toggle_pause());
    assert!(!q.pause);
}

#[test]
fn toggle_repeat_flips_and_reports() {
    let mut q = playing_queue(1);
    assert!(q.toggle_repeat());
    assert!(q.repeat);
    assert!(!q.toggle_repeat());
    assert!(!q.repeat);
}

#[test]
fn end_event_clears_pause_and_repeat() {
    let mut q = playing_queue(3);
    q.toggle_pause();
    q.toggle_repeat();
    assert_eq!(q.on_track_ended(), EndedAction::Advance);
    assert!(!q.pause);
    assert!(!q.repeat);
}

#[test]
fn started_event_reports_status_message() {
    let mut q = playing_queue(1);
    assert_eq!(q.on_track_started(), None);
    q.record_status_message(42);
    assert_eq!(q.on_track_started(), Some(42));
}

#[test]
fn is_last_tracks_the_boundary() {
    let mut q = playing_queue(2);
    assert!(!q.is_last());
    q.playing_index = 1;
    assert!(q.is_last());
    let empty = Queue::default();
    assert!(empty.is_last());
}

#[test]
fn rotate_tail_to_front_moves_two_behind_active() {
    let mut q: VecDeque<u32> = VecDeque::new();
    for x in [0, 1, 2, 3, 4] {
        q.push_back(x);
    }
    rotate_tail_to_front(&mut q, 2);
    let got: Vec<u32> = q.into_iter().collect();
    assert_eq!(got, vec![0, 3, 4, 1, 2]);
}

#[test]
fn rotate_tail_to_front_single_entry() {
    let mut q: VecDeque<u32> = VecDeque::new();
    for x in [0, 1, 2] {
        q.push_back(x);
    }
    rotate_tail_to_front(&mut q, 1);
    let got: Vec<u32> = q.into_iter().collect();
    assert_eq!(got, vec![0, 2, 1]);
}

#[test]
fn store_tracks_rooms_exclusively() {
    let mut store = QueueStore::new();
    assert!(!store.contains_room(1));
    store.init_room(1);
    assert!(store.contains_room(1));

    let mut q = store.take_room(1).expect("room was tracked");
    assert!(!store.contains_room(1));
    assert!(store.take_room(1).is_none());

    q.reset_for_play();
    q.insert_track(track("A", "x", 60, None)).unwrap();
    store.put_room(1, q);
    assert!(store.contains_room(1));

    let q = store.take_room(1).unwrap();
    assert_eq!(q.queue.len(), 1);
    store.put_room(1, q);

    store.remove_room(1);
    assert!(!store.contains_room(1));
}
