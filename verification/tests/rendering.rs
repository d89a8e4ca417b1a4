use beat::numfmt::u64_to_dec;
use beat::queue::Queue;
use beat::render::{
    durations_fit, get_short_playlist, join_strings, readable_duration, readable_elapsed,
    to_embed,
};
use beat::track::TrackMetadata;

fn track(title: &str, artist: &str, duration_secs: u64, url: Option<&str>) -> TrackMetadata {
    TrackMetadata {
        title: title.to_string(),
        artist: artist.to_string(),
        duration_secs,
        source_url: url.map(|u| u.to_string()),
        thumbnail: format!("https://img.example/{}", title),
    }
}

fn titles(n: usize) -> Vec<String> {
    (0..n).map(|i| format!("t{}", i)).collect()
}

#[test]
fn u64_to_dec_renders_decimal() {
    assert_eq!(u64_to_dec(0), "0");
    assert_eq!(u64_to_dec(7), "7");
    assert_eq!(u64_to_dec(1234567890), "1234567890");
    assert_eq!(u64_to_dec(u64::MAX), "18446744073709551615");
}

#[test]
fn readable_duration_formats_parts() {
    assert_eq!(readable_duration(0), "00");
    assert_eq!(readable_duration(59), "59");
    assert_eq!(readable_duration(65), "01:05");
    assert_eq!(readable_duration(7384), "02:03:04");
    // An exact hour renders without a minute part.
    assert_eq!(readable_duration(3605), "01:05");
}

#[test]
fn readable_elapsed_mirrors_total_shape() {
    assert_eq!(readable_elapsed(30, 59), "30/59");
    assert_eq!(readable_elapsed(5, 65), "00:05/01:05");
    assert_eq!(readable_elapsed(3700, 7384), "01:01:40/02:03:04");
}

#[test]
fn join_strings_uses_separator() {
    let parts: Vec<String> = vec!["a".to_string(), "b".to_string(), "c".to_string()];
    assert_eq!(join_strings(&parts, ","), "a,b,c");
    assert_eq!(join_strings(&Vec::new(), ","), "");
    assert_eq!(join_strings(&vec!["solo".to_string()], ","), "solo");
}

#[test]
fn short_playlist_empty_and_whole() {
    assert_eq!(get_short_playlist(0, &Vec::new(), 2), Vec::<String>::new());
    let rows = get_short_playlist(1, &titles(3), 2);
    assert_eq!(rows, vec!["- 1. t0", "▶️ 2. t1", "- 3. t2"]);
}

#[test]
fn window_at_left_edge_keeps_both_anchors() {
    let rows = get_short_playlist(0, &titles(10), 2);
    assert_eq!(
        rows,
        vec!["▶️ 1. t0", "- 2. t1", "- 3. t2", "- 4. t3", "- 5. t4", "- 10. t9"]
    );
    assert!(rows.len() <= 2 * 2 + 3);
    assert!(rows.iter().any(|r| r.contains("1. t0")));
    assert!(rows.iter().any(|r| r.contains("10. t9")));
}

#[test]
fn window_at_right_edge_keeps_both_anchors() {
    let rows = get_short_playlist(9, &titles(10), 2);
    assert_eq!(
        rows,
        vec!["- 1. t0", "- 6. t5", "- 7. t6", "- 8. t7", "- 9. t8", "▶️ 10. t9"]
    );
    assert!(rows.len() <= 2 * 2 + 3);
}

#[test]
fn window_in_the_middle_is_symmetric() {
    let rows = get_short_playlist(5, &titles(10), 2);
    assert_eq!(
        rows,
        vec!["- 1. t0", "- 4. t3", "- 5. t4", "▶️ 6. t5", "- 7. t6", "- 8. t7", "- 10. t9"]
    );
    assert_eq!(rows.len(), 2 * 2 + 3);
}

#[test]
fn durations_fit_detects_overflow() {
    let mut q = Queue::default();
    q.reset_for_play();
    q.insert_track(track("A", "x", 60, None)).unwrap();
    q.insert_track(track("B", "y", u64::MAX - 59, None)).unwrap();
    assert!(!durations_fit(&q));
    let mut q = Queue::default();
    q.reset_for_play();
    q.insert_track(track("A", "x", 60, None)).unwrap();
    assert!(durations_fit(&q));
}

#[test]
fn to_embed_renders_the_whole_payload() {
    let mut q = Queue::default();
    q.reset_for_play();
    q.insert_track(track("A", "Artist1", 65, Some("https://a"))).unwrap();
    q.insert_track(track("B", "Artist2", 65, Some("https://b"))).unwrap();
    q.toggle_repeat();

    let payload = to_embed(&q);
    assert_eq!(payload.title, "**A (01:05) - Artist1**");
    assert_eq!(
        payload.description,
        "▶️ 1. A (01:05) - Artist1\n- 2. B (01:05) - Artist2"
    );
    assert_eq!(payload.url, "https://a");
    assert_eq!(payload.thumbnail, "https://img.example/A");
    assert_eq!(payload.footer, "1 of 2 tracks - 00:00/02:10 (02:10 left)");
    assert_eq!(payload.pause_emoji, "⏸️");
    assert_eq!(payload.pause_style, 1);
    assert_eq!(payload.loop_style, 3);
}

#[test]
fn to_embed_paused_swaps_the_button() {
    let mut q = Queue::default();
    q.reset_for_play();
    q.insert_track(track("A", "Artist1", 5, Some("https://a"))).unwrap();
    q.toggle_pause();
    let payload = to_embed(&q);
    assert_eq!(payload.pause_emoji, "▶️");
    assert_eq!(payload.pause_style, 3);
    assert_eq!(payload.loop_style, 2);
    assert_eq!(payload.footer, "1 of 1 tracks - 00/05 (05 left)");
}
