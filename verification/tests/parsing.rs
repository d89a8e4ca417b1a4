use beat::cleanup::messages_to_clean;
use beat::errors::BeatError;
use beat::persist::{line_count, playlists_body, split_lines};
use beat::playlist::{
    is_playlist_url, is_search_query, parse_usize, playlist_page_urls, playlist_selection,
    playlist_start_index, playlist_start_index_of_url,
};
use beat::queue::Queue;
use beat::track::TrackMetadata;

fn track_with_url(title: &str, url: Option<&str>) -> TrackMetadata {
    TrackMetadata {
        title: title.to_string(),
        artist: "artist".to_string(),
        duration_secs: 60,
        source_url: url.map(|u| u.to_string()),
        thumbnail: "https://img.example/t".to_string(),
    }
}

#[test]
fn parse_usize_accepts_plain_numbers() {
    assert_eq!(parse_usize("0"), Some(0));
    assert_eq!(parse_usize("42"), Some(42));
    assert_eq!(parse_usize("+7"), Some(7));
    assert_eq!(parse_usize("18446744073709551615"), Some(usize::MAX));
}

#[test]
fn parse_usize_rejects_everything_else() {
    assert_eq!(parse_usize(""), None);
    assert_eq!(parse_usize("+"), None);
    assert_eq!(parse_usize("abc"), None);
    assert_eq!(parse_usize("4a"), None);
    assert_eq!(parse_usize("-4"), None);
    assert_eq!(parse_usize(" 4"), None);
    assert_eq!(parse_usize("18446744073709551616"), None);
}

#[test]
fn start_index_takes_the_last_index_parameter() {
    let pairs = vec![
        ("a".to_string(), "1".to_string()),
        ("index".to_string(), "3".to_string()),
        ("index".to_string(), "5".to_string()),
    ];
    assert_eq!(playlist_start_index(&pairs), 5);
}

#[test]
fn start_index_defaults_to_one() {
    assert_eq!(playlist_start_index(&Vec::new()), 1);
    let no_index = vec![("list".to_string(), "x".to_string())];
    assert_eq!(playlist_start_index(&no_index), 1);
    let bad_value = vec![("index".to_string(), "x".to_string())];
    assert_eq!(playlist_start_index(&bad_value), 1);
}

#[test]
fn start_index_reads_real_urls() {
    assert_eq!(
        playlist_start_index_of_url("https://www.youtube.com/playlist?list=abc&index=5"),
        5
    );
    assert_eq!(
        playlist_start_index_of_url("https://www.youtube.com/playlist?list=abc"),
        1
    );
    // Query pairs come back percent-decoded.
    assert_eq!(
        playlist_start_index_of_url("https://example.com/p?index=%35"),
        5
    );
    assert_eq!(playlist_start_index_of_url("not a url"), 1);
}

#[test]
fn playlist_urls_and_search_queries_are_told_apart() {
    assert!(is_playlist_url("https://www.youtube.com/playlist?list=abc"));
    assert!(is_playlist_url("list="));
    assert!(!is_playlist_url("https://www.youtube.com/watch?v=abc"));
    assert!(!is_playlist_url("list"));
    assert!(!is_playlist_url(""));

    assert!(is_search_query("never gonna give you up"));
    assert!(is_search_query("htt"));
    assert!(!is_search_query("https://example.com"));
    assert!(!is_search_query("http://example.com"));
}

#[test]
fn playlist_selection_drops_entries_before_the_start() {
    let urls = vec!["a".to_string(), "b".to_string(), "c".to_string()];
    assert_eq!(
        playlist_selection(urls.clone(), 2),
        vec!["b".to_string(), "c".to_string()]
    );
    assert_eq!(playlist_selection(urls.clone(), 1), urls);
}

#[test]
fn page_urls_come_out_of_resolver_lines() {
    let lines = vec![
        "{\"webpage_url\": \"https://x\", \"id\": 1}".to_string(),
        "{\"webpage_url\": \"https://y\"}".to_string(),
    ];
    assert_eq!(
        playlist_page_urls(&lines),
        Some(vec!["https://x".to_string(), "https://y".to_string()])
    );
}

#[test]
fn page_urls_fail_on_a_bad_line() {
    let missing_field = vec!["{\"id\": 1}".to_string()];
    assert_eq!(playlist_page_urls(&missing_field), None);
    let not_json = vec!["nonsense".to_string()];
    assert_eq!(playlist_page_urls(&not_json), None);
    let not_a_string = vec!["{\"webpage_url\": 3}".to_string()];
    assert_eq!(playlist_page_urls(&not_a_string), None);
}

#[test]
fn split_lines_cuts_at_newlines() {
    assert_eq!(split_lines("a\nb\nc"), vec!["a", "b", "c"]);
    assert_eq!(split_lines("a\n"), vec!["a", ""]);
    assert_eq!(split_lines(""), vec![""]);
    assert_eq!(split_lines("\n"), vec!["", ""]);
}

#[test]
fn line_count_counts_as_a_reader_would() {
    assert_eq!(line_count(&b"a\nb".to_vec()), 2);
    assert_eq!(line_count(&b"a\n".to_vec()), 1);
    assert_eq!(line_count(&b"".to_vec()), 0);
    assert_eq!(line_count(&b"\n".to_vec()), 1);
    assert_eq!(line_count(&b"a\nb\nc\n".to_vec()), 3);
}

#[test]
fn playlists_body_lists_or_placeholder() {
    assert_eq!(playlists_body(&Vec::new()), "_None_");
    let entries = vec![("mix".to_string(), 3u64), ("road".to_string(), 12u64)];
    assert_eq!(playlists_body(&entries), "\n- mix (3 tracks)\n- road (12 tracks)");
}

#[test]
fn messages_to_clean_spares_only_the_status_message() {
    let msgs = vec![(10u64, 5u64), (11, 5), (12, 9), (10, 9)];
    // With a live status message 10 from someone else (author 9), only that
    // exact message survives.
    assert_eq!(
        messages_to_clean(&msgs, 5, Some(10)),
        vec!["10".to_string(), "11".to_string(), "12".to_string()]
    );
    // Without one, only the bot's own messages go.
    assert_eq!(
        messages_to_clean(&msgs, 5, None),
        vec!["10".to_string(), "11".to_string()]
    );
}

#[test]
fn playlist_file_contents_joins_source_urls() {
    let mut q = Queue::default();
    q.reset_for_play();
    q.insert_track(track_with_url("A", Some("https://a"))).unwrap();
    q.insert_track(track_with_url("B", Some("https://b"))).unwrap();
    assert!(q.all_sources_known());
    assert_eq!(q.playlist_file_contents(), Ok("https://a\nhttps://b".to_string()));
}

#[test]
fn playlist_file_contents_fails_without_a_source() {
    let mut q = Queue::default();
    q.reset_for_play();
    q.insert_track(track_with_url("A", Some("https://a"))).unwrap();
    q.insert_track(track_with_url("B", None)).unwrap();
    assert!(!q.all_sources_known());
    assert_eq!(q.playlist_file_contents(), Err(BeatError::NoCurrentSourceUrl));
}

#[test]
fn error_messages_describe_each_failure() {
    assert_eq!(BeatError::Stopping.message(), "The queue is stopping");
    assert_eq!(BeatError::NoGuild.message(), "No guild ID on that interaction");
    assert_eq!(BeatError::Other("custom").message(), "custom");
    assert_eq!(
        BeatError::NoPreviousSourceUrl.message(),
        "Previous track has no source URL"
    );
}
