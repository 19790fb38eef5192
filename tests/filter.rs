use tyrs_tunes::tracks::filter::{
    comments_match, filter_tracks_by_comments, get_all_comments_unique, FilterMode,
};
use tyrs_tunes::tracks::models::{comments_from_frames, Track};

fn create_test_tracks() -> Vec<Track> {
    vec![
        Track::new(
            "Divine1".to_string(),
            "Gar".to_string(),
            vec!["Moody".to_string(), "Atmospheric".to_string()],
            "/fake/path/divine1.mp3".to_string(),
        ),
        Track::new(
            "Divine2".to_string(),
            "Yar".to_string(),
            vec!["Moody".to_string(), "Exciting".to_string()],
            "/fake/path/divine2.mp3".to_string(),
        ),
        Track::new(
            "Powerful".to_string(),
            "Gar".to_string(),
            vec!["Atmospheric".to_string(), "Energetic".to_string()],
            "/fake/path/powerful.mp3".to_string(),
        ),
    ]
}

fn titles(tracks: &[Track]) -> Vec<&str> {
    tracks.iter().map(|t| t.title.as_str()).collect()
}

#[test]
fn filter_test_filter_tracks_by_comments() {
    let tracks = create_test_tracks();

    let filtered_tracks =
        filter_tracks_by_comments(tracks, &["Moody", "Atmospheric"], FilterMode::And);
    assert_eq!(filtered_tracks.len(), 1);
    assert_eq!(filtered_tracks[0].title, "Divine1");
    assert_eq!(filtered_tracks[0].artist, "Gar");
    assert_eq!(
        filtered_tracks[0].comments_vec,
        vec!["Moody".to_string(), "Atmospheric".to_string()]
    );
}

#[test]
fn filter_test_get_all_comments_unique() {
    let tracks = create_test_tracks();

    let comments = get_all_comments_unique(tracks);
    let expected_comments = vec![
        "Atmospheric".to_string(),
        "Energetic".to_string(),
        "Exciting".to_string(),
        "Moody".to_string(),
    ];
    assert_eq!(comments, expected_comments);
}

#[test]
fn or_mode_keeps_tracks_with_any_word() {
    let filtered = filter_tracks_by_comments(create_test_tracks(), &["Exciting", "Energetic"], FilterMode::Or);
    assert_eq!(titles(&filtered), vec!["Divine2", "Powerful"]);
}

#[test]
fn both_mode_passes_what_either_passes() {
    let filtered = filter_tracks_by_comments(create_test_tracks(), &["Moody", "Energetic"], FilterMode::Both);
    assert_eq!(titles(&filtered), vec!["Divine1", "Divine2", "Powerful"]);
}

#[test]
fn no_words_pass_and_but_not_or() {
    assert_eq!(filter_tracks_by_comments(create_test_tracks(), &[], FilterMode::And).len(), 3);
    assert_eq!(filter_tracks_by_comments(create_test_tracks(), &[], FilterMode::Or).len(), 0);
    assert_eq!(filter_tracks_by_comments(create_test_tracks(), &[], FilterMode::Both).len(), 3);
}

#[test]
fn filter_keeps_path() {
    let filtered = filter_tracks_by_comments(create_test_tracks(), &["Energetic"], FilterMode::And);
    assert_eq!(filtered.len(), 1);
    assert_eq!(filtered[0].path(), "/fake/path/powerful.mp3");
}

#[test]
fn comments_match_is_case_sensitive() {
    let comments = vec!["Moody".to_string()];
    assert!(comments_match(&comments, &["Moody"], FilterMode::And));
    assert!(!comments_match(&comments, &["moody"], FilterMode::Or));
}

#[test]
fn unique_comments_sorted_by_code_point() {
    let tracks = vec![Track::new(
        "t".to_string(),
        "a".to_string(),
        vec!["b".to_string(), "B".to_string(), "ab".to_string(), "b".to_string(), "a".to_string()],
        "/x.mp3".to_string(),
    )];
    assert_eq!(get_all_comments_unique(tracks), vec!["B", "a", "ab", "b"]);
}

#[test]
fn unique_comments_of_no_tracks() {
    assert!(get_all_comments_unique(Vec::new()).is_empty());
}

#[test]
fn comments_from_frames_split_and_trim() {
    let frames = vec![" Moody , Atmospheric".to_string(), "Divine".to_string()];
    assert_eq!(comments_from_frames(&frames), vec!["Moody", "Atmospheric", "Divine"]);
    assert!(comments_from_frames(&Vec::new()).is_empty());
}

#[test]
fn track_from_tag_fills_missing_fields_empty() {
    let t = Track::from_tag(
        Some("Divine1".to_string()),
        None,
        &vec!["Moody, Atmospheric".to_string()],
        "/home/songs/Divine1.mp3".to_string(),
    );
    assert_eq!(t.title, "Divine1");
    assert_eq!(t.artist, "");
    assert_eq!(t.comments_vec, vec!["Moody", "Atmospheric"]);
    assert_eq!(t.path(), "/home/songs/Divine1.mp3");
}
