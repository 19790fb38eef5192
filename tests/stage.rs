use tyrs_tunes::stage::{initialize_stage, tags_match, Filter, Stage};
use tyrs_tunes::text::{split_commas, tag_list, trim, trim_start, trimmed_list};
use tyrs_tunes::track::Track;

fn create_test_tracks() -> Vec<Track> {
    vec![
        Track {
            title: "Song 1".to_string(),
            artist: "Artist A".to_string(),
            tags: "rock,90s".to_string(),
            path: "/music/song1.mp3".to_string(),
        },
        Track {
            title: "Song 2".to_string(),
            artist: "Artist B".to_string(),
            tags: "pop,80s".to_string(),
            path: "/music/song2.mp3".to_string(),
        },
        Track {
            title: "Song 3".to_string(),
            artist: "Artist C".to_string(),
            tags: "rock,80s".to_string(),
            path: "/music/song3.mp3".to_string(),
        },
    ]
}

fn all_tags() -> Vec<String> {
    vec!["rock".to_string(), "pop".to_string(), "80s".to_string(), "90s".to_string()]
}

#[test]
fn test_update_visible_tracks_no_filter() {
    let mut stage = Stage {
        tracks: create_test_tracks(),
        visible_tracks: Vec::new(),
        tags: all_tags(),
        selected_tags: Vec::new(),
        filter: Filter::Off,
    };

    stage.update_visible_tracks();
    assert_eq!(stage.visible_tracks.len(), 3);
}

#[test]
fn test_update_visible_tracks_and_filter() {
    let mut stage = Stage {
        tracks: create_test_tracks(),
        visible_tracks: Vec::new(),
        tags: all_tags(),
        selected_tags: vec!["rock".to_string(), "80s".to_string()],
        filter: Filter::And,
    };

    stage.update_visible_tracks();
    assert_eq!(stage.visible_tracks.len(), 1);
    assert_eq!(stage.visible_tracks[0].title, "Song 3");
}

#[test]
fn test_update_visible_tracks_or_filter() {
    let mut stage = Stage {
        tracks: create_test_tracks(),
        visible_tracks: Vec::new(),
        tags: all_tags(),
        selected_tags: vec!["rock".to_string(), "pop".to_string()],
        filter: Filter::Or,
    };

    stage.update_visible_tracks();
    assert_eq!(stage.visible_tracks.len(), 3);
}

#[test]
fn test_update_selected_tags() {
    let mut stage = Stage {
        tracks: create_test_tracks(),
        visible_tracks: Vec::new(),
        tags: all_tags(),
        selected_tags: Vec::new(),
        filter: Filter::And,
    };

    stage.update_selected_tags(vec!["rock".to_string()]);
    assert_eq!(stage.selected_tags, vec!["rock".to_string()]);
    assert_eq!(stage.visible_tracks.len(), 2);
}

#[test]
fn test_update_filter() {
    let mut stage = Stage {
        tracks: create_test_tracks(),
        visible_tracks: Vec::new(),
        tags: all_tags(),
        selected_tags: vec!["rock".to_string(), "80s".to_string()],
        filter: Filter::And,
    };

    stage.update_filter(Filter::Or);
    assert!(matches!(stage.filter, Filter::Or));
    assert_eq!(stage.visible_tracks.len(), 3);
}

#[test]
fn off_filter_shows_every_track_despite_selection() {
    let mut stage = Stage {
        tracks: create_test_tracks(),
        visible_tracks: Vec::new(),
        tags: all_tags(),
        selected_tags: vec!["jazz".to_string()],
        filter: Filter::Off,
    };
    stage.update_visible_tracks();
    assert_eq!(stage.visible_tracks.len(), 3);
}

#[test]
fn and_filter_with_unknown_tag_shows_nothing() {
    let mut stage = Stage {
        tracks: create_test_tracks(),
        visible_tracks: vec![create_test_tracks()[0].clone()],
        tags: all_tags(),
        selected_tags: vec!["rock".to_string(), "jazz".to_string()],
        filter: Filter::And,
    };
    stage.update_visible_tracks();
    assert!(stage.visible_tracks.is_empty());
}

#[test]
fn or_filter_keeps_track_order() {
    let mut stage = Stage {
        tracks: create_test_tracks(),
        visible_tracks: Vec::new(),
        tags: all_tags(),
        selected_tags: vec!["80s".to_string()],
        filter: Filter::Or,
    };
    stage.update_visible_tracks();
    let titles: Vec<&str> = stage.visible_tracks.iter().map(|t| t.title.as_str()).collect();
    assert_eq!(titles, vec!["Song 2", "Song 3"]);
}

#[test]
fn tags_after_commas_lose_leading_spaces() {
    let mut tracks = create_test_tracks();
    tracks[0].tags = "rock, 90s".to_string();
    let mut stage = Stage {
        tracks,
        visible_tracks: Vec::new(),
        tags: all_tags(),
        selected_tags: vec!["90s".to_string()],
        filter: Filter::And,
    };
    stage.update_visible_tracks();
    assert_eq!(stage.visible_tracks.len(), 1);
    assert_eq!(stage.visible_tracks[0].title, "Song 1");
}

#[test]
fn initialize_stage_collects_distinct_tags_in_order() {
    let stage = initialize_stage(create_test_tracks());
    assert_eq!(stage.tags, vec!["rock", "90s", "pop", "80s"]);
    assert_eq!(stage.tracks.len(), 3);
    assert!(stage.visible_tracks.is_empty());
    assert!(stage.selected_tags.is_empty());
    assert_eq!(stage.filter, Filter::Off);
}

#[test]
fn initialize_stage_without_tracks_has_no_tags() {
    let stage = initialize_stage(Vec::new());
    assert!(stage.tags.is_empty());
}

#[test]
fn tags_match_by_mode() {
    let track_tags = vec!["rock".to_string(), "80s".to_string()];
    let both = vec!["rock".to_string(), "80s".to_string()];
    let one = vec!["rock".to_string(), "pop".to_string()];
    assert!(tags_match(&track_tags, &both, Filter::And));
    assert!(!tags_match(&track_tags, &one, Filter::And));
    assert!(tags_match(&track_tags, &one, Filter::Or));
    assert!(!tags_match(&track_tags, &vec!["pop".to_string()], Filter::Or));
    assert!(tags_match(&track_tags, &vec!["pop".to_string()], Filter::Off));
}

#[test]
fn split_commas_keeps_empty_pieces() {
    assert_eq!(split_commas("a,,b,"), vec!["a", "", "b", ""]);
    assert_eq!(split_commas(""), vec![""]);
    assert_eq!(split_commas("rock"), vec!["rock"]);
}

#[test]
fn trim_start_drops_leading_white_space_only() {
    assert_eq!(trim_start(" \t rock "), "rock ");
    assert_eq!(trim_start("   "), "");
    assert_eq!(trim_start("pop"), "pop");
}

#[test]
fn tag_list_splits_and_trims() {
    assert_eq!(tag_list("rock,  90s,\tindie"), vec!["rock", "90s", "indie"]);
}

#[test]
fn trim_drops_white_space_at_both_ends() {
    assert_eq!(trim("  Moody \n"), "Moody");
    assert_eq!(trim(" \t "), "");
    assert_eq!(trim("a b"), "a b");
}

#[test]
fn trimmed_list_trims_every_piece() {
    assert_eq!(trimmed_list(" a , b ,c"), vec!["a", "b", "c"]);
}

#[test]
fn track_from_tag_uses_defaults() {
    let t = Track::from_tag(None, None, None, "/music/x.mp3".to_string());
    assert_eq!(t.title, "Unknown Title");
    assert_eq!(t.artist, "Unknown Artist");
    assert_eq!(t.tags, "None");
    assert_eq!(t.path, "/music/x.mp3");
    let t = Track::from_tag(
        Some("Song".to_string()),
        Some("Band".to_string()),
        Some("rock,indie".to_string()),
        "/music/y.mp3".to_string(),
    );
    assert_eq!(t.title, "Song");
    assert_eq!(t.artist, "Band");
    assert_eq!(t.tags, "rock,indie");
}

#[test]
fn trim_handles_unicode_white_space() {
    assert_eq!(trim("\u{3000}\u{a0}rock\u{2009}\u{85}"), "rock");
    assert_eq!(trim_start("\u{200b}x"), "\u{200b}x");
}
