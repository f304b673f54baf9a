//! Tests of the search evaluation and the media reorganisation plans.
use facebook_data_parser::messages::{Message, MessageFile, MessagePhoto, MessageVideo};
use facebook_data_parser::reorg::{civil_from_ts, list_files, plan_reorg_images, plan_reorg_videos};
use facebook_data_parser::search::{run_search, SearchMenu, SearchTerms};
use facebook_data_parser::{ActivityTypes, Folders, Skippable};

fn plain_message(ts: u64, content: &str) -> Message {
    Message {
        sender_name: "alice".to_string(),
        is_unsent: None,
        timestamp_ms: ts,
        content: Some(content.to_string()),
        share: None,
        videos: None,
        reactions: None,
        photos: None,
        gifs: None,
        is_geoblocked_for_viewer: false,
        call_duration: None,
        sticker: None,
        files: None,
        audio_files: None,
        ip: None,
        missed: None,
    }
}

fn corpus() -> Vec<Message> {
    vec![
        plain_message(10, "alpha"),
        plain_message(20, "beta"),
        plain_message(30, "alphabeta"),
    ]
}

#[test]
fn search_applies_all_set_conditions() {
    let mut terms = SearchTerms::default();
    terms.earliest = Some(15);
    terms.latest = Some(25);
    terms.string = Some("beta".to_string());
    let hits = run_search(corpus(), &terms);
    assert_eq!(hits.len(), 1);
    assert_eq!(hits[0].timestamp_ms, 20);
    assert!(hits[0].content.as_ref().unwrap() == "beta");
}

#[test]
fn search_with_unmatched_pattern_yields_nothing() {
    let mut terms = SearchTerms::default();
    terms.earliest = Some(15);
    terms.latest = Some(25);
    terms.string = Some("beta".to_string());
    terms.regex = Some("^gamma$".to_string());
    let hits = run_search(corpus(), &terms);
    assert!(hits.is_empty());
}

#[test]
fn search_with_no_conditions_returns_all_in_order() {
    let terms = SearchTerms::default();
    let hits = run_search(corpus(), &terms);
    let stamps: Vec<u64> = hits.iter().map(|m| m.timestamp_ms).collect();
    assert_eq!(stamps, vec![10, 20, 30]);
}

#[test]
fn search_substring_and_pattern_use_content() {
    let mut terms = SearchTerms::default();
    terms.string = Some("alpha".to_string());
    let hits = run_search(corpus(), &terms);
    let stamps: Vec<u64> = hits.iter().map(|m| m.timestamp_ms).collect();
    assert_eq!(stamps, vec![10, 30]);

    let mut terms2 = SearchTerms::default();
    terms2.regex = Some("^beta$".to_string());
    let hits2 = run_search(corpus(), &terms2);
    let stamps2: Vec<u64> = hits2.iter().map(|m| m.timestamp_ms).collect();
    assert_eq!(stamps2, vec![20]);
}

#[test]
fn missing_content_reads_as_empty_for_matching() {
    let mut m = plain_message(5, "");
    m.content = None;
    let mut terms = SearchTerms::default();
    terms.string = Some("a".to_string());
    assert!(run_search(vec![m], &terms).is_empty());
}

#[test]
fn setters_validate_their_input() {
    let mut terms = SearchTerms::default();
    assert!(terms.set_earliest_from_text("2021-01-01T00:00:00Z"));
    assert_eq!(terms.earliest, Some(1609459200000));
    assert!(!terms.set_latest_from_text("not a date"));
    assert!(terms.latest.is_none());
    assert!(terms.set_latest_from_text("2021-01-02T00:00:00+00:00"));
    assert_eq!(terms.latest, Some(1609545600000));
    assert!(!terms.set_string("   ".to_string()));
    assert!(terms.string.is_none());
    assert!(terms.set_string("hello".to_string()));
    assert!(!terms.set_regex("[".to_string()));
    assert!(terms.regex.is_none());
    assert!(terms.set_regex("a+".to_string()));
    terms.clear_earliest();
    terms.clear_latest();
    terms.clear_string();
    terms.clear_regex();
    assert!(terms.earliest.is_none() && terms.latest.is_none());
    assert!(terms.string.is_none() && terms.regex.is_none());
}

#[test]
fn menu_labels_and_order() {
    let all = SearchMenu::all();
    assert_eq!(all.len(), 10);
    assert_eq!(all[0].label(), "Set Earliest Date");
    assert_eq!(all[8].label(), "Run");
    assert_eq!(all[9].label(), "Quit");
    assert!(SearchMenu::from_index(4) == SearchMenu::SetString);
    assert!(SearchMenu::from_index(9) == SearchMenu::Quit);
}

#[test]
fn reorg_photo_destination_naming() {
    let mut m = plain_message(1, "x");
    m.photos = Some(vec![MessagePhoto {
        uri: "photos/img1.jpg".to_string(),
        creation_timestamp: Some(1614834367),
    }]);
    let ops = plan_reorg_images(&vec![m], "alice").unwrap();
    assert_eq!(ops.len(), 1);
    assert_eq!(ops[0].src, "data/photos/img1.jpg");
    assert_eq!(ops[0].dest_dir, "output/alice/2021/03");
    assert_eq!(ops[0].dest, "output/alice/2021/03/2021-03-04-05-06-07-img1.jpg");
}

#[test]
fn reorg_video_destination_naming() {
    let mut m = plain_message(1, "x");
    m.videos = Some(vec![MessageVideo {
        uri: "videos/clip.mp4".to_string(),
        creation_timestamp: 1582977600,
    }]);
    let ops = plan_reorg_videos(&vec![m], "bob").unwrap();
    assert_eq!(ops.len(), 1);
    assert_eq!(ops[0].dest, "output/bob/2020/02/2020-02-29-12-00-00-clip.mp4");
}

#[test]
fn reorg_photo_without_timestamp_is_an_explicit_error() {
    let mut m = plain_message(1, "x");
    m.photos = Some(vec![
        MessagePhoto {
            uri: "photos/ok.jpg".to_string(),
            creation_timestamp: Some(1614834367),
        },
        MessagePhoto {
            uri: "photos/bare.jpg".to_string(),
            creation_timestamp: None,
        },
    ]);
    let r = plan_reorg_images(&vec![m], "alice");
    assert!(r.is_err());
}

#[test]
fn reorg_ignores_messages_without_the_kind() {
    let ops = plan_reorg_images(&corpus(), "alice").unwrap();
    assert!(ops.is_empty());
    let ops2 = plan_reorg_videos(&corpus(), "alice").unwrap();
    assert!(ops2.is_empty());
}

#[test]
fn civil_parts_of_known_instants() {
    let c = civil_from_ts(0);
    assert_eq!(
        (c.year, c.month, c.day, c.hour, c.minute, c.second),
        (1970, 1, 1, 0, 0, 0)
    );
    let c2 = civil_from_ts(1614834367);
    assert_eq!(
        (c2.year, c2.month, c2.day, c2.hour, c2.minute, c2.second),
        (2021, 3, 4, 5, 6, 7)
    );
    let c3 = civil_from_ts(951821999);
    assert_eq!((c3.year, c3.month, c3.day), (2000, 2, 29));
    let c4 = civil_from_ts(253402300799);
    assert_eq!(
        (c4.year, c4.month, c4.day, c4.hour, c4.minute, c4.second),
        (9999, 12, 31, 23, 59, 59)
    );
}

#[test]
fn lister_emits_every_file_attachment_in_order() {
    let mut m1 = plain_message(1, "x");
    m1.files = Some(vec![
        MessageFile {
            uri: "files/a.pdf".to_string(),
            creation_timestamp: None,
            title: Some("a".to_string()),
        },
        MessageFile {
            uri: "files/b.pdf".to_string(),
            creation_timestamp: Some(7),
            title: None,
        },
    ]);
    let m2 = plain_message(2, "y");
    let mut m3 = plain_message(3, "z");
    m3.files = Some(vec![MessageFile {
        uri: "files/c.pdf".to_string(),
        creation_timestamp: None,
        title: None,
    }]);
    let files = list_files(&vec![m1, m2, m3]);
    let uris: Vec<String> = files.iter().map(|f| f.uri.clone()).collect();
    assert_eq!(uris, vec!["files/a.pdf", "files/b.pdf", "files/c.pdf"]);
}

#[test]
fn category_folders_have_their_fixed_paths() {
    assert_eq!(Folders::AdsInformation.path(), "ads_information");
    assert_eq!(
        Folders::YourActivityAcrossFacebook.path(),
        "your_activity_across_facebook"
    );
    assert_eq!(Folders::all().len(), 8);
    assert_eq!(
        ActivityTypes::Messages.path(),
        "data/your_activity_across_facebook/messages"
    );
    assert!(!ActivityTypes::Messages.skippable());
}
