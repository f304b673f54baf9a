//! Tests of the classifier, the thread file parser and the aggregator.
use facebook_data_parser::classify::{is_message_file, message_folders};
use facebook_data_parser::corpus::get_all_messages;
use facebook_data_parser::json::Json;
use facebook_data_parser::messages::{parse_message, parse_photo, MessageFileParser};
use facebook_data_parser::MagicError;

static BASE_PATH: &str = "data";

#[test]
fn test_messagefileparser() {
    let mut parsed_filecount = 0;

    for entry in glob::glob(&format!(
        "{}/your_activity_across_facebook/messages/**/*.json",
        BASE_PATH
    ))
    .expect("Failed to read glob pattern")
    {
        match entry {
            Ok(path) => {
                let shown = path.display().to_string();
                if !is_message_file(&shown) {
                    continue;
                } else {
                    println!("Trying {}", shown);
                    let text = fs_err::read_to_string(&path).unwrap();
                    let _parsed = MessageFileParser::parse_text(&text).unwrap();
                    parsed_filecount += 1;
                }
            }
            Err(e) => println!("{:?}", e),
        }
    }
    println!("Parsed {} files", parsed_filecount);
}

#[test]
fn classifier_accepts_numeric_thread_files() {
    assert!(is_message_file("inbox/alice/message_1.json"));
    assert!(is_message_file("data/a/b/message_421.json"));
    assert!(is_message_file("x/message_0008.json"));
}

#[test]
fn classifier_rejects_other_names() {
    assert!(!is_message_file("inbox/message_final.json"));
    assert!(!is_message_file("inbox/message_1.json.bak"));
    assert!(!is_message_file("inbox/message_.json"));
    assert!(!is_message_file("inbox/message_1.txt"));
    assert!(!is_message_file("inbox/amessage_1.json"));
    assert!(!is_message_file("message_1.json"));
    assert!(!is_message_file(""));
    assert!(!is_message_file("inbox/message_12a.json"));
}

fn thread_text(messages_json: &str) -> String {
    let head = "{\"participants\":[{\"name\":\"alice\"}],\"messages\":[";
    let tail = "],\"title\":\"chat\",\"is_still_participant\":true,\"thread_path\":\"inbox/chat\",\"magic_words\":[]}";
    format!("{}{}{}", head, messages_json, tail)
}

fn msg_text(sender: &str, ts: u64, content: &str) -> String {
    format!(
        "{{\"sender_name\":\"{}\",\"timestamp_ms\":{},\"content\":\"{}\",\"is_geoblocked_for_viewer\":false}}",
        sender, ts, content
    )
}

#[test]
fn parses_a_well_formed_thread() {
    let text = thread_text(&msg_text("alice", 1000, "hi"));
    let t = MessageFileParser::parse_text(&text).unwrap();
    assert_eq!(t.participants.len(), 1);
    assert!(t.participants[0].name == "alice");
    assert_eq!(t.messages.len(), 1);
    assert!(t.messages[0].sender_name == "alice");
    assert_eq!(t.messages[0].timestamp_ms, 1000);
    assert!(t.messages[0].content.as_ref().unwrap() == "hi");
    assert!(t.title == "chat");
    assert!(t.is_still_participant);
    assert!(t.thread_path == "inbox/chat");
    assert!(t.magic_words.is_empty());
    assert!(t.image.is_none());
    assert!(t.joinable_mode.is_none());
}

#[test]
fn parses_every_attachment_kind() {
    let msg = "{\"sender_name\":\"bob\",\"timestamp_ms\":5,\"is_unsent\":false,\"share\":{\"link\":\"https://example.net\",\"share_text\":\"look\"},\"videos\":[{\"uri\":\"videos/v.mp4\",\"creation_timestamp\":1700000000}],\"reactions\":[{\"reaction\":\"wow\",\"actor\":\"alice\"}],\"photos\":[{\"uri\":\"photos/p.jpg\",\"creation_timestamp\":1700000001}],\"gifs\":[{\"uri\":\"gifs/g.gif\"}],\"is_geoblocked_for_viewer\":true,\"call_duration\":30,\"sticker\":{\"uri\":\"s.png\",\"ai_stickers\":[{\"input\":\"a cat\"}]},\"files\":[{\"uri\":\"files/f.pdf\",\"title\":\"doc\"}],\"audio_files\":[{\"uri\":\"audio/a.aac\",\"creation_timestamp\":1700000002}],\"ip\":\"127.0.0.1\",\"missed\":true}";
    let t = MessageFileParser::parse_text(&thread_text(msg)).unwrap();
    let m = &t.messages[0];
    assert!(m.sender_name == "bob");
    assert_eq!(m.is_unsent, Some(false));
    let share = m.share.as_ref().unwrap();
    assert!(share.link.as_ref().unwrap() == "https://example.net");
    assert!(share.is_geoblocked_for_viewer.is_none());
    let videos = m.videos.as_ref().unwrap();
    assert_eq!(videos[0].creation_timestamp, 1700000000);
    assert!(videos[0].uri == "videos/v.mp4");
    assert!(m.reactions.as_ref().unwrap()[0].reaction == "wow");
    assert_eq!(m.photos.as_ref().unwrap()[0].creation_timestamp, Some(1700000001));
    assert!(m.gifs.as_ref().unwrap()[0].creation_timestamp.is_none());
    assert!(m.is_geoblocked_for_viewer);
    assert_eq!(m.call_duration, Some(30));
    let sticker = m.sticker.as_ref().unwrap();
    assert!(sticker.ai_stickers[0].input == "a cat");
    let files = m.files.as_ref().unwrap();
    assert!(files[0].title.as_ref().unwrap() == "doc");
    assert!(files[0].creation_timestamp.is_none());
    assert!(m.audio_files.as_ref().unwrap()[0].uri.as_ref().unwrap() == "audio/a.aac");
    assert!(m.ip.as_ref().unwrap() == "127.0.0.1");
    assert_eq!(m.missed, Some(true));
}

#[test]
fn closed_schema_rejects_unknown_top_level_field() {
    let good = thread_text(&msg_text("alice", 1, "x"));
    assert!(MessageFileParser::parse_text(&good).is_ok());
    let bad = good.replacen("\"title\":", "\"surprise\":7,\"title\":", 1);
    assert!(MessageFileParser::parse_text(&bad).is_err());
}

#[test]
fn closed_schema_rejects_unknown_message_field() {
    let msg = "{\"sender_name\":\"a\",\"timestamp_ms\":1,\"is_geoblocked_for_viewer\":false,\"extra\":1}";
    assert!(MessageFileParser::parse_text(&thread_text(msg)).is_err());
    let msg_ok = "{\"sender_name\":\"a\",\"timestamp_ms\":1,\"is_geoblocked_for_viewer\":false}";
    assert!(MessageFileParser::parse_text(&thread_text(msg_ok)).is_ok());
}

#[test]
fn closed_schema_rejects_unknown_nested_field() {
    let msg = "{\"sender_name\":\"a\",\"timestamp_ms\":1,\"is_geoblocked_for_viewer\":false,\"photos\":[{\"uri\":\"p.jpg\",\"creation_timestamp\":5,\"oops\":true}]}";
    assert!(MessageFileParser::parse_text(&thread_text(msg)).is_err());
    let msg_ok = "{\"sender_name\":\"a\",\"timestamp_ms\":1,\"is_geoblocked_for_viewer\":false,\"photos\":[{\"uri\":\"p.jpg\",\"creation_timestamp\":5}]}";
    assert!(MessageFileParser::parse_text(&thread_text(msg_ok)).is_ok());
}

#[test]
fn missing_required_field_fails() {
    let msg = "{\"sender_name\":\"a\",\"is_geoblocked_for_viewer\":false}";
    assert!(MessageFileParser::parse_text(&thread_text(msg)).is_err());
    let msg2 = "{\"sender_name\":\"a\",\"timestamp_ms\":1}";
    assert!(MessageFileParser::parse_text(&thread_text(msg2)).is_err());
}

#[test]
fn wrong_field_type_fails() {
    let msg = "{\"sender_name\":7,\"timestamp_ms\":1,\"is_geoblocked_for_viewer\":false}";
    assert!(MessageFileParser::parse_text(&thread_text(msg)).is_err());
    let msg2 = "{\"sender_name\":\"a\",\"timestamp_ms\":\"1\",\"is_geoblocked_for_viewer\":false}";
    assert!(MessageFileParser::parse_text(&thread_text(msg2)).is_err());
}

#[test]
fn malformed_json_fails_with_generic_error() {
    match MessageFileParser::parse_text("{not json") {
        Err(MagicError::Generic(_)) => {}
        other => panic!("expected a generic parse error, got {:?}", other.is_ok()),
    }
}

#[test]
fn video_timestamp_is_required_and_integral() {
    let missing = "{\"sender_name\":\"a\",\"timestamp_ms\":1,\"is_geoblocked_for_viewer\":false,\"videos\":[{\"uri\":\"v.mp4\"}]}";
    assert!(MessageFileParser::parse_text(&thread_text(missing)).is_err());
    let fractional = "{\"sender_name\":\"a\",\"timestamp_ms\":1,\"is_geoblocked_for_viewer\":false,\"videos\":[{\"uri\":\"v.mp4\",\"creation_timestamp\":17.5}]}";
    assert!(MessageFileParser::parse_text(&thread_text(fractional)).is_err());
    let negative = "{\"sender_name\":\"a\",\"timestamp_ms\":1,\"is_geoblocked_for_viewer\":false,\"videos\":[{\"uri\":\"v.mp4\",\"creation_timestamp\":-5}]}";
    assert!(MessageFileParser::parse_text(&thread_text(negative)).is_err());
}

#[test]
fn null_optional_fields_read_as_absent() {
    let msg = "{\"sender_name\":\"a\",\"timestamp_ms\":1,\"is_geoblocked_for_viewer\":false,\"content\":null,\"photos\":null,\"missed\":null}";
    let t = MessageFileParser::parse_text(&thread_text(msg)).unwrap();
    assert!(t.messages[0].content.is_none());
    assert!(t.messages[0].photos.is_none());
    assert!(t.messages[0].missed.is_none());
}

#[test]
fn timestamp_units_meet_on_milliseconds() {
    let msg = "{\"sender_name\":\"a\",\"timestamp_ms\":1700000000000,\"is_geoblocked_for_viewer\":false,\"videos\":[{\"uri\":\"v.mp4\",\"creation_timestamp\":1700000000}]}";
    let t = MessageFileParser::parse_text(&thread_text(msg)).unwrap();
    let m = &t.messages[0];
    let v = &m.videos.as_ref().unwrap()[0];
    assert_eq!(v.creation_timestamp, 1700000000);
    assert_eq!(v.instant_ms(), 1700000000000);
    assert_eq!(m.instant_ms(), 1700000000000);
    assert_eq!(v.instant_ms(), m.instant_ms());
}

#[test]
fn aggregation_preserves_file_and_message_order() {
    let a = thread_text(&format!("{},{}", msg_text("a", 1, "m1"), msg_text("a", 2, "m2")));
    let b = thread_text(&format!("{},{}", msg_text("b", 3, "m3"), msg_text("b", 4, "m4")));
    let corpus = get_all_messages(&vec![a, b]).unwrap();
    let contents: Vec<String> = corpus
        .iter()
        .map(|m| m.content.as_ref().unwrap().clone())
        .collect();
    assert_eq!(contents, vec!["m1", "m2", "m3", "m4"]);
}

#[test]
fn aggregation_aborts_whole_corpus_on_one_bad_file() {
    let good1 = thread_text(&msg_text("a", 1, "m1"));
    let bad = thread_text("{\"sender_name\":\"a\"}");
    let good2 = thread_text(&msg_text("a", 2, "m2"));
    let r = get_all_messages(&vec![good1, bad, good2]);
    assert!(r.is_err());
}

#[test]
fn aggregation_of_nothing_is_empty() {
    let corpus = get_all_messages(&vec![]).unwrap();
    assert!(corpus.is_empty());
}

#[test]
fn folder_discovery_dedups_in_first_seen_order() {
    let paths = vec![
        "root/a/message_1.json".to_string(),
        "root/a/message_2.json".to_string(),
        "root/b/message_3.json".to_string(),
        "root/b/notes.txt".to_string(),
        "root/c/other.json".to_string(),
        "root/a/message_9.json".to_string(),
    ];
    let folders = message_folders(&paths);
    assert_eq!(folders, vec!["root/a".to_string(), "root/b".to_string()]);
}

#[test]
fn direct_json_parsers_reject_non_objects() {
    assert!(parse_photo(&Json::Null).is_none());
    assert!(parse_message(&Json::Arr(Vec::new())).is_none());
    assert!(parse_photo(&Json::Str("p.jpg".to_string())).is_none());
}

#[test]
fn parses_thread_level_optional_records() {
    let text = "{\"participants\":[{\"name\":\"alice\"},{\"name\":\"bob\"}],\"messages\":[],\"title\":\"chat\",\"is_still_participant\":false,\"thread_path\":\"inbox/chat\",\"magic_words\":[{\"magic_word\":\"abracadabra\",\"creation_timestamp_ms\":1700000000000,\"animation_emoji\":\"sparkles\"}],\"image\":{\"uri\":\"photos/cover.jpg\",\"creation_timestamp\":1700000000},\"joinable_mode\":{\"mode\":1,\"link\":\"https://example.net/join\"}}";
    let t = MessageFileParser::parse_text(text).unwrap();
    assert_eq!(t.participants.len(), 2);
    assert!(!t.is_still_participant);
    let w = &t.magic_words[0];
    assert!(w.magic_word == "abracadabra");
    assert_eq!(w.creation_timestamp_ms, Some(1700000000000));
    assert!(w.animation_emoji == "sparkles");
    let image = t.image.as_ref().unwrap();
    assert!(image.uri == "photos/cover.jpg");
    let jm = t.joinable_mode.as_ref().unwrap();
    assert_eq!(jm.mode, 1);
    assert!(jm.link == "https://example.net/join");
}

#[test]
fn thread_missing_required_key_fails() {
    let text = "{\"participants\":[],\"messages\":[],\"is_still_participant\":true,\"thread_path\":\"inbox/chat\",\"magic_words\":[]}";
    assert!(MessageFileParser::parse_text(text).is_err());
}

#[test]
fn seconds_timestamp_beyond_year_9999_fails_to_parse() {
    let in_range = "{\"sender_name\":\"a\",\"timestamp_ms\":1,\"is_geoblocked_for_viewer\":false,\"photos\":[{\"uri\":\"p.jpg\",\"creation_timestamp\":253402300799}]}";
    assert!(MessageFileParser::parse_text(&thread_text(in_range)).is_ok());
    let beyond = "{\"sender_name\":\"a\",\"timestamp_ms\":1,\"is_geoblocked_for_viewer\":false,\"photos\":[{\"uri\":\"p.jpg\",\"creation_timestamp\":253402300800}]}";
    assert!(MessageFileParser::parse_text(&thread_text(beyond)).is_err());
}

#[test]
fn ip_field_accepts_only_ip_addresses() {
    let v4 = "{\"sender_name\":\"a\",\"timestamp_ms\":1,\"is_geoblocked_for_viewer\":false,\"ip\":\"192.168.0.1\"}";
    let t = MessageFileParser::parse_text(&thread_text(v4)).unwrap();
    assert!(t.messages[0].ip.as_ref().unwrap() == "192.168.0.1");
    let v6_forms = [
        "::1",
        "::",
        "2001:db8::8a2e:370:7334",
        "1:2:3:4:5:6:7:8",
        "::ffff:192.0.2.1",
        "1:2:3:4:5:6:1.2.3.4",
        "1:2:3:4:5:6:7::",
        "fe80::",
        "A:B:C:D:E:F:a:b",
    ];
    for form in v6_forms {
        let msg = format!(
            "{{\"sender_name\":\"a\",\"timestamp_ms\":1,\"is_geoblocked_for_viewer\":false,\"ip\":\"{}\"}}",
            form
        );
        let t = MessageFileParser::parse_text(&thread_text(&msg)).unwrap();
        assert!(t.messages[0].ip.as_ref().unwrap() == form);
    }
    let bad_forms = [
        "not-an-ip",
        "",
        "256.1.1.1",
        "01.2.3.4",
        "1.2.3",
        "1.2.3.4.5",
        "1:2:3:4:5:6:7:8:9",
        "1::2::3",
        ":::",
        "12345::",
        "g::1",
        "1:2:3:4:5:6:7",
        "1.2.3.4 ",
    ];
    for form in bad_forms {
        let msg = format!(
            "{{\"sender_name\":\"a\",\"timestamp_ms\":1,\"is_geoblocked_for_viewer\":false,\"ip\":\"{}\"}}",
            form
        );
        assert!(MessageFileParser::parse_text(&thread_text(&msg)).is_err());
    }
}

#[test]
fn unbucketed_timestamps_take_the_full_range() {
    let msg = "{\"sender_name\":\"a\",\"timestamp_ms\":1,\"is_geoblocked_for_viewer\":false,\"files\":[{\"uri\":\"f.pdf\",\"creation_timestamp\":9999999999999}],\"audio_files\":[{\"uri\":\"a.aac\",\"creation_timestamp\":9999999999999}]}";
    let t = MessageFileParser::parse_text(&thread_text(msg)).unwrap();
    assert_eq!(
        t.messages[0].files.as_ref().unwrap()[0].creation_timestamp,
        Some(9999999999999)
    );
    assert_eq!(
        t.messages[0].audio_files.as_ref().unwrap()[0].creation_timestamp,
        Some(9999999999999)
    );
}

#[test]
fn from_str_wraps_into_generic() {
    let e: Result<MagicError, MagicError> = "boom".parse();
    match e {
        Ok(MagicError::Generic(s)) => assert_eq!(s, "boom"),
        _ => panic!("expected a generic error"),
    }
}
