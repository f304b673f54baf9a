//! The record model of one thread-export file, and its schema-validating
//! parser.  The schema is closed: an object that carries any field not named
//! in the record's allow-list fails to parse.  Two timestamp encodings are in
//! use and are kept apart: the message timestamp is epoch milliseconds and
//! required; attachment creation timestamps are epoch seconds, required for
//! videos and optional everywhere else.
use vstd::prelude::*;
use vstd::string::StrSliceExecFns;

use crate::json::{lookup, obj_lookup, str_eq, Json};

verus! {

/// The last epoch second of year 9999.  A photo or video creation timestamp
/// beyond it cannot be bucketed into a four-digit-year output path, so the
/// parser rejects it; timestamps of kinds that are never bucketed are not
/// bounded.
pub const MAX_TS_SECONDS: u64 = 253402300799;

// ----------------------------------------------------------------------------
// The record types, with their mathematical models (the `*V` types) and views.
// ----------------------------------------------------------------------------

/// A thread summary: where a thread's file lives and who takes part in it.
#[derive(Debug)]
pub struct MessageBox {
    pub filepath: String,
    pub filename: String,
    pub participants: Vec<String>,
}

#[derive(Debug)]
pub struct MessageParticipant {
    pub name: String,
}

pub struct ParticipantV {
    pub name: Seq<char>,
}

impl View for MessageParticipant {
    type V = ParticipantV;

    open spec fn view(&self) -> ParticipantV {
        ParticipantV { name: self.name@ }
    }
}

#[derive(Debug)]
pub struct MessageMagicWord {
    pub magic_word: String,
    /// Epoch milliseconds, absent in older exports.
    pub creation_timestamp_ms: Option<u64>,
    pub animation_emoji: String,
}

pub struct MagicWordV {
    pub magic_word: Seq<char>,
    pub creation_timestamp_ms: Option<u64>,
    pub animation_emoji: Seq<char>,
}

impl View for MessageMagicWord {
    type V = MagicWordV;

    open spec fn view(&self) -> MagicWordV {
        MagicWordV {
            magic_word: self.magic_word@,
            creation_timestamp_ms: self.creation_timestamp_ms,
            animation_emoji: self.animation_emoji@,
        }
    }
}

#[derive(Debug)]
pub struct MessageJoinableMode {
    pub mode: u64,
    pub link: String,
}

pub struct JoinableModeV {
    pub mode: u64,
    pub link: Seq<char>,
}

impl View for MessageJoinableMode {
    type V = JoinableModeV;

    open spec fn view(&self) -> JoinableModeV {
        JoinableModeV { mode: self.mode, link: self.link@ }
    }
}

#[derive(Debug)]
pub struct MessageShare {
    pub link: Option<String>,
    pub share_text: Option<String>,
    pub is_geoblocked_for_viewer: Option<bool>,
}

pub struct ShareV {
    pub link: Option<Seq<char>>,
    pub share_text: Option<Seq<char>>,
    pub is_geoblocked_for_viewer: Option<bool>,
}

impl View for MessageShare {
    type V = ShareV;

    open spec fn view(&self) -> ShareV {
        ShareV {
            link: view_opt_str(self.link),
            share_text: view_opt_str(self.share_text),
            is_geoblocked_for_viewer: self.is_geoblocked_for_viewer,
        }
    }
}

#[derive(Debug)]
pub struct MessageMedia {
    pub uri: Option<String>,
    /// Epoch seconds, optional and unbounded: these records are never
    /// date-bucketed.
    pub creation_timestamp: Option<u64>,
    pub share_text: Option<String>,
    pub is_geoblocked_for_viewer: Option<bool>,
}

pub struct MediaV {
    pub uri: Option<Seq<char>>,
    pub creation_timestamp: Option<u64>,
    pub share_text: Option<Seq<char>>,
    pub is_geoblocked_for_viewer: Option<bool>,
}

impl View for MessageMedia {
    type V = MediaV;

    open spec fn view(&self) -> MediaV {
        MediaV {
            uri: view_opt_str(self.uri),
            creation_timestamp: self.creation_timestamp,
            share_text: view_opt_str(self.share_text),
            is_geoblocked_for_viewer: self.is_geoblocked_for_viewer,
        }
    }
}

#[derive(Debug)]
pub struct MessagePhoto {
    pub uri: String,
    /// Epoch seconds, optional: some photos carry no creation timestamp.
    pub creation_timestamp: Option<u64>,
}

pub struct PhotoV {
    pub uri: Seq<char>,
    pub creation_timestamp: Option<u64>,
}

impl View for MessagePhoto {
    type V = PhotoV;

    open spec fn view(&self) -> PhotoV {
        PhotoV { uri: self.uri@, creation_timestamp: self.creation_timestamp }
    }
}

#[derive(Debug)]
pub struct MessageReaction {
    pub reaction: String,
    pub actor: String,
}

pub struct ReactionV {
    pub reaction: Seq<char>,
    pub actor: Seq<char>,
}

impl View for MessageReaction {
    type V = ReactionV;

    open spec fn view(&self) -> ReactionV {
        ReactionV { reaction: self.reaction@, actor: self.actor@ }
    }
}

#[derive(Debug)]
pub struct MessageVideo {
    pub uri: String,
    /// Epoch seconds, required: every video carries one.
    pub creation_timestamp: u64,
}

pub struct VideoV {
    pub uri: Seq<char>,
    pub creation_timestamp: u64,
}

impl View for MessageVideo {
    type V = VideoV;

    open spec fn view(&self) -> VideoV {
        VideoV { uri: self.uri@, creation_timestamp: self.creation_timestamp }
    }
}

#[derive(Debug)]
pub struct MessageAiSticker {
    pub input: String,
}

pub struct AiStickerV {
    pub input: Seq<char>,
}

impl View for MessageAiSticker {
    type V = AiStickerV;

    open spec fn view(&self) -> AiStickerV {
        AiStickerV { input: self.input@ }
    }
}

#[derive(Debug)]
pub struct MessageSticker {
    pub uri: String,
    pub ai_stickers: Vec<MessageAiSticker>,
}

pub struct StickerV {
    pub uri: Seq<char>,
    pub ai_stickers: Seq<AiStickerV>,
}

impl View for MessageSticker {
    type V = StickerV;

    open spec fn view(&self) -> StickerV {
        StickerV { uri: self.uri@, ai_stickers: views_of(self.ai_stickers@) }
    }
}

#[derive(Debug, Clone)]
pub struct MessageFile {
    pub uri: String,
    /// Epoch seconds, optional and unbounded: file attachments are never
    /// date-bucketed.
    pub creation_timestamp: Option<u64>,
    pub title: Option<String>,
}

pub struct FileV {
    pub uri: Seq<char>,
    pub creation_timestamp: Option<u64>,
    pub title: Option<Seq<char>>,
}

impl View for MessageFile {
    type V = FileV;

    open spec fn view(&self) -> FileV {
        FileV {
            uri: self.uri@,
            creation_timestamp: self.creation_timestamp,
            title: view_opt_str(self.title),
        }
    }
}

/// One chat event.  The timestamp is epoch milliseconds and is the sole
/// ordering key for search.  Every attachment collection is optional and
/// independently present.
#[derive(Debug)]
pub struct Message {
    pub sender_name: String,
    pub is_unsent: Option<bool>,
    pub timestamp_ms: u64,
    pub content: Option<String>,
    pub share: Option<MessageShare>,
    pub videos: Option<Vec<MessageVideo>>,
    pub reactions: Option<Vec<MessageReaction>>,
    pub photos: Option<Vec<MessagePhoto>>,
    pub gifs: Option<Vec<MessagePhoto>>,
    pub is_geoblocked_for_viewer: bool,
    pub call_duration: Option<u64>,
    pub sticker: Option<MessageSticker>,
    pub files: Option<Vec<MessageFile>>,
    pub audio_files: Option<Vec<MessageMedia>>,
    /// A textual IP address; a string that is neither a version-4 nor a
    /// version-6 address fails the parse.
    pub ip: Option<String>,
    pub missed: Option<bool>,
}

pub struct MessageV {
    pub sender_name: Seq<char>,
    pub is_unsent: Option<bool>,
    pub timestamp_ms: u64,
    pub content: Option<Seq<char>>,
    pub share: Option<ShareV>,
    pub videos: Option<Seq<VideoV>>,
    pub reactions: Option<Seq<ReactionV>>,
    pub photos: Option<Seq<PhotoV>>,
    pub gifs: Option<Seq<PhotoV>>,
    pub is_geoblocked_for_viewer: bool,
    pub call_duration: Option<u64>,
    pub sticker: Option<StickerV>,
    pub files: Option<Seq<FileV>>,
    pub audio_files: Option<Seq<MediaV>>,
    pub ip: Option<Seq<char>>,
    pub missed: Option<bool>,
}

impl View for Message {
    type V = MessageV;

    open spec fn view(&self) -> MessageV {
        MessageV {
            sender_name: self.sender_name@,
            is_unsent: self.is_unsent,
            timestamp_ms: self.timestamp_ms,
            content: view_opt_str(self.content),
            share: (match self.share {
                Some(s) => Some(s@),
                None => None,
            }),
            videos: view_opt_list(self.videos),
            reactions: view_opt_list(self.reactions),
            photos: view_opt_list(self.photos),
            gifs: view_opt_list(self.gifs),
            is_geoblocked_for_viewer: self.is_geoblocked_for_viewer,
            call_duration: self.call_duration,
            sticker: (match self.sticker {
                Some(s) => Some(s@),
                None => None,
            }),
            files: view_opt_list(self.files),
            audio_files: view_opt_list(self.audio_files),
            ip: view_opt_str(self.ip),
            missed: self.missed,
        }
    }
}

/// One whole thread-export file.
#[derive(Debug)]
pub struct MessageFileParser {
    pub participants: Vec<MessageParticipant>,
    pub messages: Vec<Message>,
    pub title: String,
    pub is_still_participant: bool,
    pub thread_path: String,
    pub magic_words: Vec<MessageMagicWord>,
    pub image: Option<MessagePhoto>,
    pub joinable_mode: Option<MessageJoinableMode>,
}

pub struct ThreadV {
    pub participants: Seq<ParticipantV>,
    pub messages: Seq<MessageV>,
    pub title: Seq<char>,
    pub is_still_participant: bool,
    pub thread_path: Seq<char>,
    pub magic_words: Seq<MagicWordV>,
    pub image: Option<PhotoV>,
    pub joinable_mode: Option<JoinableModeV>,
}

impl View for MessageFileParser {
    type V = ThreadV;

    open spec fn view(&self) -> ThreadV {
        ThreadV {
            participants: views_of(self.participants@),
            messages: views_of(self.messages@),
            title: self.title@,
            is_still_participant: self.is_still_participant,
            thread_path: self.thread_path@,
            magic_words: views_of(self.magic_words@),
            image: (match self.image {
                Some(p) => Some(p@),
                None => None,
            }),
            joinable_mode: (match self.joinable_mode {
                Some(m) => Some(m@),
                None => None,
            }),
        }
    }
}

pub open spec fn views_of<T: View>(s: Seq<T>) -> Seq<T::V> {
    s.map_values(|x: T| x@)
}

pub open spec fn view_opt_str(o: Option<String>) -> Option<Seq<char>> {
    match o {
        Some(s) => Some(s@),
        None => None,
    }
}

pub open spec fn view_opt_list<T: View>(o: Option<Vec<T>>) -> Option<Seq<T::V>> {
    match o {
        Some(v) => Some(views_of(v@)),
        None => None,
    }
}

impl MessageVideo {
    /// The instant of the video's seconds-based creation timestamp, in epoch
    /// milliseconds: the two timestamp units of the schema meet on this
    /// scale.
    pub fn instant_ms(&self) -> (r: u64)
        requires
            self.creation_timestamp <= MAX_TS_SECONDS,
        ensures
            r == self.creation_timestamp * 1000,
    {
        self.creation_timestamp * 1000
    }
}

impl Message {
    /// The instant of the message's milliseconds-based timestamp, already in
    /// epoch milliseconds.
    pub fn instant_ms(&self) -> (r: u64)
        ensures
            r == self.timestamp_ms,
    {
        self.timestamp_ms
    }
}

// ----------------------------------------------------------------------------
// Field extraction, stated at the model level.  An outer `None` is a schema
// error; the inner option mirrors the field's own optionality.
// ----------------------------------------------------------------------------

pub open spec fn req_str_v(fs: Seq<(String, Json)>, k: Seq<char>) -> Option<Seq<char>> {
    match lookup(fs, k) {
        Some(Json::Str(s)) => Some(s@),
        _ => None,
    }
}

pub open spec fn opt_str_v(fs: Seq<(String, Json)>, k: Seq<char>) -> Option<Option<Seq<char>>> {
    match lookup(fs, k) {
        None => Some(None),
        Some(Json::Null) => Some(None),
        Some(Json::Str(s)) => Some(Some(s@)),
        _ => None,
    }
}

pub open spec fn req_bool_v(fs: Seq<(String, Json)>, k: Seq<char>) -> Option<bool> {
    match lookup(fs, k) {
        Some(Json::Bool(b)) => Some(b),
        _ => None,
    }
}

pub open spec fn opt_bool_v(fs: Seq<(String, Json)>, k: Seq<char>) -> Option<Option<bool>> {
    match lookup(fs, k) {
        None => Some(None),
        Some(Json::Null) => Some(None),
        Some(Json::Bool(b)) => Some(Some(b)),
        _ => None,
    }
}

pub open spec fn req_u64_v(fs: Seq<(String, Json)>, k: Seq<char>) -> Option<u64> {
    match lookup(fs, k) {
        Some(Json::Num(u)) => Some(u),
        _ => None,
    }
}

pub open spec fn opt_u64_v(fs: Seq<(String, Json)>, k: Seq<char>) -> Option<Option<u64>> {
    match lookup(fs, k) {
        None => Some(None),
        Some(Json::Null) => Some(None),
        Some(Json::Num(u)) => Some(Some(u)),
        _ => None,
    }
}

/// A required seconds-based creation timestamp.
pub open spec fn req_ts_s_v(fs: Seq<(String, Json)>, k: Seq<char>) -> Option<u64> {
    match lookup(fs, k) {
        Some(Json::Num(u)) => if u <= MAX_TS_SECONDS {
            Some(u)
        } else {
            None
        },
        _ => None,
    }
}

/// An optional textual IP address: a string is accepted only where it is a
/// version-4 or version-6 address.
pub open spec fn opt_ip_v(fs: Seq<(String, Json)>, k: Seq<char>) -> Option<Option<Seq<char>>> {
    match lookup(fs, k) {
        None => Some(None),
        Some(Json::Null) => Some(None),
        Some(Json::Str(s)) => if crate::ip::spec_is_ip(s@) {
            Some(Some(s@))
        } else {
            None
        },
        _ => None,
    }
}

/// An optional seconds-based creation timestamp.
pub open spec fn opt_ts_s_v(fs: Seq<(String, Json)>, k: Seq<char>) -> Option<Option<u64>> {
    match lookup(fs, k) {
        None => Some(None),
        Some(Json::Null) => Some(None),
        Some(Json::Num(u)) => if u <= MAX_TS_SECONDS {
            Some(Some(u))
        } else {
            None
        },
        _ => None,
    }
}

pub fn get_req_str(fs: &Vec<(String, Json)>, k: &str) -> (r: Option<String>)
    ensures
        match r {
            Some(s) => req_str_v(fs@, k@) == Some(s@),
            None => req_str_v(fs@, k@) is None,
        },
{
    match obj_lookup(fs, k) {
        Some(Json::Str(s)) => Some(s.clone()),
        _ => None,
    }
}

pub fn get_opt_str(fs: &Vec<(String, Json)>, k: &str) -> (r: Option<Option<String>>)
    ensures
        match r {
            Some(o) => opt_str_v(fs@, k@) == Some(view_opt_str(o)),
            None => opt_str_v(fs@, k@) is None,
        },
{
    match obj_lookup(fs, k) {
        None => Some(None),
        Some(Json::Null) => Some(None),
        Some(Json::Str(s)) => Some(Some(s.clone())),
        _ => None,
    }
}

pub fn get_req_bool(fs: &Vec<(String, Json)>, k: &str) -> (r: Option<bool>)
    ensures
        r == req_bool_v(fs@, k@),
{
    match obj_lookup(fs, k) {
        Some(Json::Bool(b)) => Some(*b),
        _ => None,
    }
}

pub fn get_opt_bool(fs: &Vec<(String, Json)>, k: &str) -> (r: Option<Option<bool>>)
    ensures
        r == opt_bool_v(fs@, k@),
{
    match obj_lookup(fs, k) {
        None => Some(None),
        Some(Json::Null) => Some(None),
        Some(Json::Bool(b)) => Some(Some(*b)),
        _ => None,
    }
}

pub fn get_req_u64(fs: &Vec<(String, Json)>, k: &str) -> (r: Option<u64>)
    ensures
        r == req_u64_v(fs@, k@),
{
    match obj_lookup(fs, k) {
        Some(Json::Num(u)) => Some(*u),
        _ => None,
    }
}

pub fn get_opt_u64(fs: &Vec<(String, Json)>, k: &str) -> (r: Option<Option<u64>>)
    ensures
        r == opt_u64_v(fs@, k@),
{
    match obj_lookup(fs, k) {
        None => Some(None),
        Some(Json::Null) => Some(None),
        Some(Json::Num(u)) => Some(Some(*u)),
        _ => None,
    }
}

pub fn get_req_ts_s(fs: &Vec<(String, Json)>, k: &str) -> (r: Option<u64>)
    ensures
        r == req_ts_s_v(fs@, k@),
{
    match obj_lookup(fs, k) {
        Some(Json::Num(u)) => if *u <= MAX_TS_SECONDS {
            Some(*u)
        } else {
            None
        },
        _ => None,
    }
}

pub fn get_opt_ip(fs: &Vec<(String, Json)>, k: &str) -> (r: Option<Option<String>>)
    ensures
        match r {
            Some(o) => opt_ip_v(fs@, k@) == Some(view_opt_str(o)),
            None => opt_ip_v(fs@, k@) is None,
        },
{
    match obj_lookup(fs, k) {
        None => Some(None),
        Some(Json::Null) => Some(None),
        Some(Json::Str(s)) => if crate::ip::is_ip_str(s.as_str()) {
            Some(Some(s.clone()))
        } else {
            None
        },
        _ => None,
    }
}

pub fn get_opt_ts_s(fs: &Vec<(String, Json)>, k: &str) -> (r: Option<Option<u64>>)
    ensures
        r == opt_ts_s_v(fs@, k@),
{
    match obj_lookup(fs, k) {
        None => Some(None),
        Some(Json::Null) => Some(None),
        Some(Json::Num(u)) => if *u <= MAX_TS_SECONDS {
            Some(Some(*u))
        } else {
            None
        },
        _ => None,
    }
}

// ----------------------------------------------------------------------------
// The closed-schema check: every key of an object must be in its allow-list.
// ----------------------------------------------------------------------------

pub open spec fn keys_in(fs: Seq<(String, Json)>, allowed: Seq<Seq<char>>) -> bool {
    forall|i: int| 0 <= i < fs.len() ==> allowed.contains(#[trigger] fs[i].0@)
}

pub fn keys_check(fs: &Vec<(String, Json)>, allowed: &Vec<&str>) -> (r: bool)
    ensures
        r == keys_in(fs@, allowed.deep_view()),
{
    proof {
        assert forall|b: int| 0 <= b < allowed@.len() implies #[trigger] allowed.deep_view()[b]
            == allowed@[b]@ by {
            assert(allowed.deep_view()[b] == allowed@[b].deep_view());
        }
    }
    let n = fs.len();
    let mut i: usize = 0;
    while i < n
        invariant
            i <= n,
            n == fs@.len(),
            allowed.deep_view().len() == allowed@.len(),
            forall|b: int| 0 <= b < allowed@.len() ==> #[trigger] allowed.deep_view()[b]
                == allowed@[b]@,
            forall|j: int| 0 <= j < i ==> allowed.deep_view().contains(#[trigger] fs@[j].0@),
        decreases n - i,
    {
        let k = fs[i].0.as_str();
        let m = allowed.len();
        let mut a: usize = 0;
        let mut found = false;
        while a < m && !found
            invariant
                a <= m,
                m == allowed@.len(),
                k@ == fs@[i as int].0@,
                allowed.deep_view().len() == allowed@.len(),
                forall|b: int| 0 <= b < allowed@.len() ==> #[trigger] allowed.deep_view()[b]
                    == allowed@[b]@,
                found ==> allowed.deep_view().contains(fs@[i as int].0@),
                !found ==> forall|b: int| 0 <= b < a ==> allowed.deep_view()[b] != fs@[
                    i as int
                ].0@,
            decreases m - a,
        {
            if str_eq(k, allowed[a]) {
                found = true;
                proof {
                    assert(allowed.deep_view()[a as int] == fs@[i as int].0@);
                }
            }
            a += 1;
        }
        if !found {
            proof {
                assert(!allowed.deep_view().contains(fs@[i as int].0@));
            }
            return false;
        }
        i += 1;
    }
    true
}

// ----------------------------------------------------------------------------
// Arrays and nested records.
// ----------------------------------------------------------------------------

/// Every element of a JSON array parsed in order; one failing element fails
/// the whole array.
pub open spec fn list_of<TV>(items: Seq<Json>, f: spec_fn(Json) -> Option<TV>) -> Option<Seq<TV>>
    decreases items.len(),
{
    if items.len() == 0 {
        Some(Seq::empty())
    } else {
        match f(items[0]) {
            None => None,
            Some(x) => match list_of(items.drop_first(), f) {
                None => None,
                Some(rest) => Some(seq![x] + rest),
            },
        }
    }
}

/// An optional field holding a single nested record.
pub open spec fn opt_record_field<TV>(
    fs: Seq<(String, Json)>,
    k: Seq<char>,
    f: spec_fn(Json) -> Option<TV>,
) -> Option<Option<TV>> {
    match lookup(fs, k) {
        None => Some(None),
        Some(Json::Null) => Some(None),
        Some(j) => match f(j) {
            None => None,
            Some(v) => Some(Some(v)),
        },
    }
}

/// An optional field holding an array of records.
pub open spec fn opt_list_field<TV>(
    fs: Seq<(String, Json)>,
    k: Seq<char>,
    f: spec_fn(Json) -> Option<TV>,
) -> Option<Option<Seq<TV>>> {
    match lookup(fs, k) {
        None => Some(None),
        Some(Json::Null) => Some(None),
        Some(Json::Arr(items)) => match list_of(items@, f) {
            None => None,
            Some(s) => Some(Some(s)),
        },
        Some(_) => None,
    }
}

/// A required field holding an array of records.
pub open spec fn req_list_field<TV>(
    fs: Seq<(String, Json)>,
    k: Seq<char>,
    f: spec_fn(Json) -> Option<TV>,
) -> Option<Seq<TV>> {
    match lookup(fs, k) {
        Some(Json::Arr(items)) => list_of(items@, f),
        _ => None,
    }
}

fn parse_list<T: View, F: Fn(&Json) -> Option<T>>(
    items: &Vec<Json>,
    f: F,
    Ghost(sf): Ghost<spec_fn(Json) -> Option<T::V>>,
) -> (r: Option<Vec<T>>)
    requires
        forall|j: &Json| #[trigger] call_requires(f, (j,)),
        forall|j: &Json, out: Option<T>| #[trigger] call_ensures(f, (j,), out) ==> (match out {
            Some(x) => sf(*j) == Some(x@),
            None => sf(*j) is None,
        }),
    ensures
        match r {
            Some(v) => list_of(items@, sf) == Some(views_of(v@)),
            None => list_of(items@, sf) is None,
        },
{
    let n = items.len();
    let mut out: Vec<T> = Vec::new();
    let mut i: usize = 0;
    proof {
        assert(items@.skip(0) =~= items@);
        assert(views_of(out@) =~= Seq::<T::V>::empty());
    }
    while i < n
        invariant
            i <= n,
            n == items@.len(),
            forall|j: &Json| #[trigger] call_requires(f, (j,)),
            forall|j: &Json, o: Option<T>| #[trigger] call_ensures(f, (j,), o) ==> (match o {
                Some(x) => sf(*j) == Some(x@),
                None => sf(*j) is None,
            }),
            match list_of(items@.skip(i as int), sf) {
                Some(rest) => list_of(items@, sf) == Some(views_of(out@) + rest),
                None => list_of(items@, sf) is None,
            },
        decreases n - i,
    {
        proof {
            assert(items@.skip(i as int)[0] == items@[i as int]);
            assert(items@.skip(i as int).drop_first() =~= items@.skip(i as int + 1));
        }
        match f(&items[i]) {
            None => {
                return None;
            },
            Some(x) => {
                let ghost out0 = out@;
                let ghost xv = x@;
                out.push(x);
                proof {
                    assert(views_of(out@) =~= views_of(out0).push(xv));
                    if list_of(items@.skip(i as int + 1), sf) is Some {
                        let rest = list_of(items@.skip(i as int + 1), sf)->0;
                        assert(views_of(out0) + (seq![xv] + rest) =~= views_of(out@) + rest);
                    }
                }
            },
        }
        i += 1;
    }
    proof {
        assert(items@.skip(n as int) =~= Seq::<Json>::empty());
        if list_of(items@, sf) is Some {
            assert(views_of(out@) + Seq::<T::V>::empty() =~= views_of(out@));
        }
    }
    Some(out)
}

// ----------------------------------------------------------------------------
// The record parsers.  Each states exactly which documents it accepts and
// what it builds from them.
// ----------------------------------------------------------------------------

pub open spec fn photo_keys() -> Seq<Seq<char>> {
    seq!["uri"@, "creation_timestamp"@]
}

/// A photo (also used for gifs and the thread's cover image): a required uri
/// and an optional seconds-based creation timestamp.
pub open spec fn spec_photo(j: Json) -> Option<PhotoV> {
    match j {
        Json::Obj(fs) => if !keys_in(fs@, photo_keys()) {
            None
        } else {
            let uri = req_str_v(fs@, "uri"@);
            let ts = opt_ts_s_v(fs@, "creation_timestamp"@);
            if uri is None || ts is None {
                None
            } else {
                Some(PhotoV { uri: uri->0, creation_timestamp: ts->0 })
            }
        },
        _ => None,
    }
}

pub fn parse_photo(j: &Json) -> (r: Option<MessagePhoto>)
    ensures
        match r {
            Some(v) => spec_photo(*j) == Some(v@),
            None => spec_photo(*j) is None,
        },
{
    match j {
        Json::Obj(fs) => {
            let allowed: Vec<&str> = vec!["uri", "creation_timestamp"];
            proof {
                assert(allowed.deep_view() =~= photo_keys());
            }
            if !keys_check(fs, &allowed) {
                return None;
            }
            let uri = match get_req_str(fs, "uri") {
                None => return None,
                Some(v) => v,
            };
            let ts = match get_opt_ts_s(fs, "creation_timestamp") {
                None => return None,
                Some(v) => v,
            };
            Some(MessagePhoto { uri, creation_timestamp: ts })
        },
        _ => None,
    }
}

pub open spec fn video_keys() -> Seq<Seq<char>> {
    seq!["uri"@, "creation_timestamp"@]
}

/// A video: a required uri and a required seconds-based creation timestamp.
pub open spec fn spec_video(j: Json) -> Option<VideoV> {
    match j {
        Json::Obj(fs) => if !keys_in(fs@, video_keys()) {
            None
        } else {
            let uri = req_str_v(fs@, "uri"@);
            let ts = req_ts_s_v(fs@, "creation_timestamp"@);
            if uri is None || ts is None {
                None
            } else {
                Some(VideoV { uri: uri->0, creation_timestamp: ts->0 })
            }
        },
        _ => None,
    }
}

pub fn parse_video(j: &Json) -> (r: Option<MessageVideo>)
    ensures
        match r {
            Some(v) => spec_video(*j) == Some(v@),
            None => spec_video(*j) is None,
        },
{
    match j {
        Json::Obj(fs) => {
            let allowed: Vec<&str> = vec!["uri", "creation_timestamp"];
            proof {
                assert(allowed.deep_view() =~= video_keys());
            }
            if !keys_check(fs, &allowed) {
                return None;
            }
            let uri = match get_req_str(fs, "uri") {
                None => return None,
                Some(v) => v,
            };
            let ts = match get_req_ts_s(fs, "creation_timestamp") {
                None => return None,
                Some(v) => v,
            };
            Some(MessageVideo { uri, creation_timestamp: ts })
        },
        _ => None,
    }
}

pub open spec fn participant_keys() -> Seq<Seq<char>> {
    seq!["name"@]
}

/// A participant: just a name.
pub open spec fn spec_participant(j: Json) -> Option<ParticipantV> {
    match j {
        Json::Obj(fs) => if !keys_in(fs@, participant_keys()) {
            None
        } else {
            let name = req_str_v(fs@, "name"@);
            if name is None {
                None
            } else {
                Some(ParticipantV { name: name->0 })
            }
        },
        _ => None,
    }
}

pub fn parse_participant(j: &Json) -> (r: Option<MessageParticipant>)
    ensures
        match r {
            Some(v) => spec_participant(*j) == Some(v@),
            None => spec_participant(*j) is None,
        },
{
    match j {
        Json::Obj(fs) => {
            let allowed: Vec<&str> = vec!["name"];
            proof {
                assert(allowed.deep_view() =~= participant_keys());
            }
            if !keys_check(fs, &allowed) {
                return None;
            }
            let name = match get_req_str(fs, "name") {
                None => return None,
                Some(v) => v,
            };
            Some(MessageParticipant { name })
        },
        _ => None,
    }
}

pub open spec fn magic_word_keys() -> Seq<Seq<char>> {
    seq!["magic_word"@, "creation_timestamp_ms"@, "animation_emoji"@]
}

/// A magic word: the word, an optional milliseconds-based creation timestamp,
/// and an animation emoji.
pub open spec fn spec_magic_word(j: Json) -> Option<MagicWordV> {
    match j {
        Json::Obj(fs) => if !keys_in(fs@, magic_word_keys()) {
            None
        } else {
            let word = req_str_v(fs@, "magic_word"@);
            let ts = opt_u64_v(fs@, "creation_timestamp_ms"@);
            let emoji = req_str_v(fs@, "animation_emoji"@);
            if word is None || ts is None || emoji is None {
                None
            } else {
                Some(
                    MagicWordV {
                        magic_word: word->0,
                        creation_timestamp_ms: ts->0,
                        animation_emoji: emoji->0,
                    },
                )
            }
        },
        _ => None,
    }
}

pub fn parse_magic_word(j: &Json) -> (r: Option<MessageMagicWord>)
    ensures
        match r {
            Some(v) => spec_magic_word(*j) == Some(v@),
            None => spec_magic_word(*j) is None,
        },
{
    match j {
        Json::Obj(fs) => {
            let allowed: Vec<&str> = vec!["magic_word", "creation_timestamp_ms", "animation_emoji"];
            proof {
                assert(allowed.deep_view() =~= magic_word_keys());
            }
            if !keys_check(fs, &allowed) {
                return None;
            }
            let magic_word = match get_req_str(fs, "magic_word") {
                None => return None,
                Some(v) => v,
            };
            let ts = match get_opt_u64(fs, "creation_timestamp_ms") {
                None => return None,
                Some(v) => v,
            };
            let animation_emoji = match get_req_str(fs, "animation_emoji") {
                None => return None,
                Some(v) => v,
            };
            Some(MessageMagicWord { magic_word, creation_timestamp_ms: ts, animation_emoji })
        },
        _ => None,
    }
}

pub open spec fn joinable_mode_keys() -> Seq<Seq<char>> {
    seq!["mode"@, "link"@]
}

/// A joinable mode: an integer mode and a link.
pub open spec fn spec_joinable_mode(j: Json) -> Option<JoinableModeV> {
    match j {
        Json::Obj(fs) => if !keys_in(fs@, joinable_mode_keys()) {
            None
        } else {
            let mode = req_u64_v(fs@, "mode"@);
            let link = req_str_v(fs@, "link"@);
            if mode is None || link is None {
                None
            } else {
                Some(JoinableModeV { mode: mode->0, link: link->0 })
            }
        },
        _ => None,
    }
}

pub fn parse_joinable_mode(j: &Json) -> (r: Option<MessageJoinableMode>)
    ensures
        match r {
            Some(v) => spec_joinable_mode(*j) == Some(v@),
            None => spec_joinable_mode(*j) is None,
        },
{
    match j {
        Json::Obj(fs) => {
            let allowed: Vec<&str> = vec!["mode", "link"];
            proof {
                assert(allowed.deep_view() =~= joinable_mode_keys());
            }
            if !keys_check(fs, &allowed) {
                return None;
            }
            let mode = match get_req_u64(fs, "mode") {
                None => return None,
                Some(v) => v,
            };
            let link = match get_req_str(fs, "link") {
                None => return None,
                Some(v) => v,
            };
            Some(MessageJoinableMode { mode, link })
        },
        _ => None,
    }
}

pub open spec fn share_keys() -> Seq<Seq<char>> {
    seq!["link"@, "share_text"@, "is_geoblocked_for_viewer"@]
}

/// A share: every field optional.
pub open spec fn spec_share(j: Json) -> Option<ShareV> {
    match j {
        Json::Obj(fs) => if !keys_in(fs@, share_keys()) {
            None
        } else {
            let link = opt_str_v(fs@, "link"@);
            let text = opt_str_v(fs@, "share_text"@);
            let geo = opt_bool_v(fs@, "is_geoblocked_for_viewer"@);
            if link is None || text is None || geo is None {
                None
            } else {
                Some(ShareV { link: link->0, share_text: text->0, is_geoblocked_for_viewer: geo->0 })
            }
        },
        _ => None,
    }
}

pub fn parse_share(j: &Json) -> (r: Option<MessageShare>)
    ensures
        match r {
            Some(v) => spec_share(*j) == Some(v@),
            None => spec_share(*j) is None,
        },
{
    match j {
        Json::Obj(fs) => {
            let allowed: Vec<&str> = vec!["link", "share_text", "is_geoblocked_for_viewer"];
            proof {
                assert(allowed.deep_view() =~= share_keys());
            }
            if !keys_check(fs, &allowed) {
                return None;
            }
            let link = match get_opt_str(fs, "link") {
                None => return None,
                Some(v) => v,
            };
            let share_text = match get_opt_str(fs, "share_text") {
                None => return None,
                Some(v) => v,
            };
            let geo = match get_opt_bool(fs, "is_geoblocked_for_viewer") {
                None => return None,
                Some(v) => v,
            };
            Some(MessageShare { link, share_text, is_geoblocked_for_viewer: geo })
        },
        _ => None,
    }
}

pub open spec fn media_keys() -> Seq<Seq<char>> {
    seq!["uri"@, "creation_timestamp"@, "share_text"@, "is_geoblocked_for_viewer"@]
}

/// A generic media record (used for audio files): every field optional.
pub open spec fn spec_media(j: Json) -> Option<MediaV> {
    match j {
        Json::Obj(fs) => if !keys_in(fs@, media_keys()) {
            None
        } else {
            let uri = opt_str_v(fs@, "uri"@);
            let ts = opt_u64_v(fs@, "creation_timestamp"@);
            let text = opt_str_v(fs@, "share_text"@);
            let geo = opt_bool_v(fs@, "is_geoblocked_for_viewer"@);
            if uri is None || ts is None || text is None || geo is None {
                None
            } else {
                Some(
                    MediaV {
                        uri: uri->0,
                        creation_timestamp: ts->0,
                        share_text: text->0,
                        is_geoblocked_for_viewer: geo->0,
                    },
                )
            }
        },
        _ => None,
    }
}

pub fn parse_media(j: &Json) -> (r: Option<MessageMedia>)
    ensures
        match r {
            Some(v) => spec_media(*j) == Some(v@),
            None => spec_media(*j) is None,
        },
{
    match j {
        Json::Obj(fs) => {
            let allowed: Vec<&str> = vec![
                "uri",
                "creation_timestamp",
                "share_text",
                "is_geoblocked_for_viewer",
            ];
            proof {
                assert(allowed.deep_view() =~= media_keys());
            }
            if !keys_check(fs, &allowed) {
                return None;
            }
            let uri = match get_opt_str(fs, "uri") {
                None => return None,
                Some(v) => v,
            };
            let ts = match get_opt_u64(fs, "creation_timestamp") {
                None => return None,
                Some(v) => v,
            };
            let share_text = match get_opt_str(fs, "share_text") {
                None => return None,
                Some(v) => v,
            };
            let geo = match get_opt_bool(fs, "is_geoblocked_for_viewer") {
                None => return None,
                Some(v) => v,
            };
            Some(MessageMedia { uri, creation_timestamp: ts, share_text, is_geoblocked_for_viewer: geo })
        },
        _ => None,
    }
}

pub open spec fn reaction_keys() -> Seq<Seq<char>> {
    seq!["reaction"@, "actor"@]
}

/// A reaction: the reaction text and who reacted.
pub open spec fn spec_reaction(j: Json) -> Option<ReactionV> {
    match j {
        Json::Obj(fs) => if !keys_in(fs@, reaction_keys()) {
            None
        } else {
            let reaction = req_str_v(fs@, "reaction"@);
            let actor = req_str_v(fs@, "actor"@);
            if reaction is None || actor is None {
                None
            } else {
                Some(ReactionV { reaction: reaction->0, actor: actor->0 })
            }
        },
        _ => None,
    }
}

pub fn parse_reaction(j: &Json) -> (r: Option<MessageReaction>)
    ensures
        match r {
            Some(v) => spec_reaction(*j) == Some(v@),
            None => spec_reaction(*j) is None,
        },
{
    match j {
        Json::Obj(fs) => {
            let allowed: Vec<&str> = vec!["reaction", "actor"];
            proof {
                assert(allowed.deep_view() =~= reaction_keys());
            }
            if !keys_check(fs, &allowed) {
                return None;
            }
            let reaction = match get_req_str(fs, "reaction") {
                None => return None,
                Some(v) => v,
            };
            let actor = match get_req_str(fs, "actor") {
                None => return None,
                Some(v) => v,
            };
            Some(MessageReaction { reaction, actor })
        },
        _ => None,
    }
}

pub open spec fn ai_sticker_keys() -> Seq<Seq<char>> {
    seq!["input"@]
}

/// An AI-sticker descriptor: one free-text input.
pub open spec fn spec_ai_sticker(j: Json) -> Option<AiStickerV> {
    match j {
        Json::Obj(fs) => if !keys_in(fs@, ai_sticker_keys()) {
            None
        } else {
            let input = req_str_v(fs@, "input"@);
            if input is None {
                None
            } else {
                Some(AiStickerV { input: input->0 })
            }
        },
        _ => None,
    }
}

pub fn parse_ai_sticker(j: &Json) -> (r: Option<MessageAiSticker>)
    ensures
        match r {
            Some(v) => spec_ai_sticker(*j) == Some(v@),
            None => spec_ai_sticker(*j) is None,
        },
{
    match j {
        Json::Obj(fs) => {
            let allowed: Vec<&str> = vec!["input"];
            proof {
                assert(allowed.deep_view() =~= ai_sticker_keys());
            }
            if !keys_check(fs, &allowed) {
                return None;
            }
            let input = match get_req_str(fs, "input") {
                None => return None,
                Some(v) => v,
            };
            Some(MessageAiSticker { input })
        },
        _ => None,
    }
}

pub open spec fn sticker_keys() -> Seq<Seq<char>> {
    seq!["uri"@, "ai_stickers"@]
}

/// A sticker: a uri and a required (possibly empty) array of AI-sticker
/// descriptors.
pub open spec fn spec_sticker(j: Json) -> Option<StickerV> {
    match j {
        Json::Obj(fs) => if !keys_in(fs@, sticker_keys()) {
            None
        } else {
            let uri = req_str_v(fs@, "uri"@);
            let ais = req_list_field(fs@, "ai_stickers"@, |x: Json| spec_ai_sticker(x));
            if uri is None || ais is None {
                None
            } else {
                Some(StickerV { uri: uri->0, ai_stickers: ais->0 })
            }
        },
        _ => None,
    }
}

pub fn parse_sticker(j: &Json) -> (r: Option<MessageSticker>)
    ensures
        match r {
            Some(v) => spec_sticker(*j) == Some(v@),
            None => spec_sticker(*j) is None,
        },
{
    match j {
        Json::Obj(fs) => {
            let allowed: Vec<&str> = vec!["uri", "ai_stickers"];
            proof {
                assert(allowed.deep_view() =~= sticker_keys());
            }
            if !keys_check(fs, &allowed) {
                return None;
            }
            let uri = match get_req_str(fs, "uri") {
                None => return None,
                Some(v) => v,
            };
            let ai_stickers = match obj_lookup(fs, "ai_stickers") {
                Some(Json::Arr(items)) => match parse_list(
                    items,
                    (|x: &Json| -> (r: Option<MessageAiSticker>)
                        ensures
                            (match r {
                                Some(v) => spec_ai_sticker(*x) == Some(v@),
                                None => spec_ai_sticker(*x) is None,
                            }),
                        { parse_ai_sticker(x) }),
                    Ghost(|x: Json| spec_ai_sticker(x)),
                ) {
                    None => return None,
                    Some(v) => v,
                },
                _ => return None,
            };
            Some(MessageSticker { uri, ai_stickers })
        },
        _ => None,
    }
}

pub open spec fn file_keys() -> Seq<Seq<char>> {
    seq!["uri"@, "creation_timestamp"@, "title"@]
}

/// A file attachment: a required uri, an optional seconds-based creation
/// timestamp, and an optional title.
pub open spec fn spec_file(j: Json) -> Option<FileV> {
    match j {
        Json::Obj(fs) => if !keys_in(fs@, file_keys()) {
            None
        } else {
            let uri = req_str_v(fs@, "uri"@);
            let ts = opt_u64_v(fs@, "creation_timestamp"@);
            let title = opt_str_v(fs@, "title"@);
            if uri is None || ts is None || title is None {
                None
            } else {
                Some(FileV { uri: uri->0, creation_timestamp: ts->0, title: title->0 })
            }
        },
        _ => None,
    }
}

pub fn parse_file(j: &Json) -> (r: Option<MessageFile>)
    ensures
        match r {
            Some(v) => spec_file(*j) == Some(v@),
            None => spec_file(*j) is None,
        },
{
    match j {
        Json::Obj(fs) => {
            let allowed: Vec<&str> = vec!["uri", "creation_timestamp", "title"];
            proof {
                assert(allowed.deep_view() =~= file_keys());
            }
            if !keys_check(fs, &allowed) {
                return None;
            }
            let uri = match get_req_str(fs, "uri") {
                None => return None,
                Some(v) => v,
            };
            let ts = match get_opt_u64(fs, "creation_timestamp") {
                None => return None,
                Some(v) => v,
            };
            let title = match get_opt_str(fs, "title") {
                None => return None,
                Some(v) => v,
            };
            Some(MessageFile { uri, creation_timestamp: ts, title })
        },
        _ => None,
    }
}

/// An array of videos.
pub fn parse_videos(items: &Vec<Json>) -> (r: Option<Vec<MessageVideo>>)
    ensures
        match r {
            Some(v) => list_of(items@, |x: Json| spec_video(x)) == Some(views_of(v@)),
            None => list_of(items@, |x: Json| spec_video(x)) is None,
        },
{
    parse_list(
        items,
        (|x: &Json| -> (r: Option<MessageVideo>)
            ensures
                (match r {
                    Some(v) => spec_video(*x) == Some(v@),
                    None => spec_video(*x) is None,
                }),
            { parse_video(x) }),
        Ghost(|x: Json| spec_video(x)),
    )
}

/// An array of photos (or gifs).
pub fn parse_photos(items: &Vec<Json>) -> (r: Option<Vec<MessagePhoto>>)
    ensures
        match r {
            Some(v) => list_of(items@, |x: Json| spec_photo(x)) == Some(views_of(v@)),
            None => list_of(items@, |x: Json| spec_photo(x)) is None,
        },
{
    parse_list(
        items,
        (|x: &Json| -> (r: Option<MessagePhoto>)
            ensures
                (match r {
                    Some(v) => spec_photo(*x) == Some(v@),
                    None => spec_photo(*x) is None,
                }),
            { parse_photo(x) }),
        Ghost(|x: Json| spec_photo(x)),
    )
}

/// An array of reactions.
pub fn parse_reactions(items: &Vec<Json>) -> (r: Option<Vec<MessageReaction>>)
    ensures
        match r {
            Some(v) => list_of(items@, |x: Json| spec_reaction(x)) == Some(views_of(v@)),
            None => list_of(items@, |x: Json| spec_reaction(x)) is None,
        },
{
    parse_list(
        items,
        (|x: &Json| -> (r: Option<MessageReaction>)
            ensures
                (match r {
                    Some(v) => spec_reaction(*x) == Some(v@),
                    None => spec_reaction(*x) is None,
                }),
            { parse_reaction(x) }),
        Ghost(|x: Json| spec_reaction(x)),
    )
}

/// An array of file attachments.
pub fn parse_files(items: &Vec<Json>) -> (r: Option<Vec<MessageFile>>)
    ensures
        match r {
            Some(v) => list_of(items@, |x: Json| spec_file(x)) == Some(views_of(v@)),
            None => list_of(items@, |x: Json| spec_file(x)) is None,
        },
{
    parse_list(
        items,
        (|x: &Json| -> (r: Option<MessageFile>)
            ensures
                (match r {
                    Some(v) => spec_file(*x) == Some(v@),
                    None => spec_file(*x) is None,
                }),
            { parse_file(x) }),
        Ghost(|x: Json| spec_file(x)),
    )
}

/// An array of media records.
pub fn parse_media_list(items: &Vec<Json>) -> (r: Option<Vec<MessageMedia>>)
    ensures
        match r {
            Some(v) => list_of(items@, |x: Json| spec_media(x)) == Some(views_of(v@)),
            None => list_of(items@, |x: Json| spec_media(x)) is None,
        },
{
    parse_list(
        items,
        (|x: &Json| -> (r: Option<MessageMedia>)
            ensures
                (match r {
                    Some(v) => spec_media(*x) == Some(v@),
                    None => spec_media(*x) is None,
                }),
            { parse_media(x) }),
        Ghost(|x: Json| spec_media(x)),
    )
}

/// An array of participants.
pub fn parse_participants(items: &Vec<Json>) -> (r: Option<Vec<MessageParticipant>>)
    ensures
        match r {
            Some(v) => list_of(items@, |x: Json| spec_participant(x)) == Some(views_of(v@)),
            None => list_of(items@, |x: Json| spec_participant(x)) is None,
        },
{
    parse_list(
        items,
        (|x: &Json| -> (r: Option<MessageParticipant>)
            ensures
                (match r {
                    Some(v) => spec_participant(*x) == Some(v@),
                    None => spec_participant(*x) is None,
                }),
            { parse_participant(x) }),
        Ghost(|x: Json| spec_participant(x)),
    )
}

/// An array of magic words.
pub fn parse_magic_words(items: &Vec<Json>) -> (r: Option<Vec<MessageMagicWord>>)
    ensures
        match r {
            Some(v) => list_of(items@, |x: Json| spec_magic_word(x)) == Some(views_of(v@)),
            None => list_of(items@, |x: Json| spec_magic_word(x)) is None,
        },
{
    parse_list(
        items,
        (|x: &Json| -> (r: Option<MessageMagicWord>)
            ensures
                (match r {
                    Some(v) => spec_magic_word(*x) == Some(v@),
                    None => spec_magic_word(*x) is None,
                }),
            { parse_magic_word(x) }),
        Ghost(|x: Json| spec_magic_word(x)),
    )
}

pub open spec fn message_keys() -> Seq<Seq<char>> {
    seq![
        "sender_name"@,
        "is_unsent"@,
        "timestamp_ms"@,
        "content"@,
        "share"@,
        "videos"@,
        "reactions"@,
        "photos"@,
        "gifs"@,
        "is_geoblocked_for_viewer"@,
        "call_duration"@,
        "sticker"@,
        "files"@,
        "audio_files"@,
        "ip"@,
        "missed"@,
    ]
}

/// One message: a required sender and milliseconds timestamp, a required
/// geoblocking flag, and everything else optional.
pub open spec fn spec_message(j: Json) -> Option<MessageV> {
    match j {
        Json::Obj(fs) => if !keys_in(fs@, message_keys()) {
            None
        } else {
            let sender_name = req_str_v(fs@, "sender_name"@);
            let is_unsent = opt_bool_v(fs@, "is_unsent"@);
            let timestamp_ms = req_u64_v(fs@, "timestamp_ms"@);
            let content = opt_str_v(fs@, "content"@);
            let share = opt_record_field(fs@, "share"@, |x: Json| spec_share(x));
            let videos = opt_list_field(fs@, "videos"@, |x: Json| spec_video(x));
            let reactions = opt_list_field(fs@, "reactions"@, |x: Json| spec_reaction(x));
            let photos = opt_list_field(fs@, "photos"@, |x: Json| spec_photo(x));
            let gifs = opt_list_field(fs@, "gifs"@, |x: Json| spec_photo(x));
            let geo = req_bool_v(fs@, "is_geoblocked_for_viewer"@);
            let call_duration = opt_u64_v(fs@, "call_duration"@);
            let sticker = opt_record_field(fs@, "sticker"@, |x: Json| spec_sticker(x));
            let files = opt_list_field(fs@, "files"@, |x: Json| spec_file(x));
            let audio_files = opt_list_field(fs@, "audio_files"@, |x: Json| spec_media(x));
            let ip = opt_ip_v(fs@, "ip"@);
            let missed = opt_bool_v(fs@, "missed"@);
            if sender_name is None || is_unsent is None || timestamp_ms is None || content is None
                || share is None || videos is None || reactions is None || photos is None
                || gifs is None || geo is None || call_duration is None || sticker is None
                || files is None || audio_files is None || ip is None || missed is None {
                None
            } else {
                Some(
                    MessageV {
                        sender_name: sender_name->0,
                        is_unsent: is_unsent->0,
                        timestamp_ms: timestamp_ms->0,
                        content: content->0,
                        share: share->0,
                        videos: videos->0,
                        reactions: reactions->0,
                        photos: photos->0,
                        gifs: gifs->0,
                        is_geoblocked_for_viewer: geo->0,
                        call_duration: call_duration->0,
                        sticker: sticker->0,
                        files: files->0,
                        audio_files: audio_files->0,
                        ip: ip->0,
                        missed: missed->0,
                    },
                )
            }
        },
        _ => None,
    }
}

#[verifier::rlimit(60)]
pub fn parse_message(j: &Json) -> (r: Option<Message>)
    ensures
        match r {
            Some(v) => spec_message(*j) == Some(v@),
            None => spec_message(*j) is None,
        },
{
    match j {
        Json::Obj(fs) => {
            let allowed: Vec<&str> = vec![
                "sender_name",
                "is_unsent",
                "timestamp_ms",
                "content",
                "share",
                "videos",
                "reactions",
                "photos",
                "gifs",
                "is_geoblocked_for_viewer",
                "call_duration",
                "sticker",
                "files",
                "audio_files",
                "ip",
                "missed",
            ];
            proof {
                assert(allowed.deep_view() =~= message_keys());
            }
            if !keys_check(fs, &allowed) {
                return None;
            }
            let sender_name = match get_req_str(fs, "sender_name") {
                None => return None,
                Some(v) => v,
            };
            let is_unsent = match get_opt_bool(fs, "is_unsent") {
                None => return None,
                Some(v) => v,
            };
            let timestamp_ms = match get_req_u64(fs, "timestamp_ms") {
                None => return None,
                Some(v) => v,
            };
            let content = match get_opt_str(fs, "content") {
                None => return None,
                Some(v) => v,
            };
            let share = match obj_lookup(fs, "share") {
                None => None,
                Some(js) => match js {
                    Json::Null => None,
                    _ => match parse_share(js) {
                        None => return None,
                        Some(v) => Some(v),
                    },
                },
            };
            let videos = match obj_lookup(fs, "videos") {
                None => None,
                Some(jv) => match jv {
                    Json::Null => None,
                    Json::Arr(items) => match parse_videos(items) {
                        None => return None,
                        Some(v) => Some(v),
                    },
                    _ => return None,
                },
            };
            let reactions = match obj_lookup(fs, "reactions") {
                None => None,
                Some(jv) => match jv {
                    Json::Null => None,
                    Json::Arr(items) => match parse_reactions(items) {
                        None => return None,
                        Some(v) => Some(v),
                    },
                    _ => return None,
                },
            };
            let photos = match obj_lookup(fs, "photos") {
                None => None,
                Some(jv) => match jv {
                    Json::Null => None,
                    Json::Arr(items) => match parse_photos(items) {
                        None => return None,
                        Some(v) => Some(v),
                    },
                    _ => return None,
                },
            };
            let gifs = match obj_lookup(fs, "gifs") {
                None => None,
                Some(jv) => match jv {
                    Json::Null => None,
                    Json::Arr(items) => match parse_photos(items) {
                        None => return None,
                        Some(v) => Some(v),
                    },
                    _ => return None,
                },
            };
            let geo = match get_req_bool(fs, "is_geoblocked_for_viewer") {
                None => return None,
                Some(v) => v,
            };
            let call_duration = match get_opt_u64(fs, "call_duration") {
                None => return None,
                Some(v) => v,
            };
            let sticker = match obj_lookup(fs, "sticker") {
                None => None,
                Some(js) => match js {
                    Json::Null => None,
                    _ => match parse_sticker(js) {
                        None => return None,
                        Some(v) => Some(v),
                    },
                },
            };
            let files = match obj_lookup(fs, "files") {
                None => None,
                Some(jv) => match jv {
                    Json::Null => None,
                    Json::Arr(items) => match parse_files(items) {
                        None => return None,
                        Some(v) => Some(v),
                    },
                    _ => return None,
                },
            };
            let audio_files = match obj_lookup(fs, "audio_files") {
                None => None,
                Some(jv) => match jv {
                    Json::Null => None,
                    Json::Arr(items) => match parse_media_list(items) {
                        None => return None,
                        Some(v) => Some(v),
                    },
                    _ => return None,
                },
            };
            let ip = match get_opt_ip(fs, "ip") {
                None => return None,
                Some(v) => v,
            };
            let missed = match get_opt_bool(fs, "missed") {
                None => return None,
                Some(v) => v,
            };
            Some(
                Message {
                    sender_name,
                    is_unsent,
                    timestamp_ms,
                    content,
                    share,
                    videos,
                    reactions,
                    photos,
                    gifs,
                    is_geoblocked_for_viewer: geo,
                    call_duration,
                    sticker,
                    files,
                    audio_files,
                    ip,
                    missed,
                },
            )
        },
        _ => None,
    }
}

pub open spec fn thread_keys() -> Seq<Seq<char>> {
    seq![
        "participants"@,
        "messages"@,
        "title"@,
        "is_still_participant"@,
        "thread_path"@,
        "magic_words"@,
        "image"@,
        "joinable_mode"@,
    ]
}

/// One whole thread-export document.
pub open spec fn spec_thread(j: Json) -> Option<ThreadV> {
    match j {
        Json::Obj(fs) => if !keys_in(fs@, thread_keys()) {
            None
        } else {
            let participants = req_list_field(fs@, "participants"@, |x: Json| spec_participant(x));
            let messages = req_list_field(fs@, "messages"@, |x: Json| spec_message(x));
            let title = req_str_v(fs@, "title"@);
            let still = req_bool_v(fs@, "is_still_participant"@);
            let thread_path = req_str_v(fs@, "thread_path"@);
            let magic_words = req_list_field(fs@, "magic_words"@, |x: Json| spec_magic_word(x));
            let image = opt_record_field(fs@, "image"@, |x: Json| spec_photo(x));
            let joinable_mode = opt_record_field(fs@, "joinable_mode"@, |x: Json| spec_joinable_mode(x));
            if participants is None || messages is None || title is None || still is None
                || thread_path is None || magic_words is None || image is None
                || joinable_mode is None {
                None
            } else {
                Some(
                    ThreadV {
                        participants: participants->0,
                        messages: messages->0,
                        title: title->0,
                        is_still_participant: still->0,
                        thread_path: thread_path->0,
                        magic_words: magic_words->0,
                        image: image->0,
                        joinable_mode: joinable_mode->0,
                    },
                )
            }
        },
        _ => None,
    }
}

/// The thread denoted by a whole piece of text, if it is well-formed JSON
/// that meets the schema.
pub open spec fn spec_thread_text(s: Seq<char>) -> Option<ThreadV> {
    match crate::json::json_of(s) {
        None => None,
        Some(j) => spec_thread(j),
    }
}

#[verifier::rlimit(30)]
pub fn parse_thread(j: &Json) -> (r: Option<MessageFileParser>)
    ensures
        match r {
            Some(v) => spec_thread(*j) == Some(v@),
            None => spec_thread(*j) is None,
        },
{
    match j {
        Json::Obj(fs) => {
            let allowed: Vec<&str> = vec![
                "participants",
                "messages",
                "title",
                "is_still_participant",
                "thread_path",
                "magic_words",
                "image",
                "joinable_mode",
            ];
            proof {
                assert(allowed.deep_view() =~= thread_keys());
            }
            if !keys_check(fs, &allowed) {
                return None;
            }
            let participants = match obj_lookup(fs, "participants") {
                Some(Json::Arr(items)) => match parse_participants(items) {
                    None => return None,
                    Some(v) => v,
                },
                _ => return None,
            };
            let messages = match obj_lookup(fs, "messages") {
                Some(Json::Arr(items)) => match parse_message_list(items) {
                    None => return None,
                    Some(v) => v,
                },
                _ => return None,
            };
            let title = match get_req_str(fs, "title") {
                None => return None,
                Some(v) => v,
            };
            let is_still_participant = match get_req_bool(fs, "is_still_participant") {
                None => return None,
                Some(v) => v,
            };
            let thread_path = match get_req_str(fs, "thread_path") {
                None => return None,
                Some(v) => v,
            };
            let magic_words = match obj_lookup(fs, "magic_words") {
                Some(Json::Arr(items)) => match parse_magic_words(items) {
                    None => return None,
                    Some(v) => v,
                },
                _ => return None,
            };
            let image = match obj_lookup(fs, "image") {
                None => None,
                Some(ji) => match ji {
                    Json::Null => None,
                    _ => match parse_photo(ji) {
                        None => return None,
                        Some(v) => Some(v),
                    },
                },
            };
            let joinable_mode = match obj_lookup(fs, "joinable_mode") {
                None => None,
                Some(jm) => match jm {
                    Json::Null => None,
                    _ => match parse_joinable_mode(jm) {
                        None => return None,
                        Some(v) => Some(v),
                    },
                },
            };
            Some(
                MessageFileParser {
                    participants,
                    messages,
                    title,
                    is_still_participant,
                    thread_path,
                    magic_words,
                    image,
                    joinable_mode,
                },
            )
        },
        _ => None,
    }
}

impl MessageFileParser {
    /// Parse the full text of one thread-export file against the closed
    /// schema.  Success exactly when the text is well-formed JSON meeting the
    /// schema; every failure is collapsed into one generic error kind.
    pub fn parse_text(s: &str) -> (r: Result<MessageFileParser, crate::MagicError>)
        ensures
            match r {
                Ok(t) => spec_thread_text(s@) == Some(t@),
                Err(e) => spec_thread_text(s@) is None && e is Generic,
            },
    {
        match crate::json::parse_json(s) {
            None => Err(
                crate::MagicError::Generic(String::from_str("not well-formed JSON")),
            ),
            Some(j) => match parse_thread(&j) {
                None => Err(
                    crate::MagicError::Generic(
                        String::from_str("JSON does not meet the thread-export schema"),
                    ),
                ),
                Some(t) => Ok(t),
            },
        }
    }
}

// ----------------------------------------------------------------------------
// The closed-schema law: an object carrying any key outside its record's
// allow-list is rejected.
// ----------------------------------------------------------------------------

/// A thread-export object with one unrecognized key fails to parse.
pub proof fn lemma_closed_schema_thread(j: Json, i: int)
    requires
        j matches Json::Obj(fs) && 0 <= i < fs@.len() && !thread_keys().contains(fs@[i].0@),
    ensures
        spec_thread(j) is None,
{
}

/// A message object with one unrecognized key fails to parse.
pub proof fn lemma_closed_schema_message(j: Json, i: int)
    requires
        j matches Json::Obj(fs) && 0 <= i < fs@.len() && !message_keys().contains(fs@[i].0@),
    ensures
        spec_message(j) is None,
{
}

/// A photo object with one unrecognized key fails to parse.
pub proof fn lemma_closed_schema_photo(j: Json, i: int)
    requires
        j matches Json::Obj(fs) && 0 <= i < fs@.len() && !photo_keys().contains(fs@[i].0@),
    ensures
        spec_photo(j) is None,
{
}

/// A video object with one unrecognized key fails to parse.
pub proof fn lemma_closed_schema_video(j: Json, i: int)
    requires
        j matches Json::Obj(fs) && 0 <= i < fs@.len() && !video_keys().contains(fs@[i].0@),
    ensures
        spec_video(j) is None,
{
}

/// A share object with one unrecognized key fails to parse.
pub proof fn lemma_closed_schema_share(j: Json, i: int)
    requires
        j matches Json::Obj(fs) && 0 <= i < fs@.len() && !share_keys().contains(fs@[i].0@),
    ensures
        spec_share(j) is None,
{
}

/// A participant object with one unrecognized key fails to parse.
pub proof fn lemma_closed_schema_participant(j: Json, i: int)
    requires
        j matches Json::Obj(fs) && 0 <= i < fs@.len() && !participant_keys().contains(fs@[i].0@),
    ensures
        spec_participant(j) is None,
{
}

/// A magic-word object with one unrecognized key fails to parse.
pub proof fn lemma_closed_schema_magic_word(j: Json, i: int)
    requires
        j matches Json::Obj(fs) && 0 <= i < fs@.len() && !magic_word_keys().contains(fs@[i].0@),
    ensures
        spec_magic_word(j) is None,
{
}

/// A joinable-mode object with one unrecognized key fails to parse.
pub proof fn lemma_closed_schema_joinable_mode(j: Json, i: int)
    requires
        j matches Json::Obj(fs) && 0 <= i < fs@.len() && !joinable_mode_keys().contains(fs@[i].0@),
    ensures
        spec_joinable_mode(j) is None,
{
}

/// A media object with one unrecognized key fails to parse.
pub proof fn lemma_closed_schema_media(j: Json, i: int)
    requires
        j matches Json::Obj(fs) && 0 <= i < fs@.len() && !media_keys().contains(fs@[i].0@),
    ensures
        spec_media(j) is None,
{
}

/// A reaction object with one unrecognized key fails to parse.
pub proof fn lemma_closed_schema_reaction(j: Json, i: int)
    requires
        j matches Json::Obj(fs) && 0 <= i < fs@.len() && !reaction_keys().contains(fs@[i].0@),
    ensures
        spec_reaction(j) is None,
{
}

/// An AI-sticker object with one unrecognized key fails to parse.
pub proof fn lemma_closed_schema_ai_sticker(j: Json, i: int)
    requires
        j matches Json::Obj(fs) && 0 <= i < fs@.len() && !ai_sticker_keys().contains(fs@[i].0@),
    ensures
        spec_ai_sticker(j) is None,
{
}

/// A sticker object with one unrecognized key fails to parse.
pub proof fn lemma_closed_schema_sticker(j: Json, i: int)
    requires
        j matches Json::Obj(fs) && 0 <= i < fs@.len() && !sticker_keys().contains(fs@[i].0@),
    ensures
        spec_sticker(j) is None,
{
}

/// A file-attachment object with one unrecognized key fails to parse.
pub proof fn lemma_closed_schema_file(j: Json, i: int)
    requires
        j matches Json::Obj(fs) && 0 <= i < fs@.len() && !file_keys().contains(fs@[i].0@),
    ensures
        spec_file(j) is None,
{
}

/// One failing element fails its whole array.
pub proof fn lemma_list_of_bad_elem<TV>(items: Seq<Json>, f: spec_fn(Json) -> Option<TV>, i: int)
    requires
        0 <= i < items.len(),
        f(items[i]) is None,
    ensures
        list_of(items, f) is None,
    decreases i,
{
    if i > 0 {
        if f(items[0]) is None {
        } else {
            assert(items.drop_first()[i - 1] == items[i]);
            lemma_list_of_bad_elem(items.drop_first(), f, i - 1);
        }
    }
}

/// The closed schema reaches through the document: one unrecognized key on
/// any message of a thread-export document fails the whole document.
pub proof fn lemma_closed_schema_nested_message(j: Json, mi: int, ki: int)
    requires
        ({
            &&& j matches Json::Obj(tfs)
            &&& lookup(tfs@, "messages"@) matches Some(m)
            &&& m matches Json::Arr(msgs)
            &&& 0 <= mi < msgs@.len()
            &&& msgs@[mi] matches Json::Obj(mfs)
            &&& 0 <= ki < mfs@.len()
            &&& !message_keys().contains(mfs@[ki].0@)
        }),
    ensures
        spec_thread(j) is None,
{
    match j {
        Json::Obj(tfs) => match lookup(tfs@, "messages"@) {
            Some(Json::Arr(msgs)) => {
                lemma_closed_schema_message(msgs@[mi], ki);
                lemma_list_of_bad_elem(msgs@, |x: Json| spec_message(x), mi);
            },
            _ => {},
        },
        _ => {},
    }
}

/// The closed schema reaches through every nesting level: one unrecognized
/// key on a photo of a message of a thread-export document fails the whole
/// document.  The same argument runs for each attachment kind through its
/// own record lemma.
pub proof fn lemma_closed_schema_nested_photo(j: Json, mi: int, pi: int, ki: int)
    requires
        ({
            &&& j matches Json::Obj(tfs)
            &&& lookup(tfs@, "messages"@) matches Some(m)
            &&& m matches Json::Arr(msgs)
            &&& 0 <= mi < msgs@.len()
            &&& msgs@[mi] matches Json::Obj(mfs)
            &&& lookup(mfs@, "photos"@) matches Some(p)
            &&& p matches Json::Arr(ps)
            &&& 0 <= pi < ps@.len()
            &&& ps@[pi] matches Json::Obj(pfs)
            &&& 0 <= ki < pfs@.len()
            &&& !photo_keys().contains(pfs@[ki].0@)
        }),
    ensures
        spec_thread(j) is None,
{
    match j {
        Json::Obj(tfs) => match lookup(tfs@, "messages"@) {
            Some(Json::Arr(msgs)) => {
                match msgs@[mi] {
                    Json::Obj(mfs) => match lookup(mfs@, "photos"@) {
                        Some(Json::Arr(ps)) => {
                            lemma_closed_schema_photo(ps@[pi], ki);
                            lemma_list_of_bad_elem(ps@, |x: Json| spec_photo(x), pi);
                            assert(spec_message(msgs@[mi]) is None);
                        },
                        _ => {},
                    },
                    _ => {},
                }
                lemma_list_of_bad_elem(msgs@, |x: Json| spec_message(x), mi);
            },
            _ => {},
        },
        _ => {},
    }
}

/// An array of messages.
pub fn parse_message_list(items: &Vec<Json>) -> (r: Option<Vec<Message>>)
    ensures
        match r {
            Some(v) => list_of(items@, |x: Json| spec_message(x)) == Some(views_of(v@)),
            None => list_of(items@, |x: Json| spec_message(x)) is None,
        },
{
    parse_list(
        items,
        (|x: &Json| -> (r: Option<Message>)
            ensures
                (match r {
                    Some(v) => spec_message(*x) == Some(v@),
                    None => spec_message(*x) is None,
                }),
            { parse_message(x) }),
        Ghost(|x: Json| spec_message(x)),
    )
}

} // verus!
