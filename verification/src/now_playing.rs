use vstd::prelude::*;

use crate::text::{law_trim_idempotent, trim, trim_text};

verus! {

/// What the media monitor reports about the track that is playing.
#[derive(Clone, Debug, PartialEq, Eq)]
pub struct NowPlaying {
    pub title: Option<String>,
    pub artist: Option<String>,
    pub album: Option<String>,
    pub app: Option<String>,
    pub playing: bool,
}

/// The value of a [`NowPlaying`], with texts as character sequences.
pub struct NowPlayingView {
    pub title: Option<Seq<char>>,
    pub artist: Option<Seq<char>>,
    pub album: Option<Seq<char>>,
    pub app: Option<Seq<char>>,
    pub playing: bool,
}

/// The characters of an optional text.
pub open spec fn text_option_view(text: Option<String>) -> Option<Seq<char>> {
    match text {
        Some(s) => Some(s@),
        None => None,
    }
}

impl View for NowPlaying {
    type V = NowPlayingView;

    open spec fn view(&self) -> NowPlayingView {
        NowPlayingView {
            title: text_option_view(self.title),
            artist: text_option_view(self.artist),
            album: text_option_view(self.album),
            app: text_option_view(self.app),
            playing: self.playing,
        }
    }
}

/// The value of an optional [`NowPlaying`].
pub open spec fn now_playing_option_view(np: Option<NowPlaying>) -> Option<NowPlayingView> {
    match np {
        Some(n) => Some(n@),
        None => None,
    }
}

/// One member value of a JSON object, as far as the media payload is read: strings and
/// booleans with their contents, other kinds by kind only.
pub enum JsonMember {
    Null,
    Bool(bool),
    Number,
    Text(String),
    Array,
    Object,
}

/// The value of a [`JsonMember`].
pub enum JsonMemberView {
    Null,
    Bool(bool),
    Number,
    Text(Seq<char>),
    Array,
    Object,
}

impl View for JsonMember {
    type V = JsonMemberView;

    open spec fn view(&self) -> JsonMemberView {
        match self {
            JsonMember::Null => JsonMemberView::Null,
            JsonMember::Bool(b) => JsonMemberView::Bool(*b),
            JsonMember::Number => JsonMemberView::Number,
            JsonMember::Text(s) => JsonMemberView::Text(s@),
            JsonMember::Array => JsonMemberView::Array,
            JsonMember::Object => JsonMemberView::Object,
        }
    }
}

/// The members of a JSON object: key and value, as values.
pub open spec fn members_view(members: Seq<(String, JsonMember)>) -> Seq<(Seq<char>, JsonMemberView)> {
    members.map_values(|m: (String, JsonMember)| (m.0@, m.1@))
}

/// The members of the top-level JSON object that `bytes` encode, as `serde_json` parses
/// them; `None` when `bytes` are not JSON text or their top level is not an object.
pub uninterp spec fn json_object_members(bytes: Seq<u8>) -> Option<Seq<(Seq<char>, JsonMemberView)>>;

/// Parses `bytes` with `serde_json::from_slice` into a `serde_json::Value` and, when the top
/// level is an object, lists its members. The contract claims only that the result is the
/// named function `json_object_members` of the bytes, so that equal bytes parse alike; what
/// JSON is accepted and how keys are ordered is `serde_json`'s and is not stated.
#[verifier::external_body]
fn parse_json_object(bytes: &[u8]) -> (r: Option<Vec<(String, JsonMember)>>)
    ensures
        match r {
            Some(members) => json_object_members(bytes@) == Some(members_view(members@)),
            None => json_object_members(bytes@) is None,
        },
{
    match serde_json::from_slice::<serde_json::Value>(bytes) {
        Ok(serde_json::Value::Object(map)) => Some(map.into_iter().map(|(key, value)| {
            let member = match value {
                serde_json::Value::Null => JsonMember::Null,
                serde_json::Value::Bool(flag) => JsonMember::Bool(flag),
                serde_json::Value::Number(_) => JsonMember::Number,
                serde_json::Value::String(text) => JsonMember::Text(text),
                serde_json::Value::Array(_) => JsonMember::Array,
                serde_json::Value::Object(_) => JsonMember::Object,
            };
            (key, member)
        }).collect()),
        _ => None,
    }
}

/// The value of the first member named `key`, if any.
pub open spec fn lookup(members: Seq<(Seq<char>, JsonMemberView)>, key: Seq<char>) -> Option<JsonMemberView>
    decreases members.len(),
{
    if members.len() == 0 {
        None
    } else if members[0].0 == key {
        Some(members[0].1)
    } else {
        lookup(members.drop_first(), key)
    }
}

/// The member `key` when it is a string that is not blank, without surrounding white space.
pub open spec fn string_member(members: Seq<(Seq<char>, JsonMemberView)>, key: Seq<char>) -> Option<Seq<char>> {
    match lookup(members, key) {
        Some(JsonMemberView::Text(s)) => if trim(s).len() > 0 {
            Some(trim(s))
        } else {
            None
        },
        _ => None,
    }
}

/// The member `key` when it is a boolean.
pub open spec fn bool_member(members: Seq<(Seq<char>, JsonMemberView)>, key: Seq<char>) -> Option<bool> {
    match lookup(members, key) {
        Some(JsonMemberView::Bool(b)) => Some(b),
        _ => None,
    }
}

/// The first of two optional texts that is present.
pub open spec fn first_present(a: Option<Seq<char>>, b: Option<Seq<char>>) -> Option<Seq<char>> {
    match a {
        Some(s) => Some(s),
        None => b,
    }
}

/// What a media payload with these members reports: the track when at least one of title,
/// artist, album and application is given, nothing otherwise. The application is the bundle
/// identifier, else the display name, else the application field; the track counts as
/// playing when `playing` is `true`, or, without a boolean `playing`, when `playbackState`
/// reads `playing`.
pub open spec fn now_playing_of(members: Seq<(Seq<char>, JsonMemberView)>) -> Option<NowPlayingView> {
    let title = string_member(members, "title"@);
    let artist = string_member(members, "artist"@);
    let album = string_member(members, "album"@);
    let app = first_present(
        string_member(members, "bundleIdentifier"@),
        first_present(string_member(members, "displayName"@), string_member(members, "application"@)),
    );
    let playing = match bool_member(members, "playing"@) {
        Some(b) => b,
        None => match string_member(members, "playbackState"@) {
            Some(state) => state == "playing"@,
            None => false,
        },
    };
    if title is Some || artist is Some || album is Some || app is Some {
        Some(NowPlayingView { title, artist, album, app, playing })
    } else {
        None
    }
}

/// Index of the first member named `key`.
fn find_member(members: &Vec<(String, JsonMember)>, key: &str) -> (r: Option<usize>)
    ensures
        match r {
            Some(i) => i < members@.len() && lookup(members_view(members@), key@) == Some(
                members@[i as int].1@,
            ),
            None => lookup(members_view(members@), key@) is None,
        },
{
    let wanted = String::from_str(key);
    let ghost all = members_view(members@);
    let mut index: usize = 0;
    assert(all.skip(0) =~= all);
    while index < members.len()
        invariant
            all == members_view(members@),
            index <= members@.len(),
            wanted@ == key@,
            lookup(all, key@) == lookup(all.skip(index as int), key@),
        decreases members@.len() - index,
    {
        let ghost rest = all.skip(index as int);
        if members[index].0 == wanted {
            assert(rest[0] == all[index as int]);
            return Some(index);
        }
        assert(rest.drop_first() =~= all.skip(index + 1));
        index = index + 1;
    }
    None
}

/// The string member `key` with surrounding white space removed, when it is present and
/// not blank.
pub fn string_field(members: &Vec<(String, JsonMember)>, key: &str) -> (r: Option<String>)
    ensures
        text_option_view(r) == string_member(members_view(members@), key@),
{
    match find_member(members, key) {
        Some(index) => match &members[index].1 {
            JsonMember::Text(text) => {
                let trimmed = trim_text(text.as_str());
                if trimmed.unicode_len() == 0 {
                    None
                } else {
                    Some(trimmed)
                }
            },
            _ => None,
        },
        None => None,
    }
}

/// The boolean member `key`, when it is present and a boolean.
pub fn bool_field(members: &Vec<(String, JsonMember)>, key: &str) -> (r: Option<bool>)
    ensures
        r == bool_member(members_view(members@), key@),
{
    match find_member(members, key) {
        Some(index) => match &members[index].1 {
            JsonMember::Bool(flag) => Some(*flag),
            _ => None,
        },
        None => None,
    }
}

/// Reads the track information out of the members of a media payload.
pub fn now_playing_from_members(members: &Vec<(String, JsonMember)>) -> (r: Option<NowPlaying>)
    ensures
        now_playing_option_view(r) == now_playing_of(members_view(members@)),
{
    let title = string_field(members, "title");
    let artist = string_field(members, "artist");
    let album = string_field(members, "album");
    let app = match string_field(members, "bundleIdentifier") {
        Some(id) => Some(id),
        None => match string_field(members, "displayName") {
            Some(name) => Some(name),
            None => string_field(members, "application"),
        },
    };
    let playing = match bool_field(members, "playing") {
        Some(flag) => flag,
        None => match string_field(members, "playbackState") {
            Some(state) => state == String::from_str("playing"),
            None => false,
        },
    };
    if title.is_some() || artist.is_some() || album.is_some() || app.is_some() {
        Some(NowPlaying { title, artist, album, app, playing })
    } else {
        None
    }
}

/// Reads the track information out of the JSON that the media helper prints: `None` when
/// the bytes are not a JSON object or name no title, artist, album or application.
pub fn parse_now_playing(bytes: &[u8]) -> (r: Option<NowPlaying>)
    ensures
        now_playing_option_view(r) == match json_object_members(bytes@) {
            Some(members) => now_playing_of(members),
            None => None,
        },
{
    match parse_json_object(bytes) {
        Some(members) => now_playing_from_members(&members),
        None => None,
    }
}

/// A text that the payload reader keeps is never blank and has no surrounding white space.
pub proof fn law_string_members_are_trimmed(members: Seq<(Seq<char>, JsonMemberView)>, key: Seq<char>)
    ensures
        string_member(members, key) matches Some(text) ==> text.len() > 0 && trim(text) == text,
{
    if let Some(JsonMemberView::Text(s)) = lookup(members, key) {
        law_trim_idempotent(s);
    }
}

/// A track read from a payload names at least one of title, artist, album and application,
/// and every text in it is non-blank and trimmed.
pub proof fn law_parsed_track_is_clean(members: Seq<(Seq<char>, JsonMemberView)>)
    ensures
        now_playing_of(members) matches Some(track) ==> {
            &&& track.title is Some || track.artist is Some || track.album is Some || track.app is Some
            &&& track.title matches Some(t) ==> t.len() > 0 && trim(t) == t
            &&& track.artist matches Some(t) ==> t.len() > 0 && trim(t) == t
            &&& track.album matches Some(t) ==> t.len() > 0 && trim(t) == t
            &&& track.app matches Some(t) ==> t.len() > 0 && trim(t) == t
        },
{
    law_string_members_are_trimmed(members, "title"@);
    law_string_members_are_trimmed(members, "artist"@);
    law_string_members_are_trimmed(members, "album"@);
    law_string_members_are_trimmed(members, "bundleIdentifier"@);
    law_string_members_are_trimmed(members, "displayName"@);
    law_string_members_are_trimmed(members, "application"@);
}

/// The member `key` is missing, is not a string, or holds only white space.
pub open spec fn blank_or_absent(members: Seq<(Seq<char>, JsonMemberView)>, key: Seq<char>) -> bool {
    match lookup(members, key) {
        Some(JsonMemberView::Text(s)) => trim(s).len() == 0,
        _ => true,
    }
}

/// A track is read exactly when one of title, artist, album, bundle identifier, display
/// name or application is a non-blank string.
pub proof fn law_track_present_when_something_is_named(members: Seq<(Seq<char>, JsonMemberView)>)
    ensures
        now_playing_of(members) is Some <==> !(blank_or_absent(members, "title"@) && blank_or_absent(
            members,
            "artist"@,
        ) && blank_or_absent(members, "album"@) && blank_or_absent(members, "bundleIdentifier"@)
            && blank_or_absent(members, "displayName"@) && blank_or_absent(
            members,
            "application"@,
        )),
{
}

/// Title, artist and album are the trimmed string members of the same name, and absent when
/// that member is blank, missing or not a string.
pub proof fn law_named_fields_come_from_their_members(members: Seq<(Seq<char>, JsonMemberView)>)
    ensures
        now_playing_of(members) matches Some(track) ==> {
            &&& (lookup(members, "title"@) matches Some(JsonMemberView::Text(s)) ==> (trim(s).len() > 0
                ==> track.title == Some(trim(s))))
            &&& (blank_or_absent(members, "title"@) ==> track.title is None)
            &&& (lookup(members, "artist"@) matches Some(JsonMemberView::Text(s)) ==> (trim(s).len() > 0
                ==> track.artist == Some(trim(s))))
            &&& (blank_or_absent(members, "artist"@) ==> track.artist is None)
            &&& (lookup(members, "album"@) matches Some(JsonMemberView::Text(s)) ==> (trim(s).len() > 0
                ==> track.album == Some(trim(s))))
            &&& (blank_or_absent(members, "album"@) ==> track.album is None)
        },
{
}

/// A non-blank string `bundleIdentifier` names the application, whatever `displayName`
/// and `application` hold.
pub proof fn law_bundle_identifier_names_the_app(
    members: Seq<(Seq<char>, JsonMemberView)>,
    id: Seq<char>,
)
    requires
        lookup(members, "bundleIdentifier"@) == Some(JsonMemberView::Text(id)),
        trim(id).len() > 0,
    ensures
        now_playing_of(members) is Some,
        now_playing_of(members).unwrap().app == Some(trim(id)),
{
}

/// Without a usable bundle identifier, a non-blank `displayName` names the application,
/// whatever `application` holds.
pub proof fn law_display_name_is_the_first_fallback(
    members: Seq<(Seq<char>, JsonMemberView)>,
    name: Seq<char>,
)
    requires
        blank_or_absent(members, "bundleIdentifier"@),
        lookup(members, "displayName"@) == Some(JsonMemberView::Text(name)),
        trim(name).len() > 0,
    ensures
        now_playing_of(members) is Some,
        now_playing_of(members).unwrap().app == Some(trim(name)),
{
}

/// Without a usable bundle identifier or display name, the application is the trimmed
/// `application` member when it is a non-blank string, and absent otherwise.
pub proof fn law_application_is_the_last_fallback(members: Seq<(Seq<char>, JsonMemberView)>)
    requires
        blank_or_absent(members, "bundleIdentifier"@),
        blank_or_absent(members, "displayName"@),
    ensures
        now_playing_of(members) matches Some(track) ==> {
            &&& (lookup(members, "application"@) matches Some(JsonMemberView::Text(s)) ==> (trim(s).len()
                > 0 ==> track.app == Some(trim(s))))
            &&& (blank_or_absent(members, "application"@) ==> track.app is None)
        },
{
}

/// A boolean `playing` member decides whether the track is playing, whatever else the
/// payload holds.
pub proof fn law_boolean_playing_decides(members: Seq<(Seq<char>, JsonMemberView)>, flag: bool)
    requires
        lookup(members, "playing"@) == Some(JsonMemberView::Bool(flag)),
    ensures
        now_playing_of(members) matches Some(track) ==> track.playing == flag,
{
}

/// Without a boolean `playing` member, the track is playing exactly when `playbackState`
/// is a string that reads `playing` once trimmed.
pub proof fn law_playback_state_decides_otherwise(members: Seq<(Seq<char>, JsonMemberView)>)
    requires
        !(lookup(members, "playing"@) matches Some(JsonMemberView::Bool(_))),
    ensures
        now_playing_of(members) matches Some(track) ==> track.playing == (lookup(
            members,
            "playbackState"@,
        ) matches Some(JsonMemberView::Text(s)) && trim(s) == "playing"@),
{
    reveal_strlit("playing");
}

} // verus!
