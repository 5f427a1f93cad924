//! Request payloads of the Netease catalog API (song links, song details,
//! search, playlists, lyrics) and the summaries built from its answers.

use vstd::prelude::*;

use crate::error::AppError;
use crate::netease::{eapi_params, encrypt_params, get_pic_url, hex_char, hex_digit, pic_url};
use crate::text::{decimal, int_text, parse_i64, parse_i64_spec, push_decimal, push_i64, push_str};

verus! {

/// EAPI endpoint of song download links.
pub const SONG_URL_V1: &'static str = "https://interface3.music.163.com/eapi/song/enhance/player/url/v1";

/// Endpoint of song details.
pub const SONG_DETAIL_V3: &'static str = "https://interface3.music.163.com/api/v3/song/detail";

/// Endpoint of lyrics.
pub const LYRIC_API: &'static str = "https://interface3.music.163.com/api/song/lyric";

/// Endpoint of search.
pub const SEARCH_API: &'static str = "https://music.163.com/api/cloudsearch/pc";

/// Endpoint of playlist details.
pub const PLAYLIST_DETAIL_API: &'static str = "https://music.163.com/api/v6/playlist/detail";

/// Endpoint of album details (the album id is appended).
pub const ALBUM_DETAIL_API: &'static str = "https://music.163.com/api/v1/album/";

/// How `serde_json` writes one character inside a string literal: quote and
/// backslash escaped, the usual short escapes for control characters, other
/// control characters as `\u00XX`, everything else as it is.
pub open spec fn json_char(c: char) -> Seq<char> {
    if c == '"' {
        seq!['\\', '"']
    } else if c == '\\' {
        seq!['\\', '\\']
    } else if c == '\u{8}' {
        seq!['\\', 'b']
    } else if c == '\u{c}' {
        seq!['\\', 'f']
    } else if c == '\n' {
        seq!['\\', 'n']
    } else if c == '\r' {
        seq!['\\', 'r']
    } else if c == '\t' {
        seq!['\\', 't']
    } else if (c as u32) < 0x20 {
        seq!['\\', 'u', '0', '0', hex_char(((c as u32) / 16) as nat), hex_char(((c as u32) % 16) as nat)]
    } else {
        seq![c]
    }
}

/// The escaped characters of a JSON string literal.
pub open spec fn json_escaped(s: Seq<char>) -> Seq<char>
    decreases s.len(),
{
    if s.len() == 0 {
        Seq::empty()
    } else {
        json_escaped(s.drop_last()) + json_char(s.last())
    }
}

/// A JSON string literal.
pub open spec fn json_quoted(s: Seq<char>) -> Seq<char> {
    seq!['"'] + json_escaped(s) + seq!['"']
}

fn push_json_char(out: &mut String, c: char)
    ensures
        final(out)@ == old(out)@ + json_char(c),
{
    let ghost o = out@;
    if c == '"' {
        out.push('\\');
        out.push('"');
    } else if c == '\\' {
        out.push('\\');
        out.push('\\');
    } else if c == '\u{8}' {
        out.push('\\');
        out.push('b');
    } else if c == '\u{c}' {
        out.push('\\');
        out.push('f');
    } else if c == '\n' {
        out.push('\\');
        out.push('n');
    } else if c == '\r' {
        out.push('\\');
        out.push('r');
    } else if c == '\t' {
        out.push('\\');
        out.push('t');
    } else if (c as u32) < 0x20 {
        let v: u8 = c as u8;
        out.push('\\');
        out.push('u');
        out.push('0');
        out.push('0');
        out.push(hex_digit(v / 16));
        out.push(hex_digit(v % 16));
    } else {
        out.push(c);
    }
    proof {
        assert(out@ =~= o + json_char(c));
    }
}

/// Appends a text as a JSON string literal.
pub fn push_json_string(out: &mut String, s: &str)
    ensures
        final(out)@ == old(out)@ + json_quoted(s@),
{
    let cs = crate::text::chars_of(s);
    let ghost o = out@;
    out.push('"');
    let mut i: usize = 0;
    while i < cs.len()
        invariant
            cs@ == s@,
            i <= cs.len(),
            out@ == o + seq!['"'] + json_escaped(s@.subrange(0, i as int)),
        decreases cs.len() - i,
    {
        push_json_char(out, cs[i]);
        proof {
            assert(s@.subrange(0, i + 1).drop_last() =~= s@.subrange(0, i as int));
        }
        i += 1;
    }
    out.push('"');
    proof {
        assert(s@.subrange(0, cs.len() as int) =~= s@);
        assert(out@ =~= o + json_quoted(s@));
    }
}

/// `{"id":<id>,"v":0}` entries of a song-detail request, comma-separated.
pub open spec fn detail_entries(ids: Seq<i64>) -> Seq<char>
    decreases ids.len(),
{
    if ids.len() == 0 {
        Seq::empty()
    } else {
        let prev = detail_entries(ids.drop_last());
        let entry = "{\"id\":"@ + int_text(ids.last()) + ",\"v\":0}"@;
        if ids.len() == 1 {
            entry
        } else {
            prev + seq![','] + entry
        }
    }
}

/// The `c` parameter of a song-detail request: a JSON array with one
/// `{"id":<id>,"v":0}` object per song.
pub open spec fn detail_payload(ids: Seq<i64>) -> Seq<char> {
    seq!['['] + detail_entries(ids) + seq![']']
}

/// The `c` parameter of a song-detail request for these songs.
pub fn song_detail_payload(ids: &Vec<i64>) -> (r: String)
    ensures
        r@ == detail_payload(ids@),
{
    let mut out = String::new();
    out.push('[');
    let mut i: usize = 0;
    while i < ids.len()
        invariant
            i <= ids.len(),
            out@ == seq!['['] + detail_entries(ids@.subrange(0, i as int)),
        decreases ids.len() - i,
    {
        let ghost before = out@;
        if i > 0 {
            out.push(',');
        }
        push_str(&mut out, "{\"id\":");
        push_i64(&mut out, ids[i]);
        push_str(&mut out, ",\"v\":0}");
        proof {
            let sub = ids@.subrange(0, i + 1);
            assert(sub.drop_last() =~= ids@.subrange(0, i as int));
            assert(sub.last() == ids@[i as int]);
            assert(out@ =~= seq!['['] + detail_entries(sub));
        }
        i += 1;
    }
    out.push(']');
    proof {
        assert(ids@.subrange(0, ids@.len() as int) =~= ids@);
        assert(out@ =~= detail_payload(ids@));
    }
    out
}

/// The batches of at most 100 songs in which a playlist's tracks are
/// requested: consecutive slices of the ids, in order.
pub open spec fn batch_of(ids: Seq<i64>, k: int) -> Seq<i64> {
    ids.subrange(100 * k, if 100 * (k + 1) < ids.len() {
        100 * (k + 1)
    } else {
        ids.len() as int
    })
}

/// Splits track ids into request batches of 100 (the last may be shorter).
pub fn track_id_batches(ids: &Vec<i64>) -> (r: Vec<Vec<i64>>)
    ensures
        r@.len() == (ids@.len() + 99) / 100,
        forall|k: int| 0 <= k < r@.len() ==> (#[trigger] r@[k])@ == batch_of(ids@, k),
{
    let mut out: Vec<Vec<i64>> = Vec::new();
    let mut start: usize = 0;
    while start < ids.len()
        invariant
            start <= ids@.len(),
            out@.len() == (start + 99) / 100,
            start < ids@.len() ==> start == 100 * out@.len(),
            forall|k: int| 0 <= k < out@.len() ==> (#[trigger] out@[k])@ == batch_of(ids@, k),
        decreases ids.len() - start,
    {
        let end = if ids.len() - start > 100 {
            start + 100
        } else {
            ids.len()
        };
        let mut batch: Vec<i64> = Vec::new();
        let mut i = start;
        while i < end
            invariant
                start <= i <= end <= ids@.len(),
                batch@ == ids@.subrange(start as int, i as int),
            decreases end - i,
        {
            batch.push(ids[i]);
            i += 1;
            proof {
                assert(batch@ =~= ids@.subrange(start as int, i as int));
            }
        }
        proof {
            assert(batch@ == batch_of(ids@, out@.len() as int));
            let k = out@.len() as int;
            assert((end + 99) / 100 == k + 1) by (nonlinear_arith)
                requires
                    100 * k < end <= 100 * k + 100,
            ;
        }
        out.push(batch);
        start = end;
    }
    out
}

/// Artist names joined by `/`.
pub open spec fn artists_joined(names: Seq<Seq<char>>) -> Seq<char>
    decreases names.len(),
{
    if names.len() == 0 {
        Seq::empty()
    } else if names.len() == 1 {
        names[0]
    } else {
        artists_joined(names.drop_last()) + seq!['/'] + names.last()
    }
}

/// The artist text of a track: the artists' names joined by `/`.
pub fn artists_text(names: &Vec<String>) -> (r: String)
    ensures
        r@ == artists_joined(names@.map_values(|s: String| s@)),
{
    let ghost nv = names@.map_values(|s: String| s@);
    let mut out = String::new();
    let mut i: usize = 0;
    while i < names.len()
        invariant
            i <= names@.len(),
            nv == names@.map_values(|s: String| s@),
            out@ == artists_joined(nv.subrange(0, i as int)),
        decreases names.len() - i,
    {
        if i > 0 {
            out.push('/');
        }
        push_str(&mut out, names[i].as_str());
        proof {
            let sub = nv.subrange(0, i + 1);
            assert(sub.drop_last() =~= nv.subrange(0, i as int));
            if i == 0 {
                assert(out@ =~= sub[0]);
            } else {
                assert(out@ =~= artists_joined(sub.drop_last()) + seq!['/'] + sub.last());
            }
        }
        i += 1;
    }
    proof {
        assert(nv.subrange(0, names@.len() as int) =~= nv);
    }
    out
}

/// A song as lists show it.
#[derive(Debug, Clone, PartialEq, Eq)]
pub struct TrackSummary {
    pub id: i64,
    pub name: String,
    /// Artist names joined by `/`.
    pub artists: String,
    pub album: String,
    pub pic_url: String,
}

fn text_or_empty(t: Option<String>) -> (r: String)
    ensures
        r@ == match t {
            Some(s) => s@,
            None => Seq::empty(),
        },
{
    match t {
        Some(s) => s,
        None => String::new(),
    }
}

/// A track from the fields read off a search or playlist answer; missing
/// fields are 0 or empty.
pub fn track_summary(
    id: Option<i64>,
    name: Option<String>,
    artist_names: &Vec<String>,
    album: Option<String>,
    pic_url: Option<String>,
) -> (t: TrackSummary)
    ensures
        t.id == match id {
            Some(v) => v,
            None => 0,
        },
        t.name@ == match name {
            Some(s) => s@,
            None => Seq::empty(),
        },
        t.artists@ == artists_joined(artist_names@.map_values(|s: String| s@)),
        t.album@ == match album {
            Some(s) => s@,
            None => Seq::empty(),
        },
        t.pic_url@ == match pic_url {
            Some(s) => s@,
            None => Seq::empty(),
        },
{
    TrackSummary {
        id: match id {
            Some(v) => v,
            None => 0,
        },
        name: text_or_empty(name),
        artists: artists_text(artist_names),
        album: text_or_empty(album),
        pic_url: text_or_empty(pic_url),
    }
}

/// A track of an album answer: like [`track_summary`], but its cover URL is
/// built from the album's picture id at 300×300.
pub fn album_track(
    id: Option<i64>,
    name: Option<String>,
    artist_names: &Vec<String>,
    album: Option<String>,
    pic_id: Option<i64>,
) -> (t: TrackSummary)
    ensures
        t.id == match id {
            Some(v) => v,
            None => 0,
        },
        t.name@ == match name {
            Some(s) => s@,
            None => Seq::empty(),
        },
        t.artists@ == artists_joined(artist_names@.map_values(|s: String| s@)),
        t.album@ == match album {
            Some(s) => s@,
            None => Seq::empty(),
        },
        t.pic_url@ == pic_url(pic_id, 300),
{
    TrackSummary {
        id: match id {
            Some(v) => v,
            None => 0,
        },
        name: text_or_empty(name),
        artists: artists_text(artist_names),
        album: text_or_empty(album),
        pic_url: get_pic_url(pic_id, 300),
    }
}

/// The request header sent with a song-link request: the default client
/// configuration with a request id, as `serde_json` writes the map (keys
/// sorted, values as strings).
pub open spec fn song_url_header(request_id: u32) -> Seq<char> {
    "{\"appver\":\"8.9.75\",\"deviceId\":\"pyncm!\",\"os\":\"pc\",\"osver\":\"\",\"requestId\":\""@
        + decimal(request_id as nat) + "\"}"@
}

/// The JSON payload of a song-link request: keys sorted as `serde_json`
/// writes a map; `immerseType` only for the `sky` quality.
pub open spec fn song_url_payload_spec(song_id: i64, quality: Seq<char>, request_id: u32) -> Seq<char> {
    "{\"encodeType\":\"flac\",\"header\":"@ + json_quoted(song_url_header(request_id))
        + ",\"ids\":["@ + int_text(song_id) + "],"@ + (if quality == "sky"@ {
        "\"immerseType\":\"c51\","@
    } else {
        Seq::empty()
    }) + "\"level\":"@ + json_quoted(quality) + "}"@
}

/// The JSON payload of a song-link request.
pub fn song_url_payload(song_id: i64, quality: &str, request_id: u32) -> (r: String)
    ensures
        r@ == song_url_payload_spec(song_id, quality@, request_id),
{
    let mut header = String::new();
    push_str(
        &mut header,
        "{\"appver\":\"8.9.75\",\"deviceId\":\"pyncm!\",\"os\":\"pc\",\"osver\":\"\",\"requestId\":\"",
    );
    push_decimal(&mut header, request_id as u64);
    push_str(&mut header, "\"}");
    let mut out = String::new();
    push_str(&mut out, "{\"encodeType\":\"flac\",\"header\":");
    push_json_string(&mut out, header.as_str());
    push_str(&mut out, ",\"ids\":[");
    push_i64(&mut out, song_id);
    push_str(&mut out, "],");
    let sky = crate::text::str_eq(quality, "sky");
    if sky {
        push_str(&mut out, "\"immerseType\":\"c51\",");
    }
    push_str(&mut out, "\"level\":");
    push_json_string(&mut out, quality);
    push_str(&mut out, "}");
    proof {
        assert(out@ =~= song_url_payload_spec(song_id, quality@, request_id));
    }
    out
}

/// The validation error for a song id that is not a number.
pub fn invalid_song_id(song_id: &str) -> (e: AppError)
    ensures
        e matches AppError::Validation(m) && m@ == "Invalid song ID: "@ + song_id@,
{
    let mut m = String::new();
    push_str(&mut m, "Invalid song ID: ");
    push_str(&mut m, song_id);
    AppError::Validation(m)
}

/// The encrypted `params` of a song-link request for a song id given as
/// text; an id that is not a 64-bit integer is a validation error.
pub fn song_url_params(song_id: &str, quality: &str, request_id: u32) -> (r: Result<String, AppError>)
    ensures
        match parse_i64_spec(song_id@) {
            Some(id) => (r matches Ok(p) && p@ == eapi_params(
                SONG_URL_V1@,
                song_url_payload_spec(id, quality@, request_id),
            )),
            None => (r matches Err(AppError::Validation(m)) && m@ == "Invalid song ID: "@
                + song_id@),
        },
{
    match parse_i64(song_id) {
        Some(id) => {
            let payload = song_url_payload(id, quality, request_id);
            Ok(encrypt_params(SONG_URL_V1, payload.as_str()))
        },
        None => Err(invalid_song_id(song_id)),
    }
}

/// The `c` parameter of a song-detail request for one song id given as
/// text; an id that is not a 64-bit integer is a validation error.
pub fn song_detail_param(song_id: &str) -> (r: Result<String, AppError>)
    ensures
        match parse_i64_spec(song_id@) {
            Some(id) => (r matches Ok(p) && p@ == detail_payload(seq![id])),
            None => (r matches Err(AppError::Validation(m)) && m@ == "Invalid song ID: "@
                + song_id@),
        },
{
    match parse_i64(song_id) {
        Some(id) => {
            let mut ids: Vec<i64> = Vec::new();
            ids.push(id);
            proof {
                assert(ids@ =~= seq![id]);
            }
            Ok(song_detail_payload(&ids))
        },
        None => Err(invalid_song_id(song_id)),
    }
}

/// Lowest request id of a song-link request.
pub const REQUEST_ID_MIN: u32 = 20_000_000;

/// One past the highest request id of a song-link request.
pub const REQUEST_ID_END: u32 = 30_000_000;

/// `rand::Rng::gen_range(&mut rand::thread_rng(), lo..hi)`: a random
/// number in the half-open range `[lo, hi)`, which must not be empty.
#[verifier::external_body]
fn random_u32_in(lo: u32, hi: u32) -> (r: u32)
    requires
        lo < hi,
    ensures
        lo <= r < hi,
{
    rand::Rng::gen_range(&mut rand::thread_rng(), lo..hi)
}

/// The encrypted `params` of a song-link request, with a fresh random
/// request id from 20 000 000 to 29 999 999 in the header.
pub fn song_url_request(song_id: &str, quality: &str) -> (r: Result<String, AppError>)
    ensures
        match parse_i64_spec(song_id@) {
            Some(id) => (r matches Ok(p) && exists|rid: u32|
                REQUEST_ID_MIN <= rid < REQUEST_ID_END && p@ == eapi_params(
                    SONG_URL_V1@,
                    song_url_payload_spec(id, quality@, rid),
                )),
            None => (r matches Err(AppError::Validation(m)) && m@ == "Invalid song ID: "@
                + song_id@),
        },
{
    let rid = random_u32_in(REQUEST_ID_MIN, REQUEST_ID_END);
    song_url_params(song_id, quality, rid)
}

/// A form of name/value pairs.
pub type Form = Vec<(String, String)>;

fn pair(k: &str, v: &str) -> (r: (String, String))
    ensures
        r.0@ == k@,
        r.1@ == v@,
{
    (String::from_str(k), String::from_str(v))
}

/// The form of a search request: the keywords, type 1 (songs) and the limit.
pub fn search_form(keywords: &str, limit: u32) -> (f: Form)
    ensures
        f@.len() == 3,
        f@[0].0@ == "s"@ && f@[0].1@ == keywords@,
        f@[1].0@ == "type"@ && f@[1].1@ == "1"@,
        f@[2].0@ == "limit"@ && f@[2].1@ == decimal(limit as nat),
{
    let mut f: Form = Vec::new();
    f.push(pair("s", keywords));
    f.push(pair("type", "1"));
    let mut l = String::new();
    push_decimal(&mut l, limit as u64);
    f.push((String::from_str("limit"), l));
    f
}

/// The form of a lyric request: the song id, then the fixed flags
/// `cp=false` and `tv`, `lv`, `rv`, `kv`, `yv`, `ytv`, `yrv` all `0`.
pub fn lyric_form(song_id: &str) -> (f: Form)
    ensures
        f@.len() == 9,
        f@[0].0@ == "id"@ && f@[0].1@ == song_id@,
        f@[1].0@ == "cp"@ && f@[1].1@ == "false"@,
        f@[2].0@ == "tv"@ && f@[2].1@ == "0"@,
        f@[3].0@ == "lv"@ && f@[3].1@ == "0"@,
        f@[4].0@ == "rv"@ && f@[4].1@ == "0"@,
        f@[5].0@ == "kv"@ && f@[5].1@ == "0"@,
        f@[6].0@ == "yv"@ && f@[6].1@ == "0"@,
        f@[7].0@ == "ytv"@ && f@[7].1@ == "0"@,
        f@[8].0@ == "yrv"@ && f@[8].1@ == "0"@,
{
    let mut f: Form = Vec::new();
    f.push(pair("id", song_id));
    f.push(pair("cp", "false"));
    f.push(pair("tv", "0"));
    f.push(pair("lv", "0"));
    f.push(pair("rv", "0"));
    f.push(pair("kv", "0"));
    f.push(pair("yv", "0"));
    f.push(pair("ytv", "0"));
    f.push(pair("yrv", "0"));
    f
}

/// The form of a playlist request: the playlist id.
pub fn playlist_form(playlist_id: &str) -> (f: Form)
    ensures
        f@.len() == 1,
        f@[0].0@ == "id"@ && f@[0].1@ == playlist_id@,
{
    let mut f: Form = Vec::new();
    f.push(pair("id", playlist_id));
    f
}

/// The URL of an album request.
pub fn album_url(album_id: &str) -> (r: String)
    ensures
        r@ == ALBUM_DETAIL_API@ + album_id@,
{
    let mut u = String::new();
    push_str(&mut u, ALBUM_DETAIL_API);
    push_str(&mut u, album_id);
    u
}

/// A playlist as the API answers it to the user.
#[derive(Debug, Clone, PartialEq, Eq)]
pub struct PlaylistInfo {
    pub id: Option<i64>,
    pub name: String,
    pub cover_img_url: String,
    pub creator: String,
    pub track_count: i64,
    pub description: String,
    pub tracks: Vec<TrackSummary>,
}

/// A playlist from the fields read off the answer; missing texts are
/// empty, a missing track count is 0.
pub fn playlist_info(
    id: Option<i64>,
    name: Option<String>,
    cover_img_url: Option<String>,
    creator: Option<String>,
    track_count: Option<i64>,
    description: Option<String>,
    tracks: Vec<TrackSummary>,
) -> (p: PlaylistInfo)
    ensures
        p.id == id,
        p.name@ == match name {
            Some(s) => s@,
            None => Seq::empty(),
        },
        p.cover_img_url@ == match cover_img_url {
            Some(s) => s@,
            None => Seq::empty(),
        },
        p.creator@ == match creator {
            Some(s) => s@,
            None => Seq::empty(),
        },
        p.track_count == match track_count {
            Some(v) => v,
            None => 0,
        },
        p.description@ == match description {
            Some(s) => s@,
            None => Seq::empty(),
        },
        p.tracks@ == tracks@,
{
    PlaylistInfo {
        id,
        name: text_or_empty(name),
        cover_img_url: text_or_empty(cover_img_url),
        creator: text_or_empty(creator),
        track_count: match track_count {
            Some(v) => v,
            None => 0,
        },
        description: text_or_empty(description),
        tracks,
    }
}

/// An album as the API answers it to the user.
#[derive(Debug, Clone, PartialEq, Eq)]
pub struct AlbumInfo {
    pub id: Option<i64>,
    pub name: String,
    pub cover_img_url: String,
    pub artist: String,
    pub publish_time: Option<i64>,
    pub description: String,
    pub songs: Vec<TrackSummary>,
}

/// An album from the fields read off the answer: its cover URL is built
/// from the album's picture id at 300×300; missing texts are empty.
pub fn album_info(
    id: Option<i64>,
    name: Option<String>,
    pic_id: Option<i64>,
    artist: Option<String>,
    publish_time: Option<i64>,
    description: Option<String>,
    songs: Vec<TrackSummary>,
) -> (a: AlbumInfo)
    ensures
        a.id == id,
        a.name@ == match name {
            Some(s) => s@,
            None => Seq::empty(),
        },
        a.cover_img_url@ == pic_url(pic_id, 300),
        a.artist@ == match artist {
            Some(s) => s@,
            None => Seq::empty(),
        },
        a.publish_time == publish_time,
        a.description@ == match description {
            Some(s) => s@,
            None => Seq::empty(),
        },
        a.songs@ == songs@,
{
    AlbumInfo {
        id,
        name: text_or_empty(name),
        cover_img_url: get_pic_url(pic_id, 300),
        artist: text_or_empty(artist),
        publish_time,
        description: text_or_empty(description),
        songs,
    }
}

} // verus!
