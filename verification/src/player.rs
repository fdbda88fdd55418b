//! Reading Spotify track and playlist IDs out of what a user types, and the
//! metadata records that the command line prints.

use vstd::prelude::*;

use crate::spotify_id::{
    base62_value, is_base62_digit, is_base62_text, is_spotify_id_text, lemma_id_text_round_trip,
    spotify_id_text, InvalidSpotifyId, SpotifyId,
};
use crate::text::{
    all_white_space, before_char, before_char_str, find, find_str, is_white_space,
    lemma_find_from_absent, lemma_find_from_first, lemma_trim_end_concat,
    lemma_trim_ignores_padding, occurs_at, starts_with, starts_with_str, trim, trim_end,
    trim_start, trim_str,
};

verus! {

/// `spotify:track:`, the prefix of a track URI.
pub open spec fn track_uri_prefix() -> Seq<char> {
    seq!['s', 'p', 'o', 't', 'i', 'f', 'y', ':', 't', 'r', 'a', 'c', 'k', ':']
}

/// `/track/`, the path segment that precedes a track ID in a web link.
pub open spec fn track_url_marker() -> Seq<char> {
    seq!['/', 't', 'r', 'a', 'c', 'k', '/']
}

/// `spotify:playlist:`, the prefix of a playlist URI.
pub open spec fn playlist_uri_prefix() -> Seq<char> {
    seq!['s', 'p', 'o', 't', 'i', 'f', 'y', ':', 'p', 'l', 'a', 'y', 'l', 'i', 's', 't', ':']
}

/// `/playlist/`, the path segment that precedes a playlist ID in a web link.
pub open spec fn playlist_url_marker() -> Seq<char> {
    seq!['/', 'p', 'l', 'a', 'y', 'l', 'i', 's', 't', '/']
}

/// The text that is taken as the ID in `input`: after trimming white space,
/// what follows `uri_prefix` if the input starts with it; else, if
/// `url_marker` occurs, what follows its first occurrence up to the first
/// `?`; else the whole trimmed input.
pub open spec fn id_text_of(input: Seq<char>, uri_prefix: Seq<char>, url_marker: Seq<char>) -> Seq<
    char,
> {
    let clean = trim(input);
    if starts_with(clean, uri_prefix) {
        clean.skip(uri_prefix.len() as int)
    } else {
        match find(clean, url_marker) {
            Some(idx) => before_char(clean.skip(idx + url_marker.len()), '?'),
            None => clean,
        }
    }
}

/// The text taken as a track ID in `input`.
pub open spec fn track_id_text(input: Seq<char>) -> Seq<char> {
    id_text_of(input, track_uri_prefix(), track_url_marker())
}

/// The text taken as a playlist ID in `input`.
pub open spec fn playlist_id_text(input: Seq<char>) -> Seq<char> {
    id_text_of(input, playlist_uri_prefix(), playlist_url_marker())
}

/// The canonical URI of the track with ID `id`.
pub open spec fn track_uri(id: u128) -> Seq<char> {
    track_uri_prefix() + spotify_id_text(id)
}

fn extract_id_text<'a>(input: &'a str, uri_prefix: &str, url_marker: &str) -> (r: &'a str)
    ensures
        r@ == id_text_of(input@, uri_prefix@, url_marker@),
{
    let clean = trim_str(input);
    if starts_with_str(clean, uri_prefix) {
        let n = clean.unicode_len();
        let m = uri_prefix.unicode_len();
        let r = clean.substring_char(m, n);
        assert(r@ =~= clean@.skip(m as int));
        r
    } else {
        match find_str(clean, url_marker) {
            Some(idx) => {
                let n = clean.unicode_len();
                let m = url_marker.unicode_len();
                let after = clean.substring_char(idx + m, n);
                assert(after@ =~= clean@.skip(idx + m));
                before_char_str(after, '?')
            },
            None => clean,
        }
    }
}

fn parse_id(input: &str, uri_prefix: &str, url_marker: &str) -> (res: Result<
    SpotifyId,
    InvalidSpotifyId,
>)
    ensures
        ({
            let t = id_text_of(input@, uri_prefix@, url_marker@);
            match res {
                Ok(id) => is_spotify_id_text(t) && id.id == base62_value(t),
                Err(e) => !is_spotify_id_text(t) && e.text@ == t,
            }
        }),
{
    let id_text = extract_id_text(input, uri_prefix, url_marker);
    SpotifyId::from_base62(id_text)
}

/// Parses a track ID from a raw base-62 ID, a Spotify URI
/// (`spotify:track:...`) or a web link (`.../track/<id>?...`).
pub fn parse_track_id(input: &str) -> (res: Result<SpotifyId, InvalidSpotifyId>)
    ensures
        match res {
            Ok(id) => is_spotify_id_text(track_id_text(input@)) && id.id == base62_value(
                track_id_text(input@),
            ),
            Err(e) => !is_spotify_id_text(track_id_text(input@)) && e.text@ == track_id_text(
                input@,
            ),
        },
{
    proof {
        reveal_strlit("spotify:track:");
        reveal_strlit("/track/");
        assert("spotify:track:"@ =~= track_uri_prefix());
        assert("/track/"@ =~= track_url_marker());
    }
    parse_id(input, "spotify:track:", "/track/")
}

/// Parses a playlist ID from a raw base-62 ID, a Spotify URI
/// (`spotify:playlist:...`) or a web link (`.../playlist/<id>?...`).
pub fn parse_playlist_id(input: &str) -> (res: Result<SpotifyId, InvalidSpotifyId>)
    ensures
        match res {
            Ok(id) => is_spotify_id_text(playlist_id_text(input@)) && id.id == base62_value(
                playlist_id_text(input@),
            ),
            Err(e) => !is_spotify_id_text(playlist_id_text(input@)) && e.text@
                == playlist_id_text(input@),
        },
{
    proof {
        reveal_strlit("spotify:playlist:");
        reveal_strlit("/playlist/");
        assert("spotify:playlist:"@ =~= playlist_uri_prefix());
        assert("/playlist/"@ =~= playlist_url_marker());
    }
    parse_id(input, "spotify:playlist:", "/playlist/")
}

} // verus!

verus! {

/// Track metadata, as the `info` command prints it.
pub struct TrackInfo {
    /// Base-62 Spotify track ID
    pub id: String,
    /// Track title
    pub title: String,
    /// Artist names, in the order Spotify lists them
    pub artists: Vec<String>,
    /// Album name
    pub album: String,
    /// Track duration in milliseconds
    pub duration_ms: i32,
}

impl TrackInfo {
    /// The record for the track `id` with the metadata Spotify returned for it.
    pub fn from_metadata(
        id: SpotifyId,
        title: String,
        artists: Vec<String>,
        album: String,
        duration_ms: i32,
    ) -> (info: TrackInfo)
        ensures
            info.id@ == spotify_id_text(id.id),
            info.title == title,
            info.artists == artists,
            info.album == album,
            info.duration_ms == duration_ms,
    {
        TrackInfo { id: id.base62_or_unknown(), title, artists, album, duration_ms }
    }
}

/// One track of a playlist.
pub struct PlaylistItemInfo {
    /// Base-62 Spotify track ID
    pub id: String,
    /// Canonical Spotify track URI (`spotify:track:...`)
    pub uri: String,
}

/// A playlist's metadata and its tracks.
pub struct PlaylistInfo {
    /// Playlist title
    pub name: String,
    /// Playlist description
    pub description: String,
    /// The playlist's tracks, in playlist order
    pub tracks: Vec<PlaylistItemInfo>,
}

/// The IDs of the tracks among a playlist's entries, in order; an entry is
/// `Some` for a track and `None` for anything else (an episode, a local
/// file, ...).
pub open spec fn playlist_track_ids(entries: Seq<Option<SpotifyId>>) -> Seq<u128>
    decreases entries.len(),
{
    if entries.len() == 0 {
        Seq::empty()
    } else {
        let rest = playlist_track_ids(entries.drop_last());
        match entries.last() {
            Some(id) => rest.push(id.id),
            None => rest,
        }
    }
}

/// The playlist item for the track `id`: its ID text and its URI.
pub fn track_item(id: SpotifyId) -> (item: PlaylistItemInfo)
    ensures
        item.id@ == spotify_id_text(id.id),
        item.uri@ == track_uri(id.id),
        item.uri@ == track_uri_prefix() + item.id@,
{
    let text = id.base62_or_unknown();
    let mut uri = "spotify:track:".to_owned();
    uri.append(text.as_str());
    proof {
        reveal_strlit("spotify:track:");
        assert("spotify:track:"@ =~= track_uri_prefix());
    }
    PlaylistItemInfo { id: text, uri }
}

/// The items for the tracks among a playlist's entries, in playlist order.
pub fn playlist_items(entries: &Vec<Option<SpotifyId>>) -> (items: Vec<PlaylistItemInfo>)
    ensures
        items.len() == playlist_track_ids(entries@).len(),
        forall|i: int|
            0 <= i < items.len() ==> {
                &&& (#[trigger] items[i]).id@ == spotify_id_text(playlist_track_ids(entries@)[i])
                &&& items[i].uri@ == track_uri(playlist_track_ids(entries@)[i])
                &&& items[i].uri@ == track_uri_prefix() + items[i].id@
            },
{
    let mut items: Vec<PlaylistItemInfo> = Vec::new();
    let n = entries.len();
    for k in 0..n
        invariant
            n == entries@.len(),
            items.len() == playlist_track_ids(entries@.take(k as int)).len(),
            forall|i: int|
                0 <= i < items.len() ==> {
                    &&& (#[trigger] items[i]).id@ == spotify_id_text(
                        playlist_track_ids(entries@.take(k as int))[i],
                    )
                    &&& items[i].uri@ == track_uri(playlist_track_ids(entries@.take(k as int))[i])
                    &&& items[i].uri@ == track_uri_prefix() + items[i].id@
                },
    {
        assert(entries@.take(k + 1).drop_last() =~= entries@.take(k as int));
        assert(entries@.take(k + 1).last() == entries@[k as int]);
        match entries[k] {
            Some(id) => {
                items.push(track_item(id));
            },
            None => {},
        }
    }
    assert(entries@.take(n as int) =~= entries@);
    items
}

impl PlaylistInfo {
    /// The record for a playlist with the given name, description and
    /// entries; only the entries that are tracks become items.
    pub fn from_contents(name: String, description: String, entries: &Vec<Option<SpotifyId>>) -> (info:
        PlaylistInfo)
        ensures
            info.name == name,
            info.description == description,
            info.tracks.len() == playlist_track_ids(entries@).len(),
            forall|i: int|
                0 <= i < info.tracks.len() ==> {
                    &&& (#[trigger] info.tracks[i]).id@ == spotify_id_text(
                        playlist_track_ids(entries@)[i],
                    )
                    &&& info.tracks[i].uri@ == track_uri(playlist_track_ids(entries@)[i])
                },
    {
        PlaylistInfo { name, description, tracks: playlist_items(entries) }
    }
}

} // verus!

verus! {

/// `https://open.spotify.com`, the host of Spotify's web links.
pub open spec fn spotify_web_host() -> Seq<char> {
    seq![
        'h', 't', 't', 'p', 's', ':', '/', '/', 'o', 'p', 'e', 'n', '.', 's', 'p', 'o', 't', 'i',
        'f', 'y', '.', 'c', 'o', 'm'
    ]
}

/// The web link to the item with ID text `t`, under the path segment
/// `marker`, followed by `query` (empty, or `?` and the query string).
pub open spec fn web_link(marker: Seq<char>, t: Seq<char>, query: Seq<char>) -> Seq<char> {
    spotify_web_host() + marker + t + query
}

proof fn lemma_digit_not_white_space(c: char)
    requires
        is_base62_digit(c),
    ensures
        !is_white_space(c),
        c != '?',
        c != '/',
        c != ':',
{
}

/// Base-62 digits are not changed by trimming, whatever precedes them.
proof fn lemma_trim_keeps(u: Seq<char>)
    requires
        u.len() > 0,
        !is_white_space(u[0]),
        !is_white_space(u.last()),
    ensures
        trim(u) == u,
{
    assert(trim_start(u) == u);
    assert(trim_end(u) == u);
}

/// The ID text itself is read as the ID text.
proof fn lemma_raw_form(prefix: Seq<char>, marker: Seq<char>, t: Seq<char>)
    requires
        t.len() == 22,
        is_base62_text(t),
        prefix.len() > 7,
        prefix[7] == ':',
        marker.len() > 0,
        marker[0] == '/',
    ensures
        id_text_of(t, prefix, marker) == t,
{
    lemma_digit_not_white_space(t[0]);
    lemma_digit_not_white_space(t[21]);
    lemma_trim_keeps(t);
    if starts_with(t, prefix) {
        assert(t.subrange(0, prefix.len() as int)[7] == t[7]);
        lemma_digit_not_white_space(t[7]);
    }
    assert forall|k: int| 0 <= k implies !#[trigger] occurs_at(t, marker, k) by {
        if occurs_at(t, marker, k) {
            assert(t.subrange(k, k + marker.len())[0] == t[k]);
            lemma_digit_not_white_space(t[k]);
        }
    }
    lemma_find_from_absent(t, marker, 0);
}

/// A URI, the prefix followed by the ID text, is read as the ID text.
proof fn lemma_uri_form(prefix: Seq<char>, marker: Seq<char>, t: Seq<char>)
    requires
        t.len() == 22,
        is_base62_text(t),
        prefix.len() > 0,
        prefix[0] == 's',
    ensures
        id_text_of(prefix + t, prefix, marker) == t,
{
    let u = prefix + t;
    lemma_digit_not_white_space(t[21]);
    assert(u[0] == 's');
    assert(u.last() == t[21]);
    lemma_trim_keeps(u);
    assert(u.subrange(0, prefix.len() as int) =~= prefix);
    assert(u.skip(prefix.len() as int) =~= t);
}

/// `marker` occurs in `h + marker` only at the end, where it was appended:
/// no occurrence starts inside `h`.
pub open spec fn marker_only_at_end(h: Seq<char>, marker: Seq<char>) -> bool {
    forall|k: int| 0 <= k < h.len() ==> !#[trigger] occurs_at(h + marker, marker, k)
}

/// A link `h + marker + t + query` is read as the ID text `t`, whatever
/// the text `h` before the marker, as long as that text does not start
/// with white space or with the URI prefix, and the marker's first
/// occurrence is the one after `h`.
proof fn lemma_link_form(
    prefix: Seq<char>,
    marker: Seq<char>,
    h: Seq<char>,
    t: Seq<char>,
    query: Seq<char>,
)
    requires
        t.len() == 22,
        is_base62_text(t),
        prefix.len() > 0,
        forall|i: int| 0 <= i < prefix.len() ==> prefix[i] != '/',
        marker.len() > 0,
        marker[0] == '/',
        h.len() == 0 || !is_white_space(h[0]),
        !starts_with(h, prefix),
        marker_only_at_end(h, marker),
        query.len() == 0 || query[0] == '?',
    ensures
        id_text_of(h + marker + t + query, prefix, marker) == t,
{
    let head = h + marker + t;
    let u = h + marker + t + query;
    lemma_digit_not_white_space(t[21]);
    assert(head.last() == t[21]);
    let rest = if query.len() == 0 {
        query
    } else {
        seq!['?'] + trim_end(query.drop_first())
    };
    assert(trim_end(u) == head + rest) by {
        if query.len() == 0 {
            assert(u =~= head);
            assert(head + rest =~= head);
            assert(trim_end(head) == head);
        } else {
            assert(u =~= (head + seq!['?']) + query.drop_first());
            lemma_trim_end_concat(head + seq!['?'], query.drop_first());
            assert((head + seq!['?']) + trim_end(query.drop_first()) =~= head + rest);
        }
    }
    if h.len() == 0 {
        assert(u[0] == '/');
    } else {
        assert(u[0] == h[0]);
    }
    assert(!is_white_space(u[0]));
    assert(trim_start(u) == u);
    let clean = head + rest;
    assert(trim(u) == clean);
    let pl = prefix.len() as int;
    if starts_with(clean, prefix) {
        if h.len() >= pl {
            assert(h.subrange(0, pl) =~= clean.subrange(0, pl));
        } else {
            assert(clean.subrange(0, pl)[h.len() as int] == clean[h.len() as int]);
            assert(clean[h.len() as int] == marker[0]);
        }
    }
    let m = marker.len() as int;
    let hm = h + marker;
    let hl = h.len() as int;
    assert(clean.subrange(hl, hl + m) =~= marker);
    assert forall|k: int| 0 <= k < hl implies !#[trigger] occurs_at(clean, marker, k) by {
        if occurs_at(clean, marker, k) {
            assert(clean.subrange(k, k + m) =~= hm.subrange(k, k + m));
            assert(occurs_at(hm, marker, k));
        }
    }
    lemma_find_from_first(clean, marker, 0, hl as nat);
    let after = clean.skip(hl + m);
    assert(after =~= t + rest);
    if rest.len() == 0 {
        assert(after =~= t);
        assert forall|k: int| 0 <= k implies !#[trigger] occurs_at(after, seq!['?'], k) by {
            if occurs_at(after, seq!['?'], k) {
                assert(after.subrange(k, k + 1)[0] == after[k]);
                lemma_digit_not_white_space(after[k]);
            }
        }
        lemma_find_from_absent(after, seq!['?'], 0);
    } else {
        assert(after[22] == '?');
        assert(after.subrange(22, 23) =~= seq!['?']);
        assert forall|k: int| 0 <= k < 22 implies !#[trigger] occurs_at(after, seq!['?'], k) by {
            if occurs_at(after, seq!['?'], k) {
                assert(after.subrange(k, k + 1)[0] == after[k]);
                assert(after[k] == t[k]);
                lemma_digit_not_white_space(t[k]);
            }
        }
        lemma_find_from_first(after, seq!['?'], 0, 22);
        assert(after.take(22) =~= t);
    }
}

/// A marker that starts with `/` and continues with neither `/` nor `o`
/// does not occur inside `https://open.spotify.com`.
proof fn lemma_web_host_marker(marker: Seq<char>)
    requires
        marker.len() >= 2,
        marker[0] == '/',
        marker[1] != '/',
        marker[1] != 'o',
    ensures
        marker_only_at_end(spotify_web_host(), marker),
{
    let host = spotify_web_host();
    let m = marker.len() as int;
    let hm = host + marker;
    assert(hm.len() == 24 + m);
    assert(!occurs_at(hm, marker, 0)) by {
        if occurs_at(hm, marker, 0) {
            assert(hm.subrange(0, 0 + m)[0] == hm[0]);
        }
    }
    assert(!occurs_at(hm, marker, 1)) by {
        if occurs_at(hm, marker, 1) {
            assert(hm.subrange(1, 1 + m)[0] == hm[1]);
        }
    }
    assert(!occurs_at(hm, marker, 2)) by {
        if occurs_at(hm, marker, 2) {
            assert(hm.subrange(2, 2 + m)[0] == hm[2]);
        }
    }
    assert(!occurs_at(hm, marker, 3)) by {
        if occurs_at(hm, marker, 3) {
            assert(hm.subrange(3, 3 + m)[0] == hm[3]);
        }
    }
    assert(!occurs_at(hm, marker, 4)) by {
        if occurs_at(hm, marker, 4) {
            assert(hm.subrange(4, 4 + m)[0] == hm[4]);
        }
    }
    assert(!occurs_at(hm, marker, 5)) by {
        if occurs_at(hm, marker, 5) {
            assert(hm.subrange(5, 5 + m)[0] == hm[5]);
        }
    }
    assert(!occurs_at(hm, marker, 6)) by {
        if occurs_at(hm, marker, 6) {
            assert(hm.subrange(6, 6 + m)[1] == hm[7]);
        }
    }
    assert(!occurs_at(hm, marker, 7)) by {
        if occurs_at(hm, marker, 7) {
            assert(hm.subrange(7, 7 + m)[1] == hm[8]);
        }
    }
    assert(!occurs_at(hm, marker, 8)) by {
        if occurs_at(hm, marker, 8) {
            assert(hm.subrange(8, 8 + m)[0] == hm[8]);
        }
    }
    assert(!occurs_at(hm, marker, 9)) by {
        if occurs_at(hm, marker, 9) {
            assert(hm.subrange(9, 9 + m)[0] == hm[9]);
        }
    }
    assert(!occurs_at(hm, marker, 10)) by {
        if occurs_at(hm, marker, 10) {
            assert(hm.subrange(10, 10 + m)[0] == hm[10]);
        }
    }
    assert(!occurs_at(hm, marker, 11)) by {
        if occurs_at(hm, marker, 11) {
            assert(hm.subrange(11, 11 + m)[0] == hm[11]);
        }
    }
    assert(!occurs_at(hm, marker, 12)) by {
        if occurs_at(hm, marker, 12) {
            assert(hm.subrange(12, 12 + m)[0] == hm[12]);
        }
    }
    assert(!occurs_at(hm, marker, 13)) by {
        if occurs_at(hm, marker, 13) {
            assert(hm.subrange(13, 13 + m)[0] == hm[13]);
        }
    }
    assert(!occurs_at(hm, marker, 14)) by {
        if occurs_at(hm, marker, 14) {
            assert(hm.subrange(14, 14 + m)[0] == hm[14]);
        }
    }
    assert(!occurs_at(hm, marker, 15)) by {
        if occurs_at(hm, marker, 15) {
            assert(hm.subrange(15, 15 + m)[0] == hm[15]);
        }
    }
    assert(!occurs_at(hm, marker, 16)) by {
        if occurs_at(hm, marker, 16) {
            assert(hm.subrange(16, 16 + m)[0] == hm[16]);
        }
    }
    assert(!occurs_at(hm, marker, 17)) by {
        if occurs_at(hm, marker, 17) {
            assert(hm.subrange(17, 17 + m)[0] == hm[17]);
        }
    }
    assert(!occurs_at(hm, marker, 18)) by {
        if occurs_at(hm, marker, 18) {
            assert(hm.subrange(18, 18 + m)[0] == hm[18]);
        }
    }
    assert(!occurs_at(hm, marker, 19)) by {
        if occurs_at(hm, marker, 19) {
            assert(hm.subrange(19, 19 + m)[0] == hm[19]);
        }
    }
    assert(!occurs_at(hm, marker, 20)) by {
        if occurs_at(hm, marker, 20) {
            assert(hm.subrange(20, 20 + m)[0] == hm[20]);
        }
    }
    assert(!occurs_at(hm, marker, 21)) by {
        if occurs_at(hm, marker, 21) {
            assert(hm.subrange(21, 21 + m)[0] == hm[21]);
        }
    }
    assert(!occurs_at(hm, marker, 22)) by {
        if occurs_at(hm, marker, 22) {
            assert(hm.subrange(22, 22 + m)[0] == hm[22]);
        }
    }
    assert(!occurs_at(hm, marker, 23)) by {
        if occurs_at(hm, marker, 23) {
            assert(hm.subrange(23, 23 + m)[0] == hm[23]);
        }
    }
    assert forall|k: int| 0 <= k < 24 implies !#[trigger] occurs_at(hm, marker, k) by {}
}

/// A web link under `https://open.spotify.com`, with or without a query,
/// is read as the ID text.
proof fn lemma_web_link_form(
    prefix: Seq<char>,
    marker: Seq<char>,
    t: Seq<char>,
    query: Seq<char>,
)
    requires
        t.len() == 22,
        is_base62_text(t),
        prefix.len() > 0,
        prefix[0] == 's',
        forall|i: int| 0 <= i < prefix.len() ==> prefix[i] != '/',
        marker.len() >= 2,
        marker[0] == '/',
        marker[1] != '/',
        marker[1] != 'o',
        query.len() == 0 || query[0] == '?',
    ensures
        id_text_of(web_link(marker, t, query), prefix, marker) == t,
{
    let host = spotify_web_host();
    if starts_with(host, prefix) {
        assert(host.subrange(0, prefix.len() as int)[0] == host[0]);
    }
    lemma_web_host_marker(marker);
    assert(host[0] == 'h');
    lemma_link_form(prefix, marker, host, t, query);
}

/// Law: a track link on any host, `h + "/track/" + t` with or without a
/// query, is read as the ID text `t`, for every 22 base-62 digits `t` and
/// every `h` that does not start with white space or with
/// `spotify:track:`, and in which `/track/` first occurs where it was
/// appended (for example `open.spotify.com`, `http://open.spotify.com`, or
/// nothing at all).
pub proof fn lemma_track_link_any_host(h: Seq<char>, t: Seq<char>, query: Seq<char>)
    requires
        t.len() == 22,
        is_base62_text(t),
        h.len() == 0 || !is_white_space(h[0]),
        !starts_with(h, track_uri_prefix()),
        marker_only_at_end(h, track_url_marker()),
        query.len() == 0 || query[0] == '?',
    ensures
        track_id_text(h + track_url_marker() + t + query) == t,
{
    lemma_link_form(track_uri_prefix(), track_url_marker(), h, t, query);
}

/// Law: a playlist link on any host, `h + "/playlist/" + t` with or without
/// a query, is read as the ID text `t`, for every 22 base-62 digits `t` and
/// every `h` that does not start with white space or with
/// `spotify:playlist:`, and in which `/playlist/` first occurs where it was
/// appended.
pub proof fn lemma_playlist_link_any_host(h: Seq<char>, t: Seq<char>, query: Seq<char>)
    requires
        t.len() == 22,
        is_base62_text(t),
        h.len() == 0 || !is_white_space(h[0]),
        !starts_with(h, playlist_uri_prefix()),
        marker_only_at_end(h, playlist_url_marker()),
        query.len() == 0 || query[0] == '?',
    ensures
        playlist_id_text(h + playlist_url_marker() + t + query) == t,
{
    lemma_link_form(playlist_uri_prefix(), playlist_url_marker(), h, t, query);
}

/// Law: any 22 base-62 digits are read as the same ID text from the raw
/// text, from the track URI `spotify:track:<text>`, and from the web link
/// `https://open.spotify.com/track/<text>`, with or without a query; so all
/// three forms give the same result of `parse_track_id`.
pub proof fn lemma_track_text_forms(t: Seq<char>, query: Seq<char>)
    requires
        t.len() == 22,
        is_base62_text(t),
        query.len() == 0 || query[0] == '?',
    ensures
        track_id_text(t) == t,
        track_id_text(track_uri_prefix() + t) == t,
        track_id_text(web_link(track_url_marker(), t, query)) == t,
{
    lemma_raw_form(track_uri_prefix(), track_url_marker(), t);
    lemma_uri_form(track_uri_prefix(), track_url_marker(), t);
    lemma_web_link_form(track_uri_prefix(), track_url_marker(), t, query);
}

/// Law: the ID of every track is read back from its raw ID text, from its
/// URI `spotify:track:<id>`, and from its web link
/// `https://open.spotify.com/track/<id>`, with or without a query.
pub proof fn lemma_track_forms(id: u128, query: Seq<char>)
    requires
        query.len() == 0 || query[0] == '?',
    ensures
        track_id_text(spotify_id_text(id)) == spotify_id_text(id),
        track_id_text(track_uri(id)) == spotify_id_text(id),
        track_id_text(web_link(track_url_marker(), spotify_id_text(id), query))
            == spotify_id_text(id),
        is_spotify_id_text(spotify_id_text(id)),
        base62_value(spotify_id_text(id)) == id,
{
    lemma_id_text_round_trip(id);
    lemma_track_text_forms(spotify_id_text(id), query);
}

/// Law: any 22 base-62 digits are read as the same ID text from the raw
/// text, from the playlist URI `spotify:playlist:<text>`, and from the web
/// link `https://open.spotify.com/playlist/<text>`, with or without a
/// query; so all three forms give the same result of `parse_playlist_id`.
pub proof fn lemma_playlist_text_forms(t: Seq<char>, query: Seq<char>)
    requires
        t.len() == 22,
        is_base62_text(t),
        query.len() == 0 || query[0] == '?',
    ensures
        playlist_id_text(t) == t,
        playlist_id_text(playlist_uri_prefix() + t) == t,
        playlist_id_text(web_link(playlist_url_marker(), t, query)) == t,
{
    lemma_raw_form(playlist_uri_prefix(), playlist_url_marker(), t);
    lemma_uri_form(playlist_uri_prefix(), playlist_url_marker(), t);
    lemma_web_link_form(playlist_uri_prefix(), playlist_url_marker(), t, query);
}

/// Law: the ID of every playlist is read back from its raw ID text, from
/// its URI `spotify:playlist:<id>`, and from its web link
/// `https://open.spotify.com/playlist/<id>`, with or without a query.
pub proof fn lemma_playlist_forms(id: u128, query: Seq<char>)
    requires
        query.len() == 0 || query[0] == '?',
    ensures
        playlist_id_text(spotify_id_text(id)) == spotify_id_text(id),
        playlist_id_text(playlist_uri_prefix() + spotify_id_text(id)) == spotify_id_text(id),
        playlist_id_text(web_link(playlist_url_marker(), spotify_id_text(id), query))
            == spotify_id_text(id),
        is_spotify_id_text(spotify_id_text(id)),
        base62_value(spotify_id_text(id)) == id,
{
    lemma_id_text_round_trip(id);
    lemma_playlist_text_forms(spotify_id_text(id), query);
}

} // verus!

verus! {

/// Law: white space around the input does not change which ID text is read
/// from it, for tracks and for playlists.
pub proof fn lemma_padding_ignored(before: Seq<char>, input: Seq<char>, after: Seq<char>)
    requires
        all_white_space(before),
        all_white_space(after),
    ensures
        track_id_text(before + input + after) == track_id_text(input),
        playlist_id_text(before + input + after) == playlist_id_text(input),
{
    lemma_trim_ignores_padding(before, input, after);
}

} // verus!

verus! {

/// Law: the track IDs of a playlist are exactly its track entries, in
/// playlist order: an empty playlist has none, appending a track entry
/// appends that track's ID, and appending any other entry changes nothing.
pub proof fn lemma_playlist_track_ids_append(entries: Seq<Option<SpotifyId>>, track: SpotifyId)
    ensures
        playlist_track_ids(Seq::<Option<SpotifyId>>::empty()) == Seq::<u128>::empty(),
        playlist_track_ids(entries.push(Some(track))) == playlist_track_ids(entries).push(
            track.id,
        ),
        playlist_track_ids(entries.push(None)) == playlist_track_ids(entries),
{
    assert(entries.push(Some(track)).drop_last() =~= entries);
    assert(entries.push(None).drop_last() =~= entries);
}

/// Law: a playlist whose entries are all tracks lists every one of them,
/// in order.
pub proof fn lemma_playlist_of_tracks(entries: Seq<Option<SpotifyId>>)
    requires
        forall|i: int| 0 <= i < entries.len() ==> #[trigger] entries[i] is Some,
    ensures
        playlist_track_ids(entries).len() == entries.len(),
        forall|i: int|
            0 <= i < entries.len() ==> playlist_track_ids(entries)[i] == (
            #[trigger] entries[i])->0.id,
    decreases entries.len(),
{
    if entries.len() > 0 {
        let rest = entries.drop_last();
        assert forall|i: int| 0 <= i < rest.len() implies #[trigger] rest[i] is Some by {
            assert(rest[i] == entries[i]);
        }
        lemma_playlist_of_tracks(rest);
        assert(entries.last() is Some);
        assert forall|i: int| 0 <= i < entries.len() implies playlist_track_ids(entries)[i] == (
        #[trigger] entries[i])->0.id by {
            if i < rest.len() {
                assert(rest[i] == entries[i]);
            }
        }
    }
}

/// Law: every track's URI is `spotify:track:` followed by the track's
/// 22-character ID text, and it is read back as that ID text.
pub proof fn lemma_track_uri_shape(id: u128)
    ensures
        track_uri(id).len() == 36,
        track_uri(id).take(14) == track_uri_prefix(),
        track_uri(id).skip(14) == spotify_id_text(id),
        track_id_text(track_uri(id)) == spotify_id_text(id),
{
    lemma_id_text_round_trip(id);
    assert(track_uri(id).take(14) =~= track_uri_prefix());
    assert(track_uri(id).skip(14) =~= spotify_id_text(id));
    lemma_track_forms(id, Seq::<char>::empty());
}

} // verus!
