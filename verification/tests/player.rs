use spotstream::player::{playlist_items, track_item};
use spotstream::{parse_playlist_id, parse_track_id, PlaylistInfo, SpotifyId, TrackInfo};

const ID: u128 = 238762092608182713602505436543891614649;
const TEXT: &str = "5sWHDYs0csV6RS48xBl0tH";

#[test]
fn track_id_from_raw_uri_and_link() {
    for input in [
        "5sWHDYs0csV6RS48xBl0tH",
        "spotify:track:5sWHDYs0csV6RS48xBl0tH",
        "https://open.spotify.com/track/5sWHDYs0csV6RS48xBl0tH",
        "https://open.spotify.com/track/5sWHDYs0csV6RS48xBl0tH?si=abc123",
        "https://open.spotify.com/intl-de/track/5sWHDYs0csV6RS48xBl0tH?si=x?y",
        "  \t5sWHDYs0csV6RS48xBl0tH\n",
        "\u{3000}spotify:track:5sWHDYs0csV6RS48xBl0tH\u{a0}",
    ] {
        assert_eq!(parse_track_id(input).unwrap(), SpotifyId { id: ID }, "{input}");
    }
}

#[test]
fn track_id_errors_name_the_text_looked_at() {
    assert_eq!(parse_track_id("spotify:track:abc").unwrap_err().text, "abc");
    assert_eq!(parse_track_id("https://x/track/short?q").unwrap_err().text, "short");
    assert_eq!(parse_track_id("  not an id ").unwrap_err().text, "not an id");
    assert_eq!(parse_track_id("").unwrap_err().text, "");
    // A playlist URI is not a track URI: the whole text is taken as the ID.
    let uri = "spotify:playlist:5sWHDYs0csV6RS48xBl0tH";
    assert_eq!(parse_track_id(uri).unwrap_err().text, uri);
}

#[test]
fn uri_prefix_wins_over_link_marker() {
    let input = "spotify:track:/track/5sWHDYs0csV6RS48xBl0tH";
    assert_eq!(parse_track_id(input).unwrap_err().text, "/track/5sWHDYs0csV6RS48xBl0tH");
}

#[test]
fn playlist_id_from_raw_uri_and_link() {
    for input in [
        "37i9dQZF1DXcBWIGoYBM5M",
        "spotify:playlist:37i9dQZF1DXcBWIGoYBM5M",
        "https://open.spotify.com/playlist/37i9dQZF1DXcBWIGoYBM5M?si=1",
    ] {
        let id = parse_playlist_id(input).unwrap();
        assert_eq!(id.base62_or_unknown(), "37i9dQZF1DXcBWIGoYBM5M");
    }
    assert_eq!(parse_playlist_id("spotify:playlist:").unwrap_err().text, "");
}

#[test]
fn track_item_has_id_and_uri() {
    let item = track_item(SpotifyId { id: ID });
    assert_eq!(item.id, TEXT);
    assert_eq!(item.uri, "spotify:track:5sWHDYs0csV6RS48xBl0tH");
    assert_eq!(parse_track_id(&item.uri).unwrap().id, ID);
}

#[test]
fn playlist_keeps_only_tracks_in_order() {
    let entries = vec![
        Some(SpotifyId { id: 0 }),
        None,
        Some(SpotifyId { id: ID }),
        None,
    ];
    let items = playlist_items(&entries);
    assert_eq!(items.len(), 2);
    assert_eq!(items[0].id, "0000000000000000000000");
    assert_eq!(items[0].uri, "spotify:track:0000000000000000000000");
    assert_eq!(items[1].id, TEXT);
    let info = PlaylistInfo::from_contents("Mix".to_string(), "Daily".to_string(), &entries);
    assert_eq!(info.name, "Mix");
    assert_eq!(info.description, "Daily");
    assert_eq!(info.tracks.len(), 2);
    assert!(playlist_items(&vec![None, None]).is_empty());
}

#[test]
fn track_info_from_metadata() {
    let info = TrackInfo::from_metadata(
        SpotifyId { id: ID },
        "Title".to_string(),
        vec!["A".to_string(), "B".to_string()],
        "Album".to_string(),
        215000,
    );
    assert_eq!(info.id, TEXT);
    assert_eq!(info.title, "Title");
    assert_eq!(info.artists, vec!["A", "B"]);
    assert_eq!(info.album, "Album");
    assert_eq!(info.duration_ms, 215000);
}

#[test]
fn every_form_reads_the_same_text_even_when_too_large() {
    let text = "ZZZZZZZZZZZZZZZZZZZZZZ";
    for input in [
        "ZZZZZZZZZZZZZZZZZZZZZZ".to_string(),
        format!("spotify:track:{text}"),
        format!("https://open.spotify.com/track/{text}"),
        format!("https://open.spotify.com/track/{text}?si=q"),
    ] {
        assert_eq!(parse_track_id(&input).unwrap_err().text, text);
    }
    for input in [
        format!("spotify:playlist:{text}"),
        format!("https://open.spotify.com/playlist/{text}?si=q"),
    ] {
        assert_eq!(parse_playlist_id(&input).unwrap_err().text, text);
    }
}
