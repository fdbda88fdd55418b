use spotstream::SpotifyId;

const VALID: [(u128, &str); 3] = [
    (238762092608182713602505436543891614649, "5sWHDYs0csV6RS48xBl0tH"),
    (204841891221366092811751085145916697048, "4GNcXTGWmnZ3ySrqvol3o4"),
    (0, "0000000000000000000000"),
];

#[test]
fn from_base62_accepts_valid_ids() {
    for (id, text) in VALID {
        assert_eq!(SpotifyId::from_base62(text).unwrap(), SpotifyId { id });
    }
}

#[test]
fn from_base62_rejects_invalid_text() {
    for text in [
        "!!!!!Ys0csV6RS48xBl0tH",
        "....................",
        "aaaaaaaaaaaaaaaaaaaaaaaaaaaaaa",
        "aa",
        "ZZZZZZZZZZZZZZZZZZZZZZ",
        "",
        "5sWHDYs0csV6RS48xBl0t\u{e9}",
    ] {
        let err = SpotifyId::from_base62(text).unwrap_err();
        assert_eq!(err.text, text);
    }
}

#[test]
fn largest_id_round_trips() {
    let max = SpotifyId { id: u128::MAX };
    let text = max.base62_or_unknown();
    assert_eq!(text, "7N42dgm5tFLK9N8MT7fHC7");
    assert_eq!(SpotifyId::from_base62(&text).unwrap(), max);
    assert!(SpotifyId::from_base62("7N42dgm5tFLK9N8MT7fHC8").is_err());
}

#[test]
fn base62_or_unknown_gives_canonical_text() {
    for (id, text) in VALID {
        assert_eq!(SpotifyId { id }.base62_or_unknown(), text);
    }
    assert_eq!(SpotifyId { id: 61 }.base62_or_unknown(), "000000000000000000000Z");
    assert_eq!(SpotifyId { id: 62 }.base62_or_unknown(), "0000000000000000000010");
}

#[test]
fn text_round_trip_law_on_samples() {
    for id in [1u128, 35, 36, 3843, 1 << 64, 1 << 127, u128::MAX - 1] {
        let text = SpotifyId { id }.base62_or_unknown();
        assert_eq!(text.len(), 22);
        assert_eq!(SpotifyId::from_base62(&text).unwrap().id, id);
    }
}
