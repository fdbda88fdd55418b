//! Spotify IDs: 128-bit numbers written as 22 base-62 digits.
//!
//! The digit order is `0-9`, then `a-z`, then `A-Z`. The conversion
//! between text and number is done by `librespot`; the functions here say
//! exactly what it computes, and the proofs below relate the two directions.

use vstd::prelude::*;

verus! {

#[verifier::external_type_specification]
#[verifier::external_body]
pub struct ExLibrespotError(librespot::core::Error);

/// A Spotify ID, held as the 128-bit number that it denotes.
#[derive(Clone, Copy, Debug, PartialEq, Eq, Hash, Structural)]
pub struct SpotifyId {
    pub id: u128,
}

/// `c` is one of the 62 digits `0-9`, `a-z`, `A-Z`.
pub open spec fn is_base62_digit(c: char) -> bool {
    ||| ('0' <= c && c <= '9')
    ||| ('a' <= c && c <= 'z')
    ||| ('A' <= c && c <= 'Z')
}

/// The value of a base-62 digit: `0-9` are 0 to 9, `a-z` are 10 to 35,
/// `A-Z` are 36 to 61.
pub open spec fn base62_digit_value(c: char) -> nat {
    if '0' <= c && c <= '9' {
        (c as int - '0' as int) as nat
    } else if 'a' <= c && c <= 'z' {
        (c as int - 'a' as int + 10) as nat
    } else {
        (c as int - 'A' as int + 36) as nat
    }
}

/// The digit whose value is `d` (for `d < 62`).
pub open spec fn base62_char(d: nat) -> char {
    if d < 10 {
        ('0' as int + d) as char
    } else if d < 36 {
        ('a' as int + d - 10) as char
    } else {
        ('A' as int + d - 36) as char
    }
}

/// Every character of `s` is a base-62 digit.
pub open spec fn is_base62_text(s: Seq<char>) -> bool {
    forall|i: int| 0 <= i < s.len() ==> #[trigger] is_base62_digit(s[i])
}

/// The number that the digits of `s` denote, most significant digit first.
pub open spec fn base62_value(s: Seq<char>) -> nat
    decreases s.len(),
{
    if s.len() == 0 {
        0
    } else {
        base62_value(s.drop_last()) * 62 + base62_digit_value(s.last())
    }
}

/// `s` is the text of a Spotify ID: 22 base-62 digits whose value fits in
/// 128 bits.
pub open spec fn is_spotify_id_text(s: Seq<char>) -> bool {
    &&& s.len() == 22
    &&& is_base62_text(s)
    &&& base62_value(s) <= u128::MAX
}

/// The last `width` base-62 digits of `n`, most significant first, with
/// leading zeros.
pub open spec fn base62_text(n: nat, width: nat) -> Seq<char>
    decreases width,
{
    if width == 0 {
        Seq::empty()
    } else {
        base62_text(n / 62, (width - 1) as nat).push(base62_char(n % 62))
    }
}

/// The canonical text of an ID: its 22 base-62 digits.
pub open spec fn spotify_id_text(id: u128) -> Seq<char> {
    base62_text(id as nat, 22)
}

/// 62 to the power `w`.
pub open spec fn pow62(w: nat) -> nat
    decreases w,
{
    if w == 0 {
        1
    } else {
        62 * pow62((w - 1) as nat)
    }
}

proof fn lemma_digit_of_value(d: nat)
    requires
        d < 62,
    ensures
        is_base62_digit(base62_char(d)),
        base62_digit_value(base62_char(d)) == d,
{
}

proof fn lemma_value_of_digit(c: char)
    requires
        is_base62_digit(c),
    ensures
        base62_digit_value(c) < 62,
        base62_char(base62_digit_value(c)) == c,
{
}

proof fn lemma_div_mod_62(q: nat, r: nat)
    requires
        r < 62,
    ensures
        (q * 62 + r) / 62 == q,
        (q * 62 + r) % 62 == r,
{
    assert((q * 62 + r) / 62 == q && (q * 62 + r) % 62 == r) by (nonlinear_arith)
        requires
            r < 62,
    ;
}

proof fn lemma_u128_below_pow62_22()
    ensures
        u128::MAX < pow62(22),
{
    reveal_with_fuel(pow62, 23);
}

/// The digits of `n`, read back, give `n`, where `n` fits in `width` digits.
proof fn lemma_text_value(n: nat, width: nat)
    requires
        n < pow62(width),
    ensures
        base62_text(n, width).len() == width,
        is_base62_text(base62_text(n, width)),
        base62_value(base62_text(n, width)) == n,
    decreases width,
{
    if width == 0 {
    } else {
        let w1 = (width - 1) as nat;
        let q = n / 62;
        let r = n % 62;
        assert(q < pow62(w1) && q * 62 + r == n && r < 62) by (nonlinear_arith)
            requires
                n < 62 * pow62(w1),
                q == n / 62,
                r == n % 62,
        ;
        lemma_text_value(q, w1);
        lemma_digit_of_value(r);
        let t = base62_text(n, width);
        assert(t.drop_last() =~= base62_text(q, w1));
        assert(t.last() == base62_char(r));
        assert forall|i: int| 0 <= i < t.len() implies #[trigger] is_base62_digit(t[i]) by {
            if i < w1 {
                assert(t[i] == base62_text(q, w1)[i]);
            }
        }
    }
}

/// Base-62 digits are the digits of their own value.
proof fn lemma_value_text(s: Seq<char>)
    requires
        is_base62_text(s),
    ensures
        base62_text(base62_value(s), s.len()) == s,
    decreases s.len(),
{
    if s.len() > 0 {
        let p = s.drop_last();
        assert(is_base62_text(p)) by {
            assert forall|i: int| 0 <= i < p.len() implies #[trigger] is_base62_digit(p[i]) by {
                assert(p[i] == s[i]);
            }
        }
        lemma_value_text(p);
        assert(is_base62_digit(s[s.len() - 1]));
        lemma_value_of_digit(s.last());
        lemma_div_mod_62(base62_value(p), base62_digit_value(s.last()));
        assert(base62_text(base62_value(s), s.len()) =~= p.push(s.last()));
        assert(p.push(s.last()) =~= s);
    }
}

/// Law: the canonical text of every ID is accepted as ID text, and reads
/// back as that same ID.
pub proof fn lemma_id_text_round_trip(id: u128)
    ensures
        is_spotify_id_text(spotify_id_text(id)),
        base62_value(spotify_id_text(id)) == id,
{
    lemma_u128_below_pow62_22();
    lemma_text_value(id as nat, 22);
}

/// Law: every accepted ID text is the canonical text of the ID it denotes,
/// so each ID has exactly one text.
pub proof fn lemma_id_text_canonical(s: Seq<char>)
    requires
        is_spotify_id_text(s),
    ensures
        spotify_id_text(base62_value(s) as u128) == s,
{
    lemma_value_text(s);
}

/// Calls `librespot::core::SpotifyId::from_base62`, and gives back the
/// number of the ID it returns. Its source accepts a string of exactly 22
/// bytes, each an ASCII base-62 digit, and multiplies up the digits with
/// checked arithmetic, failing on overflow of `u128`. In characters: it
/// succeeds exactly on `is_spotify_id_text`, with `base62_value` as the
/// result. The error's content is not stated.
#[verifier::external_body]
fn id_from_base62(src: &str) -> (res: Result<u128, librespot::core::Error>)
    ensures
        res is Ok <==> is_spotify_id_text(src@),
        res matches Ok(id) ==> id == base62_value(src@),
{
    match librespot::core::SpotifyId::from_base62(src) {
        Ok(parsed) => Ok(parsed.id),
        Err(e) => Err(e),
    }
}

/// Calls `librespot::core::SpotifyId::to_base62` on the ID with number
/// `id`. Its documentation promises the canonical 22-character base-62
/// text; its source writes only bytes of its digit table, so the final
/// UTF-8 conversion cannot fail, and it returns `Ok`.
#[verifier::external_body]
fn id_to_base62(id: u128) -> (res: Result<String, librespot::core::Error>)
    ensures
        res is Ok,
        res matches Ok(s) ==> s@ == spotify_id_text(id),
{
    librespot::core::SpotifyId { id }.to_base62()
}

/// Why some text is not a Spotify ID: the text that was looked at, and the
/// error that the base-62 decoder gave.
#[derive(Debug)]
pub struct InvalidSpotifyId {
    pub text: String,
    pub cause: librespot::core::Error,
}

impl SpotifyId {
    /// The ID whose text is `src`, where `src` is 22 base-62 digits of a
    /// value that fits in 128 bits.
    pub fn from_base62(src: &str) -> (res: Result<SpotifyId, InvalidSpotifyId>)
        ensures
            match res {
                Ok(parsed) => is_spotify_id_text(src@) && parsed.id == base62_value(src@),
                Err(e) => !is_spotify_id_text(src@) && e.text@ == src@,
            },
    {
        match id_from_base62(src) {
            Ok(id) => Ok(SpotifyId { id }),
            Err(cause) => Err(InvalidSpotifyId { text: src.to_owned(), cause }),
        }
    }

    /// The canonical text of the ID, or `unknown` where the encoder fails.
    pub fn base62_or_unknown(&self) -> (s: String)
        ensures
            s@ == spotify_id_text(self.id),
    {
        match id_to_base62(self.id) {
            Ok(s) => s,
            Err(_) => "unknown".to_owned(),
        }
    }
}

} // verus!
