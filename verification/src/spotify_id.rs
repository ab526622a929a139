//! The canonical-ID resolver: structured track/album/playlist identifiers,
//! parsed from native-scheme URIs (`spotify:track:<id>`) or web URLs
//! (`https://open.spotify.com/track/<id>`), and printed back as either form.
//!
//! An identifier's payload is a 128-bit number written as exactly 22 base-62
//! digits (`0-9`, `a-z`, `A-Z`, in that order of value).
use vstd::prelude::*;

verus! {

use crate::strings::chars_of;
use crate::strings::seq_starts_with;
use crate::strings::starts_with;
use crate::strings::string_of;
use crate::strings::sub_chars;
use crate::strings::chars_eq;

/// Number of base-62 digits in an identifier.
pub const ID_B62_LEN: usize = 22;

/// The kind of item a canonical identifier names.
#[derive(Clone, Copy, Debug, PartialEq, Eq, Structural)]
pub enum ItemType {
    Album,
    Artist,
    Episode,
    Playlist,
    Show,
    Track,
    Local,
    Unknown,
}

/// A parsed canonical identifier: an item kind and a 128-bit payload.
#[derive(Clone, Copy, Debug, PartialEq, Eq, Structural)]
pub struct SpotifyId {
    pub item_type: ItemType,
    pub id: u128,
}

// ---------------------------------------------------------------------------
// Base 62
// ---------------------------------------------------------------------------
pub open spec fn is_b62(c: char) -> bool {
    ('0' as u32 <= c as u32 && c as u32 <= '9' as u32) || ('a' as u32 <= c as u32 && c as u32
        <= 'z' as u32) || ('A' as u32 <= c as u32 && c as u32 <= 'Z' as u32)
}

/// The numeric value of one base-62 digit.
pub open spec fn b62_val(c: char) -> nat {
    if '0' as u32 <= c as u32 && c as u32 <= '9' as u32 {
        (c as u32 - '0' as u32) as nat
    } else if 'a' as u32 <= c as u32 && c as u32 <= 'z' as u32 {
        (c as u32 - 'a' as u32 + 10) as nat
    } else {
        (c as u32 - 'A' as u32 + 36) as nat
    }
}

pub open spec fn all_b62(s: Seq<char>) -> bool {
    forall|i: int| 0 <= i < s.len() ==> is_b62(#[trigger] s[i])
}

/// The value of a base-62 digit string, most significant digit first.
pub open spec fn b62_decode(s: Seq<char>) -> nat
    decreases s.len(),
{
    if s.len() == 0 {
        0
    } else {
        b62_decode(s.drop_last()) * 62 + b62_val(s.last())
    }
}

/// The digit with value `d`, for `d < 62`.
pub open spec fn b62_char(d: nat) -> char
    recommends
        d < 62,
{
    if d < 10 {
        (('0' as u32) + d as u32) as char
    } else if d < 36 {
        (('a' as u32) + (d - 10) as u32) as char
    } else {
        (('A' as u32) + (d - 36) as u32) as char
    }
}

/// The `len` low-order base-62 digits of `n`, most significant first.
pub open spec fn b62_rep(n: nat, len: nat) -> Seq<char>
    decreases len,
{
    if len == 0 {
        Seq::empty()
    } else {
        b62_rep(n / 62, (len - 1) as nat).push(b62_char(n % 62))
    }
}

pub open spec fn pow62(k: nat) -> nat
    decreases k,
{
    if k == 0 {
        1
    } else {
        62 * pow62((k - 1) as nat)
    }
}

/// The canonical 22-digit form of an identifier payload.
pub open spec fn encode22(n: nat) -> Seq<char> {
    b62_rep(n, ID_B62_LEN as nat)
}

proof fn lemma_b62_char_val(d: nat)
    requires
        d < 62,
    ensures
        is_b62(b62_char(d)),
        b62_val(b62_char(d)) == d,
{
    // Character casts stay within the contiguous ASCII digit and letter runs.
    if d < 10 {
        assert(('0' as u32) + d as u32 <= '9' as u32);
        assert(b62_char(d) as u32 == ('0' as u32) + d as u32);
    } else if d < 36 {
        assert(b62_char(d) as u32 == ('a' as u32) + (d - 10) as u32);
    } else {
        assert(b62_char(d) as u32 == ('A' as u32) + (d - 36) as u32);
    }
}

proof fn lemma_b62_rep_props(n: nat, len: nat)
    ensures
        b62_rep(n, len).len() == len,
        all_b62(b62_rep(n, len)),
        b62_decode(b62_rep(n, len)) == n % pow62(len),
    decreases len,
{
    if len == 0 {
        assert(n % 1 == 0) by (nonlinear_arith);
    } else {
        let rest = b62_rep(n / 62, (len - 1) as nat);
        lemma_b62_rep_props(n / 62, (len - 1) as nat);
        lemma_b62_char_val(n % 62);
        let s = rest.push(b62_char(n % 62));
        assert(s.drop_last() =~= rest);
        assert(s.last() == b62_char(n % 62));
        assert forall|i: int| 0 <= i < s.len() implies is_b62(#[trigger] s[i]) by {
            if i < rest.len() {
                assert(s[i] == rest[i]);
            }
        }
        assert(b62_decode(s) == ((n / 62) % pow62((len - 1) as nat)) * 62 + n % 62);
        lemma_pow62_pos((len - 1) as nat);
        lemma_mod_mul_div(n, pow62((len - 1) as nat));
        assert(pow62(len) == 62 * pow62((len - 1) as nat));
    }
}

proof fn lemma_pow62_pos(k: nat)
    ensures
        pow62(k) > 0,
    decreases k,
{
    if k > 0 {
        lemma_pow62_pos((k - 1) as nat);
    }
}

/// `(n / 62) % p * 62 + n % 62 == n % (62 * p)`: peeling the lowest digit off
/// a remainder.
proof fn lemma_mod_mul_div(n: nat, p: nat)
    requires
        p > 0,
    ensures
        ((n / 62) % p) * 62 + n % 62 == n % (62 * p),
{
    vstd::arithmetic::div_mod::lemma_breakdown(n as int, 62, p as int);
}

/// Twenty-two base-62 digits cover strictly more than 128 bits.
proof fn lemma_pow62_22_big()
    ensures
        pow62(22) > u128::MAX,
{
    reveal_with_fuel(pow62, 23);
    assert(pow62(22) > u128::MAX);
}

/// Every 128-bit payload round-trips through its 22-digit form.
pub proof fn lemma_encode22_decode(n: u128)
    ensures
        encode22(n as nat).len() == ID_B62_LEN,
        all_b62(encode22(n as nat)),
        b62_decode(encode22(n as nat)) == n,
{
    lemma_b62_rep_props(n as nat, ID_B62_LEN as nat);
    lemma_pow62_22_big();
    assert(n as nat % pow62(22) == n) by (nonlinear_arith)
        requires
            pow62(22) > n,
    ;
}

pub fn is_b62_exec(c: char) -> (r: bool)
    ensures
        r == is_b62(c),
{
    let u = c as u32;
    ('0' as u32 <= u && u <= '9' as u32) || ('a' as u32 <= u && u <= 'z' as u32) || ('A' as u32 <= u
        && u <= 'Z' as u32)
}

fn b62_val_exec(c: char) -> (r: u32)
    requires
        is_b62(c),
    ensures
        r == b62_val(c),
        r < 62,
{
    let u = c as u32;
    if '0' as u32 <= u && u <= '9' as u32 {
        u - '0' as u32
    } else if 'a' as u32 <= u && u <= 'z' as u32 {
        u - 'a' as u32 + 10
    } else {
        u - 'A' as u32 + 36
    }
}

fn b62_char_exec(d: u32) -> (r: char)
    requires
        d < 62,
    ensures
        r == b62_char(d as nat),
{
    proof {
        lemma_b62_char_val(d as nat);
    }
    let u: u32 = if d < 10 {
        '0' as u32 + d
    } else if d < 36 {
        'a' as u32 + (d - 10)
    } else {
        'A' as u32 + (d - 36)
    };
    proof {
        assert(u == b62_char(d as nat) as u32);
        assert(u < 0xD800);
    }
    char_from_u32(u)
}

/// Relies on `char::from_u32`: for any value below the surrogate range it
/// returns the character with that scalar value.
#[verifier::external_body]
fn char_from_u32(u: u32) -> (r: char)
    requires
        u < 0xD800,
    ensures
        r as u32 == u,
{
    char::from_u32(u).unwrap()
}

proof fn lemma_b62_decode_prefix_le(s: Seq<char>, i: int)
    requires
        0 <= i <= s.len(),
    ensures
        b62_decode(s.take(i)) <= b62_decode(s),
    decreases s.len() - i,
{
    if i < s.len() {
        lemma_b62_decode_prefix_le(s, i + 1);
        assert(s.take(i + 1).drop_last() =~= s.take(i));
        assert(b62_decode(s.take(i + 1)) == b62_decode(s.take(i)) * 62 + b62_val(
            s.take(i + 1).last(),
        ));
    } else {
        assert(s.take(i) =~= s);
    }
}

/// Decodes a 22-digit base-62 identifier payload; `None` when a character is
/// not a digit or the value does not fit in 128 bits.
pub fn b62_decode_exec(v: &Vec<char>) -> (r: Option<u128>)
    requires
        v@.len() == ID_B62_LEN,
    ensures
        r == (if all_b62(v@) && b62_decode(v@) <= u128::MAX {
            Some(b62_decode(v@) as u128)
        } else {
            Option::<u128>::None
        }),
{
    let mut acc: u128 = 0;
    let mut i: usize = 0;
    while i < v.len()
        invariant
            i <= v@.len(),
            v@.len() == ID_B62_LEN,
            forall|j: int| 0 <= j < i ==> is_b62(#[trigger] v@[j]),
            acc == b62_decode(v@.take(i as int)),
        decreases v@.len() - i,
    {
        let c = v[i];
        if !is_b62_exec(c) {
            proof {
                assert(!all_b62(v@));
            }
            return None;
        }
        let dv: u32 = b62_val_exec(c);
        proof {
            assert(v@.take(i + 1).drop_last() =~= v@.take(i as int));
            assert(v@.take(i + 1).last() == v@[i as int]);
            assert(b62_decode(v@.take(i + 1)) == acc * 62 + dv);
        }
        if acc > (u128::MAX - dv as u128) / 62 {
            proof {
                assert(acc * 62 + dv > u128::MAX) by (nonlinear_arith)
                    requires
                        acc > (u128::MAX - dv as u128) / 62,
                        dv < 62,
                ;
                lemma_b62_decode_prefix_le(v@, i + 1);
            }
            return None;
        }
        proof {
            assert(acc * 62 + dv <= u128::MAX) by (nonlinear_arith)
                requires
                    acc <= (u128::MAX - dv as u128) / 62,
                    dv < 62,
            ;
        }
        acc = acc * 62 + dv as u128;
        i += 1;
    }
    proof {
        assert(v@.take(i as int) =~= v@);
        assert(all_b62(v@));
    }
    Some(acc)
}

/// The canonical 22-digit form of `n`.
pub fn encode22_exec(n: u128) -> (r: Vec<char>)
    ensures
        r@ == encode22(n as nat),
{
    let mut r: Vec<char> = Vec::new();
    b62_fmt(n, ID_B62_LEN, &mut r);
    proof {
        assert(Seq::<char>::empty() + encode22(n as nat) =~= encode22(n as nat));
    }
    r
}

fn b62_fmt(n: u128, len: usize, out: &mut Vec<char>)
    ensures
        final(out)@ == old(out)@ + b62_rep(n as nat, len as nat),
    decreases len,
{
    if len == 0 {
        proof {
            assert(old(out)@ + b62_rep(n as nat, 0) =~= old(out)@);
        }
    } else {
        b62_fmt(n / 62, len - 1, out);
        out.push(b62_char_exec((n % 62) as u32));
        proof {
            assert(old(out)@ + b62_rep(n as nat, len as nat) =~= (old(out)@ + b62_rep(
                (n / 62) as nat,
                (len - 1) as nat,
            )).push(b62_char(n as nat % 62)));
        }
    }
}

// ---------------------------------------------------------------------------
// Finding a separator
// ---------------------------------------------------------------------------
/// Index of the first occurrence of `c` in `s`, if any.
pub open spec fn find_idx(s: Seq<char>, c: char) -> Option<int>
    decreases s.len(),
{
    if s.len() == 0 {
        None
    } else if s[0] == c {
        Some(0int)
    } else {
        match find_idx(s.skip(1), c) {
            Some(i) => Some(i + 1),
            None => None,
        }
    }
}

proof fn lemma_find_idx_some(s: Seq<char>, c: char, i: int)
    requires
        0 <= i < s.len(),
        s[i] == c,
        forall|j: int| 0 <= j < i ==> s[j] != c,
    ensures
        find_idx(s, c) == Some(i),
    decreases i,
{
    if i == 0 {
    } else {
        assert(s.skip(1)[i - 1] == c);
        assert(forall|j: int| 0 <= j < i - 1 ==> #[trigger] s.skip(1)[j] != c);
        lemma_find_idx_some(s.skip(1), c, i - 1);
    }
}

proof fn lemma_find_idx_none(s: Seq<char>, c: char)
    requires
        forall|j: int| 0 <= j < s.len() ==> s[j] != c,
    ensures
        find_idx(s, c) is None,
    decreases s.len(),
{
    if s.len() > 0 {
        assert(forall|j: int| 0 <= j < s.skip(1).len() ==> #[trigger] s.skip(1)[j] != c);
        lemma_find_idx_none(s.skip(1), c);
    }
}

/// First position of `c` in `v`.
pub fn find_char(v: &Vec<char>, c: char) -> (r: Option<usize>)
    ensures
        match r {
            Some(i) => i < v@.len() && find_idx(v@, c) == Some(i as int),
            None => find_idx(v@, c) is None,
        },
{
    let mut i: usize = 0;
    while i < v.len()
        invariant
            i <= v@.len(),
            forall|j: int| 0 <= j < i ==> v@[j] != c,
        decreases v@.len() - i,
    {
        if v[i] == c {
            proof {
                lemma_find_idx_some(v@, c, i as int);
            }
            return Some(i);
        }
        i += 1;
    }
    proof {
        lemma_find_idx_none(v@, c);
    }
    None
}

// ---------------------------------------------------------------------------
// Item type names
// ---------------------------------------------------------------------------
pub open spec fn item_type_seq(t: ItemType) -> Seq<char> {
    match t {
        ItemType::Album => seq!['a', 'l', 'b', 'u', 'm'],
        ItemType::Artist => seq!['a', 'r', 't', 'i', 's', 't'],
        ItemType::Episode => seq!['e', 'p', 'i', 's', 'o', 'd', 'e'],
        ItemType::Playlist => seq!['p', 'l', 'a', 'y', 'l', 'i', 's', 't'],
        ItemType::Show => seq!['s', 'h', 'o', 'w'],
        ItemType::Track => seq!['t', 'r', 'a', 'c', 'k'],
        ItemType::Local => seq!['l', 'o', 'c', 'a', 'l'],
        ItemType::Unknown => seq!['u', 'n', 'k', 'n', 'o', 'w', 'n'],
    }
}

/// The item type a name stands for; anything unrecognized is `Unknown`.
pub open spec fn item_type_of(s: Seq<char>) -> ItemType {
    if s == item_type_seq(ItemType::Album) {
        ItemType::Album
    } else if s == item_type_seq(ItemType::Artist) {
        ItemType::Artist
    } else if s == item_type_seq(ItemType::Episode) {
        ItemType::Episode
    } else if s == item_type_seq(ItemType::Playlist) {
        ItemType::Playlist
    } else if s == item_type_seq(ItemType::Show) {
        ItemType::Show
    } else if s == item_type_seq(ItemType::Track) {
        ItemType::Track
    } else if s == item_type_seq(ItemType::Local) {
        ItemType::Local
    } else {
        ItemType::Unknown
    }
}

fn item_type_of_exec(v: &Vec<char>) -> (r: ItemType)
    ensures
        r == item_type_of(v@),
{
    proof {
        reveal_strlit("album");
        reveal_strlit("artist");
        reveal_strlit("episode");
        reveal_strlit("playlist");
        reveal_strlit("show");
        reveal_strlit("track");
        reveal_strlit("local");
        assert("album"@ =~= item_type_seq(ItemType::Album));
        assert("artist"@ =~= item_type_seq(ItemType::Artist));
        assert("episode"@ =~= item_type_seq(ItemType::Episode));
        assert("playlist"@ =~= item_type_seq(ItemType::Playlist));
        assert("show"@ =~= item_type_seq(ItemType::Show));
        assert("track"@ =~= item_type_seq(ItemType::Track));
        assert("local"@ =~= item_type_seq(ItemType::Local));
    }
    if chars_eq(v, &chars_of("album")) {
        ItemType::Album
    } else if chars_eq(v, &chars_of("artist")) {
        ItemType::Artist
    } else if chars_eq(v, &chars_of("episode")) {
        ItemType::Episode
    } else if chars_eq(v, &chars_of("playlist")) {
        ItemType::Playlist
    } else if chars_eq(v, &chars_of("show")) {
        ItemType::Show
    } else if chars_eq(v, &chars_of("track")) {
        ItemType::Track
    } else if chars_eq(v, &chars_of("local")) {
        ItemType::Local
    } else {
        ItemType::Unknown
    }
}

/// No item type name holds a separator, and each name maps back to its type.
proof fn lemma_item_type_names(t: ItemType)
    ensures
        item_type_seq(t).len() > 0,
        forall|i: int|
            0 <= i < item_type_seq(t).len() ==> #[trigger] item_type_seq(t)[i] != '/'
                && item_type_seq(t)[i] != ':' && item_type_seq(t)[i] != '?',
        item_type_of(item_type_seq(t)) == t,
{
    assert(item_type_seq(ItemType::Album)[0] == 'a');
    assert(item_type_seq(ItemType::Artist).len() == 6);
    assert(item_type_seq(ItemType::Episode)[0] == 'e');
    assert(item_type_seq(ItemType::Playlist)[0] == 'p');
    assert(item_type_seq(ItemType::Show)[0] == 's');
    assert(item_type_seq(ItemType::Track)[0] == 't');
    assert(item_type_seq(ItemType::Local)[0] == 'l');
    assert(item_type_seq(ItemType::Unknown)[0] == 'u');
}

// ---------------------------------------------------------------------------
// URI and URL forms
// ---------------------------------------------------------------------------
/// `spotify:`
pub open spec fn uri_prefix() -> Seq<char> {
    seq!['s', 'p', 'o', 't', 'i', 'f', 'y', ':']
}

/// `https://open.spotify.com/`
pub open spec fn url_prefix() -> Seq<char> {
    seq![
        'h',
        't',
        't',
        'p',
        's',
        ':',
        '/',
        '/',
        'o',
        'p',
        'e',
        'n',
        '.',
        's',
        'p',
        'o',
        't',
        'i',
        'f',
        'y',
        '.',
        'c',
        'o',
        'm',
        '/',
    ]
}

fn uri_prefix_vec() -> (r: Vec<char>)
    ensures
        r@ == uri_prefix(),
{
    proof {
        reveal_strlit("spotify:");
        assert("spotify:"@ =~= uri_prefix());
    }
    chars_of("spotify:")
}

fn url_prefix_vec() -> (r: Vec<char>)
    ensures
        r@ == url_prefix(),
{
    proof {
        reveal_strlit("https://open.spotify.com/");
        assert("https://open.spotify.com/"@ =~= url_prefix());
    }
    chars_of("https://open.spotify.com/")
}

/// What parsing a native-scheme URI yields: the scheme must be `spotify`,
/// the last 22 characters are the base-62 payload, the character before them
/// a colon, and everything between scheme and that colon names the item type.
pub open spec fn from_uri_spec(u: Seq<char>) -> Option<SpotifyId> {
    if !seq_starts_with(u, uri_prefix()) {
        None
    } else {
        let rest = u.skip(uri_prefix().len() as int);
        if rest.len() <= ID_B62_LEN {
            None
        } else {
            let ci = rest.len() - ID_B62_LEN - 1;
            if rest[ci] != ':' {
                None
            } else {
                let ids = rest.skip(ci + 1);
                if all_b62(ids) && b62_decode(ids) <= u128::MAX {
                    Some(
                        SpotifyId {
                            item_type: item_type_of(rest.take(ci)),
                            id: b62_decode(ids) as u128,
                        },
                    )
                } else {
                    None
                }
            }
        }
    }
}

fn from_uri_chars(u: &Vec<char>) -> (r: Option<SpotifyId>)
    ensures
        r == from_uri_spec(u@),
{
    let pre = uri_prefix_vec();
    if !starts_with(u, &pre) {
        return None;
    }
    let ghost rest = u@.skip(8);
    if u.len() <= 8 + ID_B62_LEN {
        return None;
    }
    let ci: usize = u.len() - ID_B62_LEN - 1;
    proof {
        assert(rest[ci - 8] == u@[ci as int]);
        assert(rest.len() - ID_B62_LEN - 1 == ci - 8);
    }
    if u[ci] != ':' {
        return None;
    }
    let ids = sub_chars(u, ci + 1, u.len());
    proof {
        assert(ids@ =~= rest.skip(ci - 8 + 1));
    }
    let id = match b62_decode_exec(&ids) {
        Some(id) => id,
        None => {
            return None;
        },
    };
    let type_seg = sub_chars(u, 8, ci);
    proof {
        assert(type_seg@ =~= rest.take(ci - 8));
    }
    let item_type = item_type_of_exec(&type_seg);
    Some(SpotifyId { item_type, id })
}

/// What the canonical-ID resolver recognizes: a web URL whose first path
/// segment names the item type and whose second, up to any query string, is
/// the payload; or a native-scheme URI taken as it stands.
pub open spec fn parse_spotify_id_spec(q: Seq<char>) -> Option<SpotifyId> {
    if seq_starts_with(q, url_prefix()) {
        let rem = q.skip(url_prefix().len() as int);
        match find_idx(rem, '/') {
            Some(k) => {
                let t = rem.take(k);
                let after = rem.skip(k + 1);
                let ids = match find_idx(after, '?') {
                    Some(p) => after.take(p),
                    None => after,
                };
                from_uri_spec(uri_prefix() + t + seq![':'] + ids)
            },
            None => None,
        }
    } else {
        from_uri_spec(q)
    }
}

/// Parses a canonical URI or URL into a structured identifier, if possible.
pub fn parse_spotify_id(src: &str) -> (r: Option<SpotifyId>)
    ensures
        r == parse_spotify_id_spec(src@),
{
    let q = chars_of(src);
    parse_spotify_id_chars(&q)
}

pub fn parse_spotify_id_chars(q: &Vec<char>) -> (r: Option<SpotifyId>)
    ensures
        r == parse_spotify_id_spec(q@),
{
    let urlp = url_prefix_vec();
    if starts_with(q, &urlp) {
        let rem = sub_chars(q, 25, q.len());
        proof {
            assert(rem@ =~= q@.skip(25));
        }
        let k = match find_char(&rem, '/') {
            Some(k) => k,
            None => {
                return None;
            },
        };
        let t = sub_chars(&rem, 0, k);
        proof {
            assert(t@ =~= rem@.take(k as int));
        }
        let after = sub_chars(&rem, k + 1, rem.len());
        proof {
            assert(after@ =~= rem@.skip(k + 1));
        }
        let ids = match find_char(&after, '?') {
            Some(p) => sub_chars(&after, 0, p),
            None => after,
        };
        let mut uri = uri_prefix_vec();
        let mut t2 = t;
        uri.append(&mut t2);
        uri.push(':');
        let mut ids2 = ids;
        uri.append(&mut ids2);
        proof {
            assert(uri@ =~= uri_prefix() + rem@.take(k as int) + seq![':'] + (match find_idx(
                rem@.skip(k + 1),
                '?',
            ) {
                Some(p) => rem@.skip(k + 1).take(p),
                None => rem@.skip(k + 1),
            }));
        }
        from_uri_chars(&uri)
    } else {
        from_uri_chars(q)
    }
}

/// The native-scheme form of an identifier.
pub open spec fn to_uri_spec(id: SpotifyId) -> Seq<char> {
    uri_prefix() + item_type_seq(id.item_type) + seq![':'] + encode22(id.id as nat)
}

/// The web-URL form of an identifier.
pub open spec fn to_url_spec(id: SpotifyId) -> Seq<char> {
    url_prefix() + item_type_seq(id.item_type) + seq!['/'] + encode22(id.id as nat)
}

fn item_type_vec(t: ItemType) -> (r: Vec<char>)
    ensures
        r@ == item_type_seq(t),
{
    proof {
        reveal_strlit("album");
        reveal_strlit("artist");
        reveal_strlit("episode");
        reveal_strlit("playlist");
        reveal_strlit("show");
        reveal_strlit("track");
        reveal_strlit("local");
        reveal_strlit("unknown");
        assert("album"@ =~= item_type_seq(ItemType::Album));
        assert("artist"@ =~= item_type_seq(ItemType::Artist));
        assert("episode"@ =~= item_type_seq(ItemType::Episode));
        assert("playlist"@ =~= item_type_seq(ItemType::Playlist));
        assert("show"@ =~= item_type_seq(ItemType::Show));
        assert("track"@ =~= item_type_seq(ItemType::Track));
        assert("local"@ =~= item_type_seq(ItemType::Local));
        assert("unknown"@ =~= item_type_seq(ItemType::Unknown));
    }
    match t {
        ItemType::Album => chars_of("album"),
        ItemType::Artist => chars_of("artist"),
        ItemType::Episode => chars_of("episode"),
        ItemType::Playlist => chars_of("playlist"),
        ItemType::Show => chars_of("show"),
        ItemType::Track => chars_of("track"),
        ItemType::Local => chars_of("local"),
        ItemType::Unknown => chars_of("unknown"),
    }
}

/// Prints the native-scheme URI form.
pub fn to_uri(id: &SpotifyId) -> (r: String)
    ensures
        r@ == to_uri_spec(*id),
{
    let mut v = uri_prefix_vec();
    let mut t = item_type_vec(id.item_type);
    v.append(&mut t);
    v.push(':');
    let mut e = encode22_exec(id.id);
    v.append(&mut e);
    proof {
        assert(v@ =~= to_uri_spec(*id));
    }
    string_of(&v)
}

/// Prints the web-URL form, as shown for a track's source page.
pub fn to_url(id: &SpotifyId) -> (r: String)
    ensures
        r@ == to_url_spec(*id),
{
    let mut v = url_prefix_vec();
    let mut t = item_type_vec(id.item_type);
    v.append(&mut t);
    v.push('/');
    let mut e = encode22_exec(id.id);
    v.append(&mut e);
    proof {
        assert(v@ =~= to_url_spec(*id));
    }
    string_of(&v)
}

// ---------------------------------------------------------------------------
// Resolving with the supported kinds only
// ---------------------------------------------------------------------------
/// Why a query that looked like a canonical identifier was rejected.
#[derive(Clone, Copy, Debug, PartialEq, Eq, Structural)]
pub enum ResolveError {
    /// The query matched a canonical form but its identifier does not parse.
    InvalidId,
    /// The identifier parsed, but only tracks, albums and playlists play.
    UnsupportedItemType,
}

/// Only these kinds expand to playable tracks.
pub open spec fn is_supported_kind(t: ItemType) -> bool {
    t == ItemType::Track || t == ItemType::Album || t == ItemType::Playlist
}

pub open spec fn filter_supported(p: Option<SpotifyId>) -> Result<SpotifyId, ResolveError> {
    match p {
        Some(id) => if is_supported_kind(id.item_type) {
            Ok(id)
        } else {
            Err(ResolveError::UnsupportedItemType)
        },
        None => Err(ResolveError::InvalidId),
    }
}

/// What resolving a query against the canonical forms yields: `None` when the
/// query is not in a canonical form at all; otherwise the identifier, or the
/// error saying why it was rejected. Unlike `parse_spotify_id_spec`, a URL's
/// query string is kept, as the stricter resolver leaves it in the payload.
pub open spec fn resolve_spec(q: Seq<char>) -> Option<Result<SpotifyId, ResolveError>> {
    if seq_starts_with(q, uri_prefix()) {
        Some(filter_supported(from_uri_spec(q)))
    } else if seq_starts_with(q, url_prefix()) {
        let rem = q.skip(url_prefix().len() as int);
        match find_idx(rem, '/') {
            Some(k) => Some(
                filter_supported(
                    from_uri_spec(uri_prefix() + rem.take(k) + seq![':'] + rem.skip(k + 1)),
                ),
            ),
            None => Some(Err(ResolveError::InvalidId)),
        }
    } else {
        None
    }
}

fn filter_supported_exec(p: Option<SpotifyId>) -> (r: Result<SpotifyId, ResolveError>)
    ensures
        r == filter_supported(p),
{
    match p {
        Some(id) => {
            match id.item_type {
                ItemType::Track => Ok(id),
                ItemType::Album => Ok(id),
                ItemType::Playlist => Ok(id),
                _ => Err(ResolveError::UnsupportedItemType),
            }
        },
        None => Err(ResolveError::InvalidId),
    }
}

/// Tries to read a query as a canonical identifier. `None` means the query is
/// not in a canonical form and other resolvers should be tried; an `Err`
/// means it is, but names nothing playable, and resolution should stop.
pub fn resolve(query: &str) -> (r: Option<Result<SpotifyId, ResolveError>>)
    ensures
        r == resolve_spec(query@),
{
    let q = chars_of(query);
    let urip = uri_prefix_vec();
    let urlp = url_prefix_vec();
    if starts_with(&q, &urip) {
        Some(filter_supported_exec(from_uri_chars(&q)))
    } else if starts_with(&q, &urlp) {
        let rem = sub_chars(&q, 25, q.len());
        proof {
            assert(rem@ =~= q@.skip(25));
        }
        let k = match find_char(&rem, '/') {
            Some(k) => k,
            None => {
                return Some(Err(ResolveError::InvalidId));
            },
        };
        let mut uri = uri_prefix_vec();
        let mut t = sub_chars(&rem, 0, k);
        proof {
            assert(t@ =~= rem@.take(k as int));
        }
        uri.append(&mut t);
        uri.push(':');
        let mut ids = sub_chars(&rem, k + 1, rem.len());
        proof {
            assert(ids@ =~= rem@.skip(k + 1));
        }
        uri.append(&mut ids);
        proof {
            assert(uri@ =~= uri_prefix() + rem@.take(k as int) + seq![':'] + rem@.skip(k + 1));
        }
        Some(filter_supported_exec(from_uri_chars(&uri)))
    } else {
        None
    }
}

/// Every identifier round-trips through its web-URL form: printing any parsed
/// identifier as a URL and parsing it again yields the same identifier.
pub proof fn lemma_parse_to_url_round_trip(id: SpotifyId)
    ensures
        parse_spotify_id_spec(to_url_spec(id)) == Some(id),
{
    let t = item_type_seq(id.item_type);
    let e = encode22(id.id as nat);
    let url = to_url_spec(id);
    lemma_encode22_decode(id.id);
    lemma_item_type_names(id.item_type);
    // The printed form starts with the URL prefix and splits back apart.
    assert(url.take(url_prefix().len() as int) =~= url_prefix());
    let rem = url.skip(url_prefix().len() as int);
    assert(rem =~= t + seq!['/'] + e);
    assert(rem[t.len() as int] == '/');
    assert(forall|j: int| 0 <= j < t.len() ==> rem[j] == t[j]);
    lemma_find_idx_some(rem, '/', t.len() as int);
    let after = rem.skip(t.len() as int + 1);
    assert(after =~= e);
    // No query string can appear inside a base-62 payload.
    assert(forall|j: int| 0 <= j < e.len() ==> e[j] != '?') by {
        assert(forall|j: int| 0 <= j < e.len() ==> is_b62(#[trigger] e[j]));
    }
    lemma_find_idx_none(after, '?');
    let uri = uri_prefix() + rem.take(t.len() as int) + seq![':'] + after;
    assert(rem.take(t.len() as int) =~= t);
    // And the rebuilt URI parses to the same identifier.
    assert(uri.take(uri_prefix().len() as int) =~= uri_prefix());
    let rest = uri.skip(uri_prefix().len() as int);
    assert(rest =~= t + seq![':'] + e);
    assert(rest.len() == t.len() + 1 + ID_B62_LEN);
    let ci = rest.len() - ID_B62_LEN - 1;
    assert(rest[ci] == ':');
    assert(rest.skip(ci + 1) =~= e);
    assert(rest.take(ci) =~= t);
    assert(from_uri_spec(uri) == Some(id));
}

} // verus!
