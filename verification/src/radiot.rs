//! The live-stream/podcast resolver: recognizes a fixed set of aliases for
//! the live stream (Latin and Cyrillic script variants of one brand name) and
//! `<alias><episode-number>` forms, with or without a separating space, for
//! single episodes; turns what the listing API answers into a track
//! descriptor. The network probe and the API calls themselves happen at the
//! caller's edge; everything here is the recognition and construction logic.
use vstd::prelude::*;

verus! {

use crate::strings::all_dec_digits;
use crate::strings::chars_eq;
use crate::strings::chars_of;
use crate::strings::dec_seq;
use crate::strings::dec_val;
use crate::strings::digit_val;
use crate::strings::digit_char;
use crate::strings::ends_with;
use crate::strings::fmt_u64;
use crate::strings::is_dec_digit;
use crate::strings::is_space;
use crate::strings::parse_u16;
use crate::strings::parse_u16_spec;
use crate::strings::seq_ends_with;
use crate::strings::seq_starts_with;
use crate::strings::starts_with;
use crate::strings::string_of;
use crate::strings::strip_plus;
use crate::strings::sub_chars;
use crate::strings::trim_chars;
use crate::strings::trim_spec;
use crate::strings::trim_start_spec;
use crate::strings::trim_end_spec;
use crate::track_info::Metadata;

/// What a query means to this resolver.
#[derive(Clone, Copy, Debug, PartialEq, Eq, Structural)]
pub enum RadioTQuery {
    /// One of the live-stream aliases.
    Live,
    /// A single numbered episode.
    Episode(u16),
    /// Not this resolver's format; the chain tries the next resolver.
    NotRecognized,
}

// ---------------------------------------------------------------------------
// The fixed literals, as concrete character sequences
// ---------------------------------------------------------------------------
/// `https://stream.radio-t.com/`
pub open spec fn live_stream_url() -> Seq<char> {
    seq![
        'h',
        't',
        't',
        'p',
        's',
        ':',
        '/',
        '/',
        's',
        't',
        'r',
        'e',
        'a',
        'm',
        '.',
        'r',
        'a',
        'd',
        'i',
        'o',
        '-',
        't',
        '.',
        'c',
        'o',
        'm',
        '/',
    ]
}

/// `https://cdn.radio-t.com/rt_podcast`, the per-episode audio URL prefix.
pub open spec fn cdn_prefix() -> Seq<char> {
    seq![
        'h',
        't',
        't',
        'p',
        's',
        ':',
        '/',
        '/',
        'c',
        'd',
        'n',
        '.',
        'r',
        'a',
        'd',
        'i',
        'o',
        '-',
        't',
        '.',
        'c',
        'o',
        'm',
        '/',
        'r',
        't',
        '_',
        'p',
        'o',
        'd',
        'c',
        'a',
        's',
        't',
    ]
}

/// `.mp3`
pub open spec fn mp3_suffix() -> Seq<char> {
    seq!['.', 'm', 'p', '3']
}

/// `rt`
pub open spec fn alias_rt() -> Seq<char> {
    seq!['r', 't']
}

/// The same alias in Cyrillic script.
pub open spec fn alias_rt_cyr() -> Seq<char> {
    seq!['р', 'т']
}

/// `radio-t`
pub open spec fn alias_radio_t() -> Seq<char> {
    seq!['r', 'a', 'd', 'i', 'o', '-', 't']
}

/// The same brand name in Cyrillic script.
pub open spec fn alias_radio_t_cyr() -> Seq<char> {
    seq!['р', 'а', 'д', 'и', 'о', '-', 'т']
}

/// `https://radio-t.com/site-api/podcast/`, the per-episode listing endpoint.
pub open spec fn api_prefix() -> Seq<char> {
    seq![
        'h',
        't',
        't',
        'p',
        's',
        ':',
        '/',
        '/',
        'r',
        'a',
        'd',
        'i',
        'o',
        '-',
        't',
        '.',
        'c',
        'o',
        'm',
        '/',
        's',
        'i',
        't',
        'e',
        '-',
        'a',
        'p',
        'i',
        '/',
        'p',
        'o',
        'd',
        'c',
        'a',
        's',
        't',
        '/',
    ]
}

// ---------------------------------------------------------------------------
// Recognition
// ---------------------------------------------------------------------------
/// The fixed set of aliases that mean "the live stream".
pub open spec fn live_alias(q: Seq<char>) -> bool {
    q == live_stream_url() || q == alias_rt() || q == alias_rt_cyr() || q == alias_radio_t() || q
        == alias_radio_t_cyr()
}

/// The substring that should hold an episode number, when the query is in one
/// of the episode forms: the full audio URL, or an alias followed by the
/// number (possibly with spacing, which parsing trims).
pub open spec fn episode_num_part(q: Seq<char>) -> Option<Seq<char>> {
    if seq_starts_with(q, cdn_prefix()) && seq_ends_with(q, mp3_suffix()) && q.len()
        >= cdn_prefix().len() + mp3_suffix().len() {
        Some(q.subrange(cdn_prefix().len() as int, q.len() - mp3_suffix().len()))
    } else if seq_starts_with(q, alias_rt()) {
        Some(q.skip(alias_rt().len() as int))
    } else if seq_starts_with(q, alias_rt_cyr()) {
        Some(q.skip(alias_rt_cyr().len() as int))
    } else if seq_starts_with(q, alias_radio_t()) {
        Some(q.skip(alias_radio_t().len() as int))
    } else if seq_starts_with(q, alias_radio_t_cyr()) {
        Some(q.skip(alias_radio_t_cyr().len() as int))
    } else {
        None
    }
}

/// What this resolver makes of a query: a live alias, an episode number that
/// parses (trimmed, fitting in sixteen bits), or not its format at all.
pub open spec fn classify_spec(q: Seq<char>) -> RadioTQuery {
    if live_alias(q) {
        RadioTQuery::Live
    } else {
        match episode_num_part(q) {
            Some(part) => match parse_u16_spec(trim_spec(part)) {
                Some(n) => RadioTQuery::Episode(n),
                None => RadioTQuery::NotRecognized,
            },
            None => RadioTQuery::NotRecognized,
        }
    }
}

fn live_stream_url_vec() -> (r: Vec<char>)
    ensures
        r@ == live_stream_url(),
{
    proof {
        reveal_strlit("https://stream.radio-t.com/");
        assert("https://stream.radio-t.com/"@ =~= live_stream_url());
    }
    chars_of("https://stream.radio-t.com/")
}

/// Sorts a query into live stream, numbered episode, or not recognized.
pub fn classify(query: &str) -> (r: RadioTQuery)
    ensures
        r == classify_spec(query@),
{
    let q = chars_of(query);
    proof {
        reveal_strlit("rt");
        reveal_strlit("рт");
        reveal_strlit("radio-t");
        reveal_strlit("радио-т");
        reveal_strlit("https://cdn.radio-t.com/rt_podcast");
        reveal_strlit(".mp3");
        assert("rt"@ =~= alias_rt());
        assert("рт"@ =~= alias_rt_cyr());
        assert("radio-t"@ =~= alias_radio_t());
        assert("радио-т"@ =~= alias_radio_t_cyr());
        assert("https://cdn.radio-t.com/rt_podcast"@ =~= cdn_prefix());
        assert(".mp3"@ =~= mp3_suffix());
    }
    let rt = chars_of("rt");
    let rt_cyr = chars_of("рт");
    let radio_t = chars_of("radio-t");
    let radio_t_cyr = chars_of("радио-т");
    let cdn = chars_of("https://cdn.radio-t.com/rt_podcast");
    let mp3 = chars_of(".mp3");
    let live = live_stream_url_vec();
    if chars_eq(&q, &live) || chars_eq(&q, &rt) || chars_eq(&q, &rt_cyr) || chars_eq(&q, &radio_t)
        || chars_eq(&q, &radio_t_cyr) {
        return RadioTQuery::Live;
    }
    let part: Option<Vec<char>> = if starts_with(&q, &cdn) && ends_with(&q, &mp3) && q.len() >= 38 {
        let p = sub_chars(&q, 34, q.len() - 4);
        Some(p)
    } else if starts_with(&q, &rt) {
        let p = sub_chars(&q, 2, q.len());
        proof {
            assert(p@ =~= q@.skip(2));
        }
        Some(p)
    } else if starts_with(&q, &rt_cyr) {
        let p = sub_chars(&q, 2, q.len());
        proof {
            assert(p@ =~= q@.skip(2));
        }
        Some(p)
    } else if starts_with(&q, &radio_t) {
        let p = sub_chars(&q, 7, q.len());
        proof {
            assert(p@ =~= q@.skip(7));
        }
        Some(p)
    } else if starts_with(&q, &radio_t_cyr) {
        let p = sub_chars(&q, 7, q.len());
        proof {
            assert(p@ =~= q@.skip(7));
        }
        Some(p)
    } else {
        None
    };
    match part {
        Some(part) => {
            let trimmed = trim_chars(&part);
            match parse_u16(&trimmed) {
                Some(n) => RadioTQuery::Episode(n),
                None => RadioTQuery::NotRecognized,
            }
        },
        None => RadioTQuery::NotRecognized,
    }
}

// ---------------------------------------------------------------------------
// Descriptors and request URLs
// ---------------------------------------------------------------------------
/// A live-stream or podcast track: a ready HTTP audio URL with its metadata
/// already resolved. Materializing it is a plain HTTP request at the edge.
#[derive(Clone, Debug, PartialEq, Eq)]
pub struct Podcast {
    /// Where the audio bytes are fetched from.
    pub audio_url: String,
    /// Title, page URL and thumbnail, as the listing answered.
    pub metadata: Metadata,
}

impl Podcast {
    /// Provides the track metadata.
    pub fn metadata(&self) -> (r: &Metadata)
        ensures
            r == self.metadata,
    {
        &self.metadata
    }
}

/// Builds the track descriptor from the fields a listing-API item carries:
/// title, page URL, image URL and audio URL. A podcast never reports a
/// duration.
pub fn podcast_from_api(title: String, url: String, image: String, audio_url: String) -> (r:
    Podcast)
    ensures
        r.audio_url == audio_url,
        r.metadata.title == title,
        r.metadata.source_url == url,
        r.metadata.thumbnail_url == Some(image),
        r.metadata.duration_sec is None,
        r.metadata.wf(),
{
    Podcast {
        audio_url,
        metadata: Metadata { title, source_url: url, thumbnail_url: Some(image), duration_sec: None },
    }
}

/// The fixed descriptor for the live stream, used whenever the liveness probe
/// says the stream is online: resolution of a live alias always has this
/// non-empty result to fall back on.
pub fn live_stream_podcast() -> (r: Podcast)
    ensures
        r.audio_url@ == live_stream_url(),
        r.metadata.title@ == "Radio-T Online"@,
        r.metadata.source_url@ == "https://radio-t.com/"@,
        r.metadata.thumbnail_url matches Some(t) && t@
            == "https://radio-t.com/build/images/logo-icon.svg"@,
        r.metadata.duration_sec is None,
        r.metadata.wf(),
{
    let live = live_stream_url_vec();
    podcast_from_api(
        String::from_str("Radio-T Online"),
        String::from_str("https://radio-t.com/"),
        String::from_str("https://radio-t.com/build/images/logo-icon.svg"),
        string_of(&live),
    )
}

/// The liveness probe's decision: the stream is online exactly when the
/// probed response ended on the `/online` path.
pub fn response_indicates_online(path: &str) -> (r: bool)
    ensures
        r == seq_ends_with(path@, "/online"@),
{
    let p = chars_of(path);
    let suffix = chars_of("/online");
    ends_with(&p, &suffix)
}

/// The listing-API URL asking for episode `n`.
pub fn episode_api_url(n: u16) -> (r: String)
    ensures
        r@ == api_prefix() + dec_seq(n as nat),
{
    proof {
        reveal_strlit("https://radio-t.com/site-api/podcast/");
        assert("https://radio-t.com/site-api/podcast/"@ =~= api_prefix());
    }
    let mut v = chars_of("https://radio-t.com/site-api/podcast/");
    let mut d = chars_of(fmt_u64(n as u64).as_str());
    v.append(&mut d);
    string_of(&v)
}

/// The canonical audio URL of episode `n`: the per-episode filename under the
/// content host.
pub fn episode_audio_url(n: u16) -> (r: String)
    ensures
        r@ == cdn_prefix() + dec_seq(n as nat) + mp3_suffix(),
        seq_ends_with(r@, mp3_suffix()),
{
    proof {
        reveal_strlit("https://cdn.radio-t.com/rt_podcast");
        reveal_strlit(".mp3");
        assert("https://cdn.radio-t.com/rt_podcast"@ =~= cdn_prefix());
        assert(".mp3"@ =~= mp3_suffix());
    }
    let mut v = chars_of("https://cdn.radio-t.com/rt_podcast");
    let mut d = chars_of(fmt_u64(n as u64).as_str());
    v.append(&mut d);
    let mut s = chars_of(".mp3");
    v.append(&mut s);
    proof {
        assert(v@.skip(v@.len() - 4) =~= mp3_suffix());
    }
    string_of(&v)
}

// ---------------------------------------------------------------------------
// What recognition guarantees
// ---------------------------------------------------------------------------
/// Every live-stream alias is recognized as the live stream.
pub proof fn lemma_live_aliases_recognized()
    ensures
        classify_spec(live_stream_url()) == RadioTQuery::Live,
        classify_spec(alias_rt()) == RadioTQuery::Live,
        classify_spec(alias_rt_cyr()) == RadioTQuery::Live,
        classify_spec(alias_radio_t()) == RadioTQuery::Live,
        classify_spec(alias_radio_t_cyr()) == RadioTQuery::Live,
{
}

proof fn lemma_dec_seq_digits(n: nat)
    ensures
        dec_seq(n).len() >= 1,
        all_dec_digits(dec_seq(n)),
        dec_val(dec_seq(n)) == n,
    decreases n,
{
    if n < 10 {
        assert(dec_seq(n) =~= seq![digit_char(n)]);
        assert(is_dec_digit(digit_char(n)) && digit_val(digit_char(n)) == n);
        assert(dec_seq(n).drop_last() =~= Seq::<char>::empty());
        assert(dec_seq(n).last() == digit_char(n));
        assert(dec_val(Seq::<char>::empty()) == 0);
        assert(dec_val(dec_seq(n)) == 0 * 10 + digit_val(digit_char(n)));
    } else {
        lemma_dec_seq_digits(n / 10);
        let s = dec_seq(n);
        assert(s =~= dec_seq(n / 10).push(digit_char(n % 10)));
        assert forall|i: int| 0 <= i < s.len() implies is_dec_digit(#[trigger] s[i]) by {
            if i < s.len() - 1 {
                assert(s[i] == dec_seq(n / 10)[i]);
            } else {
                assert(s[i] == digit_char(n % 10));
                assert(is_dec_digit(digit_char(n % 10)) && digit_val(digit_char(n % 10)) == n % 10);
            }
        }
        assert(s.drop_last() =~= dec_seq(n / 10));
        assert(digit_val(digit_char(n % 10)) == n % 10);
        assert(dec_val(s) == (n / 10) * 10 + n % 10);
        assert((n / 10) * 10 + n % 10 == n) by (nonlinear_arith);
    }
}

pub open spec fn pow10(k: nat) -> nat
    decreases k,
{
    if k == 0 {
        1
    } else {
        10 * pow10((k - 1) as nat)
    }
}

proof fn lemma_dec_seq_len(n: nat, k: nat)
    requires
        1 <= k,
        n < pow10(k),
    ensures
        dec_seq(n).len() <= k,
    decreases k,
{
    if n < 10 {
    } else {
        assert(pow10(k) == 10 * pow10((k - 1) as nat));
        assert(n / 10 < pow10((k - 1) as nat)) by (nonlinear_arith)
            requires
                n < 10 * pow10((k - 1) as nat),
        ;
        assert(k >= 2) by {
            if k == 1 {
                assert(pow10(1nat) == 10);
            }
        }
        lemma_dec_seq_len(n / 10, (k - 1) as nat);
    }
}

/// The decimal form of a sixteen-bit episode number has at most five digits.
proof fn lemma_dec_seq_len_u16(n: u16)
    ensures
        1 <= dec_seq(n as nat).len() <= 5,
{
    lemma_dec_seq_digits(n as nat);
    assert(pow10(5) == 100000) by {
        reveal_with_fuel(pow10, 6);
    }
    lemma_dec_seq_len(n as nat, 5);
}

/// Trimming and parsing give back the number: digits alone, or digits after
/// one space, parse to the value they spell.
proof fn lemma_digits_parse(n: u16, part: Seq<char>)
    requires
        part == dec_seq(n as nat) || part == seq![' '] + dec_seq(n as nat),
    ensures
        parse_u16_spec(trim_spec(part)) == Some(n),
{
    let d = dec_seq(n as nat);
    lemma_dec_seq_digits(n as nat);
    // Digits are neither whitespace nor a sign, so trimming leaves them.
    assert(is_dec_digit(d[0]) && is_dec_digit(d.last()));
    assert(!is_space(d[0]) && !is_space(d.last()));
    assert(trim_start_spec(d) == d);
    assert(trim_end_spec(d) == d);
    if part == seq![' '] + d {
        assert(part[0] == ' ');
        assert(part.skip(1) =~= d);
        assert(trim_start_spec(part) == trim_start_spec(d));
    }
    assert(trim_spec(part) == d);
    assert(strip_plus(d) == d) by {
        assert(d[0] != '+');
    }
    assert(dec_val(d) <= u16::MAX);
    assert(parse_u16_spec(d) == Some(dec_val(d) as u16));
}

/// Every `<alias><N>` episode form is recognized as episode `N`: the full
/// per-episode audio URL round-trips, and each alias, in either script, with
/// or without a separating space, followed by the episode number, resolves to
/// that episode.
pub proof fn lemma_episode_queries(n: u16)
    ensures
        classify_spec(cdn_prefix() + dec_seq(n as nat) + mp3_suffix()) == RadioTQuery::Episode(n),
        classify_spec(alias_rt() + dec_seq(n as nat)) == RadioTQuery::Episode(n),
        classify_spec(alias_rt() + seq![' '] + dec_seq(n as nat)) == RadioTQuery::Episode(n),
        classify_spec(alias_rt_cyr() + dec_seq(n as nat)) == RadioTQuery::Episode(n),
        classify_spec(alias_rt_cyr() + seq![' '] + dec_seq(n as nat)) == RadioTQuery::Episode(n),
        classify_spec(alias_radio_t() + seq![' '] + dec_seq(n as nat)) == RadioTQuery::Episode(n),
        classify_spec(alias_radio_t_cyr() + seq![' '] + dec_seq(n as nat)) == RadioTQuery::Episode(
            n,
        ),
{
    let d = dec_seq(n as nat);
    lemma_dec_seq_len_u16(n);
    lemma_dec_seq_digits(n as nat);
    // The full audio URL form.
    let qcdn = cdn_prefix() + d + mp3_suffix();
    assert(qcdn.len() >= 39);
    assert(!live_alias(qcdn));
    assert(qcdn.take(34) =~= cdn_prefix());
    assert(qcdn.skip(qcdn.len() - 4) =~= mp3_suffix());
    assert(qcdn.subrange(34, qcdn.len() - 4) =~= d);
    lemma_digits_parse(n, d);
    assert(classify_spec(qcdn) == RadioTQuery::Episode(n));
    // `rt<N>` and `rt <N>`.
    lemma_rt_form(n, alias_rt() + d, d);
    assert(alias_rt() + seq![' '] + d =~= alias_rt() + (seq![' '] + d));
    lemma_rt_form(n, alias_rt() + (seq![' '] + d), seq![' '] + d);
    // The same in Cyrillic script.
    lemma_rt_cyr_form(n, alias_rt_cyr() + d, d);
    assert(alias_rt_cyr() + seq![' '] + d =~= alias_rt_cyr() + (seq![' '] + d));
    lemma_rt_cyr_form(n, alias_rt_cyr() + (seq![' '] + d), seq![' '] + d);
    // `radio-t <N>`, in either script.
    assert(alias_radio_t() + seq![' '] + d =~= alias_radio_t() + (seq![' '] + d));
    lemma_radio_t_form(n, alias_radio_t() + (seq![' '] + d), seq![' '] + d);
    assert(alias_radio_t_cyr() + seq![' '] + d =~= alias_radio_t_cyr() + (seq![' '] + d));
    lemma_radio_t_cyr_form(n, alias_radio_t_cyr() + (seq![' '] + d), seq![' '] + d);
}

proof fn lemma_not_live_short(q: Seq<char>)
    requires
        3 <= q.len() <= 13,
        q.len() == 7 ==> q[1] != 'a' && q[1] != 'а',
    ensures
        !live_alias(q),
{
    assert(q != live_stream_url()) by {
        assert(live_stream_url().len() == 27);
    }
    assert(q != alias_rt() && q != alias_rt_cyr()) by {
        assert(alias_rt().len() == 2 && alias_rt_cyr().len() == 2);
    }
    if q.len() == 7 {
        assert(alias_radio_t()[1] == 'a' && alias_radio_t_cyr()[1] == 'а');
    }
}

proof fn lemma_rt_form(n: u16, q: Seq<char>, part: Seq<char>)
    requires
        q == alias_rt() + part,
        part == dec_seq(n as nat) || part == seq![' '] + dec_seq(n as nat),
        1 <= part.len() <= 6,
    ensures
        classify_spec(q) == RadioTQuery::Episode(n),
{
    lemma_dec_seq_digits(n as nat);
    assert(q[0] == 'r' && q[1] == 't');
    lemma_not_live_short(q);
    assert(!seq_starts_with(q, cdn_prefix())) by {
        assert(cdn_prefix().len() == 34);
    }
    assert(q.take(2) =~= alias_rt());
    assert(q.skip(2) =~= part);
    lemma_digits_parse(n, part);
}

proof fn lemma_rt_cyr_form(n: u16, q: Seq<char>, part: Seq<char>)
    requires
        q == alias_rt_cyr() + part,
        part == dec_seq(n as nat) || part == seq![' '] + dec_seq(n as nat),
        1 <= part.len() <= 6,
    ensures
        classify_spec(q) == RadioTQuery::Episode(n),
{
    lemma_dec_seq_digits(n as nat);
    assert(q[0] == 'р' && q[1] == 'т');
    lemma_not_live_short(q);
    assert(!seq_starts_with(q, cdn_prefix())) by {
        assert(cdn_prefix().len() == 34);
    }
    assert(!seq_starts_with(q, alias_rt())) by {
        assert(q[0] != 'r');
    }
    assert(q.take(2) =~= alias_rt_cyr());
    assert(q.skip(2) =~= part);
    lemma_digits_parse(n, part);
}

proof fn lemma_radio_t_form(n: u16, q: Seq<char>, part: Seq<char>)
    requires
        q == alias_radio_t() + part,
        part == seq![' '] + dec_seq(n as nat),
        2 <= part.len() <= 6,
    ensures
        classify_spec(q) == RadioTQuery::Episode(n),
{
    lemma_dec_seq_digits(n as nat);
    assert(q[0] == 'r' && q[1] == 'a');
    lemma_not_live_short(q);
    assert(!seq_starts_with(q, cdn_prefix())) by {
        assert(cdn_prefix().len() == 34);
    }
    assert(!seq_starts_with(q, alias_rt())) by {
        assert(q.take(2)[1] == 'a');
        assert(alias_rt()[1] == 't');
    }
    assert(!seq_starts_with(q, alias_rt_cyr())) by {
        assert(q.take(2)[0] == 'r');
        assert(alias_rt_cyr()[0] == 'р');
    }
    assert(q.take(7) =~= alias_radio_t());
    assert(q.skip(7) =~= part);
    lemma_digits_parse(n, part);
}

proof fn lemma_radio_t_cyr_form(n: u16, q: Seq<char>, part: Seq<char>)
    requires
        q == alias_radio_t_cyr() + part,
        part == seq![' '] + dec_seq(n as nat),
        2 <= part.len() <= 6,
    ensures
        classify_spec(q) == RadioTQuery::Episode(n),
{
    lemma_dec_seq_digits(n as nat);
    assert(q[0] == 'р' && q[1] == 'а');
    lemma_not_live_short(q);
    assert(!seq_starts_with(q, cdn_prefix())) by {
        assert(cdn_prefix().len() == 34);
    }
    assert(!seq_starts_with(q, alias_rt())) by {
        assert(q.take(2)[0] == 'р');
        assert(alias_rt()[0] == 'r');
    }
    assert(!seq_starts_with(q, alias_rt_cyr())) by {
        assert(q.take(2)[1] == 'а');
        assert(alias_rt_cyr()[1] == 'т');
    }
    assert(!seq_starts_with(q, alias_radio_t())) by {
        assert(q.take(7)[0] == 'р');
        assert(alias_radio_t()[0] == 'r');
    }
    assert(q.take(7) =~= alias_radio_t_cyr());
    assert(q.skip(7) =~= part);
    lemma_digits_parse(n, part);
}

} // verus!
