//! The resolver chain: each resolver recognizes queries by their shape, and
//! the first one whose format matches handles the query. A recognized query
//! that resolves to nothing stops the chain with a user-facing "nothing
//! found" rather than falling through.
use vstd::prelude::*;

verus! {

use crate::radiot::classify_spec;
use crate::radiot::classify;
use crate::radiot::RadioTQuery;
use crate::spotify_id::parse_spotify_id_spec;
use crate::spotify_id::parse_spotify_id_chars;
use crate::spotify_id::SpotifyId;
use crate::strings::chars_of;
use crate::strings::string_of;

/// Which resolver a query belongs to, decided by its shape alone, without
/// any network round-trip.
#[derive(Clone, Copy, Debug, PartialEq, Eq, Structural)]
pub enum Route {
    /// The canonical-ID resolver recognized the query.
    CanonicalId(SpotifyId),
    /// The live-stream/podcast resolver recognized the query.
    LivePodcast(RadioTQuery),
    /// Nobody else recognized it: the generic downloader resolver takes it,
    /// treating anything that is not a URL as a search term.
    Downloader,
}

/// Where a query goes: to the canonical-ID resolver when it parses as a
/// canonical identifier; else to the live/podcast resolver when it is one of
/// its alias or episode forms; else to the generic downloader. A query lands
/// at the downloader exactly when both format matchers declined it.
pub open spec fn route_spec(q: Seq<char>) -> Route {
    match parse_spotify_id_spec(q) {
        Some(id) => Route::CanonicalId(id),
        None => if classify_spec(q) != RadioTQuery::NotRecognized {
            Route::LivePodcast(classify_spec(q))
        } else {
            Route::Downloader
        },
    }
}

/// Routes a query to the first resolver that recognizes its format.
pub fn route(query: &str) -> (r: Route)
    ensures
        r == route_spec(query@),
{
    let q = chars_of(query);
    match parse_spotify_id_chars(&q) {
        Some(id) => Route::CanonicalId(id),
        None => {
            match classify(query) {
                RadioTQuery::NotRecognized => Route::Downloader,
                other => Route::LivePodcast(other),
            }
        },
    }
}

/// A query reaches the generic downloader exactly when both format
/// matchers declined it: the canonical-ID parser returned nothing and the
/// live/podcast recognizer did not recognize it. With the downloader then
/// finding nothing, the chain reports "nothing found".
pub proof fn lemma_garbage_falls_through(q: Seq<char>)
    ensures
        route_spec(q) == Route::Downloader <==> (parse_spotify_id_spec(q) is None
            && classify_spec(q) == RadioTQuery::NotRecognized),
{
}

/// The user-facing reply when no resolver found anything playable.
pub fn nothing_found_reply(query: &str) -> (r: String)
    ensures
        r@ == "Found nothing for '"@ + query@ + "'. Please try something else"@,
{
    let mut v = chars_of("Found nothing for '");
    let mut qv = chars_of(query);
    v.append(&mut qv);
    let mut tail = chars_of("'. Please try something else");
    v.append(&mut tail);
    string_of(&v)
}

/// The user-facing reply when the canonical-ID resolver recognized the query
/// but it expanded to nothing playable; the chain stops rather than trying
/// further resolvers.
pub fn invalid_canonical_reply(query: &str) -> (r: String)
    ensures
        r@ == "Invalid Spotify query '"@ + query@ + "'. Please try something else"@,
{
    let mut v = chars_of("Invalid Spotify query '");
    let mut qv = chars_of(query);
    v.append(&mut qv);
    let mut tail = chars_of("'. Please try something else");
    v.append(&mut tail);
    string_of(&v)
}

} // verus!
