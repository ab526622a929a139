//! Audio source resolution and streaming bridge for a voice-channel music
//! player: a chain of query resolvers that turn free text or URLs into
//! playable track descriptors, a framed byte channel bridging a push-driven
//! decode session to a pull-driven transport consumer, and the query and
//! metadata caches that amortize slow external lookups.
//!
//! Network calls, the subprocess around the external downloader, and the
//! remote decode session itself live outside this crate; every function here
//! works on plain values and carries a proved contract.
use vstd::prelude::*;

pub mod bridge;
pub mod chain;
pub mod events;
pub mod resampler;
pub mod spotify;
pub mod radiot;
pub mod registry;
pub mod storage;
pub mod yt_dlp;
pub mod spotify_id;
pub mod strings;
pub mod track_info;

verus! {

/// A positive duration in seconds, or `None` when the value is zero.
/// Live streams carry no duration, and a zero duration is treated as absent.
pub fn nonzero_u32(x: u32) -> (r: Option<u32>)
    ensures
        r == (if x == 0 {
            Option::<u32>::None
        } else {
            Option::Some(x)
        }),
{
    if x == 0 {
        None
    } else {
        Some(x)
    }
}

} // verus!
