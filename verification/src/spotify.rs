//! The remote-service track descriptor: what the canonical-ID resolver
//! returns for each expanded track, and how the remote catalogue's plain
//! answers become track metadata. The session, its network calls and the
//! decode engine live outside; they hand this module plain values.
use vstd::prelude::*;

verus! {

use crate::spotify_id::SpotifyId;
use crate::spotify_id::to_url;
use crate::spotify_id::to_url_spec;
use crate::strings::chars_of;
use crate::strings::string_of;
use crate::track_info::Metadata;

/// A remote-service track: its canonical identifier and resolved metadata.
/// Materializing it means registering a fresh bridge channel and telling the
/// shared decode session to load the identifier, which the session layer
/// does at the edge.
#[derive(Clone, Debug, PartialEq, Eq)]
pub struct Track {
    /// Canonical identifier of the track.
    pub id: SpotifyId,
    /// Resolved metadata.
    pub metadata: Metadata,
}

impl Track {
    /// Provides the track metadata.
    pub fn metadata(&self) -> (r: &Metadata)
        ensures
            r == self.metadata,
    {
        &self.metadata
    }
}

/// One cover image the catalogue lists for an album.
#[derive(Clone, Debug, PartialEq, Eq)]
pub struct Cover {
    /// Whether the catalogue marks it as the default size.
    pub is_default_size: bool,
    /// The image identifier under the image host.
    pub file_id_hex: String,
}

/// The plain fields the remote catalogue reports for one track.
#[derive(Clone, Debug, PartialEq, Eq)]
pub struct TrackData {
    /// Track name.
    pub name: String,
    /// First listed artist, if any.
    pub artist: Option<String>,
    /// Duration in milliseconds, as the catalogue reports it.
    pub duration_ms: i32,
    /// Album cover images, in catalogue order.
    pub covers: Vec<Cover>,
}

/// The cover to show: the first one of default size, else the first listed.
pub open spec fn first_default(s: Seq<Cover>) -> Option<Cover>
    decreases s.len(),
{
    if s.len() == 0 {
        None
    } else if s[0].is_default_size {
        Some(s[0])
    } else {
        first_default(s.skip(1))
    }
}

pub open spec fn pick_cover(s: Seq<Cover>) -> Option<Cover> {
    match first_default(s) {
        Some(c) => Some(c),
        None => if s.len() > 0 {
            Some(s[0])
        } else {
            None
        },
    }
}

proof fn lemma_first_default_at(s: Seq<Cover>, i: int)
    requires
        0 <= i < s.len(),
        s[i].is_default_size,
        forall|j: int| 0 <= j < i ==> !(#[trigger] s[j]).is_default_size,
    ensures
        first_default(s) == Some(s[i]),
    decreases i,
{
    if i > 0 {
        assert(s.skip(1)[i - 1] == s[i]);
        assert(forall|j: int| 0 <= j < i - 1 ==> !(#[trigger] s.skip(1)[j]).is_default_size);
        lemma_first_default_at(s.skip(1), i - 1);
    }
}

proof fn lemma_first_default_none(s: Seq<Cover>)
    requires
        forall|j: int| 0 <= j < s.len() ==> !(#[trigger] s[j]).is_default_size,
    ensures
        first_default(s) is None,
    decreases s.len(),
{
    if s.len() > 0 {
        assert(forall|j: int|
            0 <= j < s.skip(1).len() ==> !(#[trigger] s.skip(1)[j]).is_default_size);
        lemma_first_default_none(s.skip(1));
    }
}

fn pick_cover_exec(covers: &Vec<Cover>) -> (r: Option<&Cover>)
    ensures
        match r {
            Some(c) => pick_cover(covers@) == Some(*c),
            None => pick_cover(covers@) is None,
        },
{
    let mut i: usize = 0;
    while i < covers.len()
        invariant
            i <= covers@.len(),
            forall|j: int| 0 <= j < i ==> !(#[trigger] covers@[j]).is_default_size,
        decreases covers@.len() - i,
    {
        if covers[i].is_default_size {
            proof {
                lemma_first_default_at(covers@, i as int);
            }
            return Some(&covers[i]);
        }
        i += 1;
    }
    proof {
        lemma_first_default_none(covers@);
    }
    if covers.len() > 0 {
        Some(&covers[0])
    } else {
        None
    }
}

/// The image host every cover identifier resolves under.
pub open spec fn image_host_prefix() -> Seq<char> {
    "https://i.scdn.co/image/"@
}

/// The displayed title: `artist - name`, with an absent artist shown empty.
pub open spec fn title_spec(artist: Option<Seq<char>>, name: Seq<char>) -> Seq<char> {
    (match artist {
        Some(a) => a,
        None => Seq::empty(),
    }) + " - "@ + name
}

/// Builds track metadata from the catalogue's plain answer: the title joins
/// artist and name, the source URL is the track's canonical web URL, the
/// thumbnail is the picked cover under the image host, and the duration is
/// the reported milliseconds in whole seconds, absent when zero.
pub fn extract_metadata(id: &SpotifyId, data: &TrackData) -> (r: Metadata)
    ensures
        r.title@ == title_spec(
            match data.artist {
                Some(a) => Some(a@),
                None => None,
            },
            data.name@,
        ),
        r.source_url@ == to_url_spec(*id),
        (match pick_cover(data.covers@) {
            Some(c) => r.thumbnail_url matches Some(t) && t@ == image_host_prefix()
                + c.file_id_hex@,
            None => r.thumbnail_url is None,
        }),
        r.duration_sec == (if (data.duration_ms as u32) / 1000 == 0 {
            Option::<u32>::None
        } else {
            Some((data.duration_ms as u32) / 1000)
        }),
        r.wf(),
{
    let mut title: Vec<char> = match &data.artist {
        Some(a) => chars_of(a.as_str()),
        None => Vec::new(),
    };
    let mut sep = chars_of(" - ");
    title.append(&mut sep);
    let mut name = chars_of(data.name.as_str());
    title.append(&mut name);
    let thumbnail_url: Option<String> = match pick_cover_exec(&data.covers) {
        Some(c) => {
            let mut t = chars_of("https://i.scdn.co/image/");
            let mut f = chars_of(c.file_id_hex.as_str());
            t.append(&mut f);
            Some(string_of(&t))
        },
        None => None,
    };
    #[verifier::truncate]
    let millis: u32 = data.duration_ms as u32;
    let duration_sec = crate::nonzero_u32(millis / 1000);
    Metadata { title: string_of(&title), source_url: to_url(id), thumbnail_url, duration_sec }
}

/// Which of a batch of per-track lookups resolved: the answers that exist,
/// in their original order.
pub open spec fn resolved_only(s: Seq<Option<Track>>) -> Seq<Track>
    decreases s.len(),
{
    if s.len() == 0 {
        Seq::empty()
    } else {
        resolved_only(s.drop_last()) + (match s.last() {
            Some(t) => seq![t],
            None => Seq::empty(),
        })
    }
}

/// Keeps the tracks whose member lookup succeeded, in order: a failed member
/// lookup is dropped, never fatal to the batch.
pub fn collect_tracks(items: Vec<Option<Track>>) -> (r: Vec<Track>)
    ensures
        r@ == resolved_only(items@),
{
    let mut r: Vec<Track> = Vec::new();
    let mut i: usize = 0;
    let mut items = items;
    proof {
        assert(items@.take(0) =~= Seq::<Option<Track>>::empty());
    }
    let n = items.len();
    let ghost s = items@;
    proof {
        assert(s.skip(0) =~= s);
    }
    while i < n
        invariant
            i <= n == s.len(),
            items@ == s.skip(i as int),
            r@ == resolved_only(s.take(i as int)),
        decreases n - i,
    {
        let item = items.remove(0);
        proof {
            assert(s.take(i + 1).drop_last() =~= s.take(i as int));
            assert(s.take(i + 1).last() == s[i as int]);
            assert(items@ =~= s.skip(i + 1));
        }
        match item {
            Some(t) => {
                r.push(t);
                proof {
                    assert(r@ =~= resolved_only(s.take(i + 1)));
                }
            },
            None => {
                proof {
                    assert(r@ =~= resolved_only(s.take(i + 1)));
                }
            },
        }
        i += 1;
    }
    proof {
        assert(s.take(i as int) =~= s);
    }
    r
}

} // verus!
