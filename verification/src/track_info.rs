//! Track metadata and its user-facing rendering: a Markdown link
//! `[title](source_url)` followed by a `minutes:seconds` duration when one is
//! known.
use vstd::prelude::*;

verus! {

use crate::strings::chars_of;
use crate::strings::dec_seq;
use crate::strings::digit_char;
use crate::strings::fmt_u64;
use crate::strings::push_char;
use crate::strings::string_of;

/// Immutable description of a playable track. A missing duration means an
/// infinite or live stream; a stored duration is never zero.
#[derive(Clone, Debug, PartialEq, Eq)]
pub struct Metadata {
    /// Track title.
    pub title: String,
    /// Source URL of the track, usually the track's page on its platform.
    pub source_url: String,
    /// Thumbnail URL, if one is known.
    pub thumbnail_url: Option<String>,
    /// Track duration in seconds; `None` for infinite or live streams.
    pub duration_sec: Option<u32>,
}

impl Metadata {
    /// A stored duration is never the zero seconds that stands for "absent".
    pub open spec fn wf(&self) -> bool {
        self.duration_sec != Some(0u32)
    }
}

/// `minutes:seconds` with the seconds zero-padded to two digits.
pub open spec fn duration_seq(d: u32) -> Seq<char> {
    let mins = (d / 60) as nat;
    let secs = (d % 60) as nat;
    dec_seq(mins) + seq![':'] + (if secs < 10 {
        seq!['0', digit_char(secs)]
    } else {
        dec_seq(secs)
    })
}

/// The Markdown rendering of a track: `[title](source_url)`, then a space and
/// the duration when one is known.
pub open spec fn markdown_seq(m: Metadata) -> Seq<char> {
    let base = seq!['['] + m.title@ + seq![']', '('] + m.source_url@ + seq![')'];
    match m.duration_sec {
        Some(d) => base + seq![' '] + duration_seq(d),
        None => base,
    }
}

impl Metadata {
    /// Renders the Markdown link with the optional duration.
    pub fn to_markdown(&self) -> (r: String)
        ensures
            r@ == markdown_seq(*self),
    {
        let mut v: Vec<char> = Vec::new();
        v.push('[');
        let mut t = chars_of(self.title.as_str());
        v.append(&mut t);
        v.push(']');
        v.push('(');
        let mut u = chars_of(self.source_url.as_str());
        v.append(&mut u);
        v.push(')');
        match self.duration_sec {
            Some(d) => {
                v.push(' ');
                let mins: u32 = d / 60;
                let secs: u32 = d % 60;
                let mut mc = chars_of(fmt_u64(mins as u64).as_str());
                v.append(&mut mc);
                v.push(':');
                if secs < 10 {
                    v.push('0');
                    v.push(crate::strings::digit_char_exec(secs as u64));
                } else {
                    let mut sc = chars_of(fmt_u64(secs as u64).as_str());
                    v.append(&mut sc);
                }
                proof {
                    assert(v@ =~= markdown_seq(*self));
                }
            },
            None => {
                proof {
                    assert(v@ =~= markdown_seq(*self));
                }
            },
        }
        string_of(&v)
    }
}

/// A queued track: its metadata and who asked for it.
#[derive(Clone, Debug, PartialEq, Eq)]
pub struct TrackInfo {
    /// Track metadata.
    pub metadata: Metadata,
    /// Who requested the track.
    pub added_by: String,
}

impl TrackInfo {
    pub fn new(metadata: Metadata, added_by: String) -> (r: TrackInfo)
        ensures
            r.metadata == metadata,
            r.added_by == added_by,
    {
        TrackInfo { metadata, added_by }
    }

    /// A queue entry renders as its track's Markdown link.
    pub fn to_markdown(&self) -> (r: String)
        ensures
            r@ == markdown_seq(self.metadata),
    {
        self.metadata.to_markdown()
    }

    /// The footer naming who added the track.
    pub fn added_by_line(&self) -> (r: String)
        ensures
            r@ == "Added by "@ + self.added_by@,
    {
        let mut v = chars_of("Added by ");
        let mut a = chars_of(self.added_by.as_str());
        v.append(&mut a);
        string_of(&v)
    }
}

} // verus!
