//! The render activation's decisions: which recording to render and with
//! which border style.

use vstd::prelude::*;
use crate::activations::workspace::{join_path, path_join};
use crate::compositor::writer::BorderStyle;
use crate::recording::layout::{id_less, id_lt, lemma_id_lt_order};
use crate::text::eq_str;
use crate::text::chars_of;

verus! {

/// What `str::to_lowercase` gives for a string.
pub uninterp spec fn lowercase_of(s: Seq<char>) -> Seq<char>;

/// An ASCII character in lower case: `A` to `Z` become `a` to `z`, anything
/// else stays.
pub open spec fn ascii_lower(c: char) -> char {
    if 'A' <= c && c <= 'Z' {
        ((c as u32) + 32) as char
    } else {
        c
    }
}

/// `str::to_lowercase`: the string with each character mapped to its
/// lowercase form; on an ASCII string that is ASCII lower-casing, character
/// by character. Nothing more of the mapping is stated.
#[verifier::external_body]
fn lowercase(s: &str) -> (r: String)
    ensures
        r@ == lowercase_of(s@),
        (forall|i: int| 0 <= i < s@.len() ==> (#[trigger] s@[i] as u32) < 128) ==> r@ == s@.map_values(
            |c: char| ascii_lower(c),
        ),
{
    s.to_lowercase()
}

/// Render sub-activation (stateless, no backend required).
#[derive(Debug, Clone, Copy)]
pub struct RenderActivation;

impl RenderActivation {
    /// Create a new RenderActivation.
    pub fn new() -> (r: Self) {
        RenderActivation
    }

    /// Parse a border style name, ignoring case; unknown names give
    /// `Single`.
    pub fn parse_border_style(s: &str) -> (b: BorderStyle)
        ensures
            b == border_style_named(lowercase_of(s@)),
    {
        let lower = lowercase(s);
        border_style_for(lower.as_str())
    }
}

impl Default for RenderActivation {
    fn default() -> (r: Self) {
        RenderActivation::new()
    }
}

/// The style a lower-case name selects: `double`, `heavy`, `none`, and
/// `Single` for anything else.
pub open spec fn border_style_named(lower: Seq<char>) -> BorderStyle {
    if lower == "double"@ {
        BorderStyle::Double
    } else if lower == "heavy"@ {
        BorderStyle::Heavy
    } else if lower == "none"@ {
        BorderStyle::Borderless
    } else {
        BorderStyle::Single
    }
}

/// The style a lower-case name selects.
pub fn border_style_for(lower: &str) -> (b: BorderStyle)
    ensures
        b == border_style_named(lower@),
{
    let v = chars_of(lower);
    if eq_str(&v, "double") {
        BorderStyle::Double
    } else if eq_str(&v, "heavy") {
        BorderStyle::Heavy
    } else if eq_str(&v, "none") {
        BorderStyle::Borderless
    } else {
        BorderStyle::Single
    }
}

/// Where a recording is to be found.
#[derive(Debug, Clone)]
pub enum RecordingDir {
    /// At this path.
    At(String),
    /// The most recent recording in the default directory.
    MostRecent,
}

/// Where the recordings of a home directory are kept.
pub open spec fn recordings_root(home: Seq<char>) -> Seq<char> {
    path_join(home, ".local/share/locus/recordings"@)
}

/// The directory given, else the stored recording with the id given, else
/// the most recent recording.
pub fn resolve_recording_dir(recording_dir: Option<String>, recording_id: Option<String>, home: &str) -> (r: RecordingDir)
    ensures
        match recording_dir {
            Some(d) => r matches RecordingDir::At(p) && p@ == d@,
            None => match recording_id {
                Some(id) => r matches RecordingDir::At(p) && p@ == path_join(recordings_root(home@), id@),
                None => r matches RecordingDir::MostRecent,
            },
        },
{
    match recording_dir {
        Some(d) => RecordingDir::At(d),
        None => match recording_id {
            Some(id) => {
                let root = join_path(home, ".local/share/locus/recordings");
                RecordingDir::At(join_path(root.as_str(), id.as_str()))
            },
            None => RecordingDir::MostRecent,
        },
    }
}

/// The most recent of the recordings named `names` (ids are timestamps,
/// so the greatest name), the first such when names repeat.
pub fn most_recent(names: &Vec<String>) -> (r: Option<usize>)
    ensures
        names@.len() == 0 <==> r.is_none(),
        match r {
            Some(i) => i < names@.len() && (forall|j: int| 0 <= j < names@.len() ==> !id_lt(names@[i as int]@, #[trigger] names@[j]@))
                && (forall|j: int| 0 <= j < i ==> id_lt(#[trigger] names@[j]@, names@[i as int]@)),
            None => true,
        },
{
    if names.len() == 0 {
        return None;
    }
    let mut best: usize = 0;
    let mut k: usize = 1;
    proof {
        lemma_id_lt_order(names@[0]@, names@[0]@, names@[0]@);
    }
    while k < names.len()
        invariant
            1 <= k <= names@.len(),
            best < k,
            forall|j: int| 0 <= j < k ==> !id_lt(names@[best as int]@, #[trigger] names@[j]@),
            forall|j: int| 0 <= j < best ==> id_lt(#[trigger] names@[j]@, names@[best as int]@),
        decreases names@.len() - k,
    {
        if id_less(&names[best], &names[k]) {
            proof {
                assert forall|j: int| 0 <= j < k implies id_lt(#[trigger] names@[j]@, names@[k as int]@) by {
                    lemma_id_lt_order(names@[j]@, names@[best as int]@, names@[k as int]@);
                }
                assert forall|j: int| 0 <= j < k + 1 implies !id_lt(names@[k as int]@, #[trigger] names@[j]@) by {
                    lemma_id_lt_order(names@[j]@, names@[best as int]@, names@[k as int]@);
                    lemma_id_lt_order(names@[j]@, names@[k as int]@, names@[k as int]@);
                }
            }
            best = k;
        }
        k = k + 1;
    }
    Some(best)
}

} // verus!
