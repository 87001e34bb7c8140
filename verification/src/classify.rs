//! Classification of file extensions into destination categories.
//!
//! An extension is matched case-insensitively against a fixed table:
//! `jpg`, `jpeg`, `png` are photos; `mov`, `mp4`, `avi`, `mkv`, `mpg`
//! are videos. Anything else is unrecognized.

use vstd::prelude::*;

verus! {

use vstd::string::StrSliceExecFns;

/// The destination category of a recognized file extension.
#[derive(Clone, Copy, Debug, PartialEq, Eq, Structural)]
pub enum Category {
    Photos,
    Videos,
}

/// ASCII lower-casing of one character; every character outside `A`..`Z`
/// is left as it is.
pub open spec fn lower_char(c: char) -> char {
    if 'A' <= c && c <= 'Z' {
        ((c as u32) + 32) as char
    } else {
        c
    }
}

/// ASCII lower-casing of a whole character sequence.
pub open spec fn lower_seq(s: Seq<char>) -> Seq<char> {
    s.map_values(|c: char| lower_char(c))
}

/// An extension that names a photo, in any letter case.
pub open spec fn is_photo_extension(e: Seq<char>) -> bool {
    ||| lower_seq(e) == "jpg"@
    ||| lower_seq(e) == "jpeg"@
    ||| lower_seq(e) == "png"@
}

/// An extension that names a video, in any letter case.
pub open spec fn is_video_extension(e: Seq<char>) -> bool {
    ||| lower_seq(e) == "mov"@
    ||| lower_seq(e) == "mp4"@
    ||| lower_seq(e) == "avi"@
    ||| lower_seq(e) == "mkv"@
    ||| lower_seq(e) == "mpg"@
}

/// The destination category of an extension, or `None` when it is
/// unrecognized.
pub open spec fn spec_classify(e: Seq<char>) -> Option<Category> {
    if is_photo_extension(e) {
        Some(Category::Photos)
    } else if is_video_extension(e) {
        Some(Category::Videos)
    } else {
        None
    }
}

/// Classification reads nothing of an extension but its lower-cased
/// characters: two extensions that agree after lower-casing are
/// classified alike, whatever letter case each was written in.
pub proof fn lemma_classify_case_insensitive(e1: Seq<char>, e2: Seq<char>)
    requires
        lower_seq(e1) == lower_seq(e2),
    ensures
        spec_classify(e1) == spec_classify(e2),
{
}

fn to_lower_char(c: char) -> (r: char)
    ensures
        r == lower_char(c),
{
    match c {
        'A' => 'a',
        'B' => 'b',
        'C' => 'c',
        'D' => 'd',
        'E' => 'e',
        'F' => 'f',
        'G' => 'g',
        'H' => 'h',
        'I' => 'i',
        'J' => 'j',
        'K' => 'k',
        'L' => 'l',
        'M' => 'm',
        'N' => 'n',
        'O' => 'o',
        'P' => 'p',
        'Q' => 'q',
        'R' => 'r',
        'S' => 's',
        'T' => 't',
        'U' => 'u',
        'V' => 'v',
        'W' => 'w',
        'X' => 'x',
        'Y' => 'y',
        'Z' => 'z',
        _ => c,
    }
}

/// Whether `s`, lower-cased character by character, reads exactly as the
/// (already lower-case) literal `pattern`.
fn matches_lower(s: &str, pattern: &str) -> (b: bool)
    ensures
        b == (lower_seq(s@) == pattern@),
{
    let n = s.unicode_len();
    if n != pattern.unicode_len() {
        proof {
            assert(lower_seq(s@).len() == s@.len());
        }
        return false;
    }
    for i in 0..n
        invariant
            n == s@.len(),
            n == pattern@.len(),
            forall|j: int| 0 <= j < i ==> lower_char(s@[j]) == pattern@[j],
    {
        let c = to_lower_char(s.get_char(i));
        if c != pattern.get_char(i) {
            proof {
                assert(lower_seq(s@)[i as int] == lower_char(s@[i as int]));
            }
            return false;
        }
    }
    proof {
        assert(lower_seq(s@) =~= pattern@);
    }
    true
}

/// Maps a file extension to its destination category, matching
/// case-insensitively against the fixed table; an extension in neither
/// list is unrecognized and yields `None`.
pub fn classify(extension: &str) -> (r: Option<Category>)
    ensures
        r == spec_classify(extension@),
{
    if matches_lower(extension, "jpg") {
        Some(Category::Photos)
    } else if matches_lower(extension, "jpeg") {
        Some(Category::Photos)
    } else if matches_lower(extension, "png") {
        Some(Category::Photos)
    } else if matches_lower(extension, "mov") {
        Some(Category::Videos)
    } else if matches_lower(extension, "mp4") {
        Some(Category::Videos)
    } else if matches_lower(extension, "avi") {
        Some(Category::Videos)
    } else if matches_lower(extension, "mkv") {
        Some(Category::Videos)
    } else if matches_lower(extension, "mpg") {
        Some(Category::Videos)
    } else {
        None
    }
}

} // verus!
