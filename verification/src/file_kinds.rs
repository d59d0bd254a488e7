//! Which files the sampler opens: instrument files by their extension, and audio
//! files by theirs.

use vstd::prelude::*;
use crate::text::{chars_of, chars_to_ascii_lower, chars_eq_str, lower_ascii_seq, str_eq};

verus! {

/// An instrument file format the sampler reads.
#[derive(Debug, Clone, Copy, PartialEq, Eq, Structural)]
pub enum InstrumentFormat {
    /// SFZ instrument definition.
    Sfz,
    /// SoundFont 2 instrument.
    Sf2,
    /// Plogue Aria / Garritan multi-slot preset.
    Ariax,
}

/// The format an extension names: `sfz`, `sf2` and `ariax`, each in all lower or all
/// upper case.
pub open spec fn extension_format(ext: Option<Seq<char>>) -> Option<InstrumentFormat> {
    match ext {
        Some(e) => if e == "sfz"@ || e == "SFZ"@ {
            Some(InstrumentFormat::Sfz)
        } else if e == "sf2"@ || e == "SF2"@ {
            Some(InstrumentFormat::Sf2)
        } else if e == "ariax"@ || e == "ARIAX"@ {
            Some(InstrumentFormat::Ariax)
        } else {
            None
        },
        None => None,
    }
}

/// The extensions of the audio files the sampler loads, compared in ASCII lower case.
pub open spec fn is_audio_extension_text(lower: Seq<char>) -> bool {
    lower == "wav"@ || lower == "wave"@ || lower == "aif"@ || lower == "aiff"@ || lower == "flac"@
        || lower == "ogg"@ || lower == "mp3"@ || lower == "m4a"@ || lower == "aac"@
}

/// An extension names a format in lower case or in upper case alike: `sfz` and `SFZ`
/// name SFZ, `sf2` and `SF2` name SF2, `ariax` and `ARIAX` name ARIAX; and an extension
/// that names a format is one of these six.
pub proof fn lemma_extension_cases(x: Seq<char>)
    ensures
        (x == "sfz"@ || x == "SFZ"@) ==> extension_format(Some(x)) == Some(InstrumentFormat::Sfz),
        (x == "sf2"@ || x == "SF2"@) ==> extension_format(Some(x)) == Some(InstrumentFormat::Sf2),
        (x == "ariax"@ || x == "ARIAX"@) ==> extension_format(Some(x)) == Some(InstrumentFormat::Ariax),
        extension_format(Some(x)) is Some ==> (x == "sfz"@ || x == "SFZ"@ || x == "sf2"@ || x == "SF2"@ || x
            == "ariax"@ || x == "ARIAX"@),
{
    reveal_strlit("sfz");
    reveal_strlit("SFZ");
    reveal_strlit("sf2");
    reveal_strlit("SF2");
    reveal_strlit("ariax");
    reveal_strlit("ARIAX");
    assert("sf2"@[2] != "sfz"@[2] && "sf2"@[2] != "SFZ"@[2]);
    assert("SF2"@[2] != "sfz"@[2] && "SF2"@[2] != "SFZ"@[2]);
    assert("ariax"@.len() != "sfz"@.len() && "ariax"@.len() != "SFZ"@.len());
    assert("ariax"@.len() != "sf2"@.len() && "ariax"@.len() != "SF2"@.len());
    assert("ARIAX"@.len() != "sfz"@.len() && "ARIAX"@.len() != "SFZ"@.len());
    assert("ARIAX"@.len() != "sf2"@.len() && "ARIAX"@.len() != "SF2"@.len());
}

/// The instrument format an extension names, as `extension_format` states.
pub fn format_for_extension(ext: Option<&str>) -> (r: Option<InstrumentFormat>)
    ensures
        r == extension_format(match ext {
            Some(e) => Some(e@),
            None => None,
        }),
{
    match ext {
        Some(e) => {
            if str_eq(e, "sfz") || str_eq(e, "SFZ") {
                Some(InstrumentFormat::Sfz)
            } else if str_eq(e, "sf2") || str_eq(e, "SF2") {
                Some(InstrumentFormat::Sf2)
            } else if str_eq(e, "ariax") || str_eq(e, "ARIAX") {
                Some(InstrumentFormat::Ariax)
            } else {
                None
            }
        },
        None => None,
    }
}

/// Whether an extension is one of an audio file the sampler loads, compared without
/// regard to ASCII case.
pub fn is_audio_extension(ext: Option<&str>) -> (r: bool)
    ensures
        r == (match ext {
            Some(e) => is_audio_extension_text(lower_ascii_seq(e@)),
            None => false,
        }),
{
    match ext {
        Some(e) => {
            let c = chars_of(e);
            let l = chars_to_ascii_lower(c.as_slice());
            let s = l.as_slice();
            chars_eq_str(s, "wav") || chars_eq_str(s, "wave") || chars_eq_str(s, "aif") || chars_eq_str(s, "aiff")
                || chars_eq_str(s, "flac") || chars_eq_str(s, "ogg") || chars_eq_str(s, "mp3")
                || chars_eq_str(s, "m4a") || chars_eq_str(s, "aac")
        },
        None => false,
    }
}

/// Whether `x` is the text after a `.` at `i` in the path `p`, holding no `.` and no
/// `/`, and followed in `p` only by `/`, `\` and `.` characters (the separators and
/// `.` components that may end a path after its file name).
pub open spec fn extension_at(p: Seq<char>, x: Seq<char>, i: int) -> bool {
    &&& 0 <= i
    &&& i + 1 + x.len() <= p.len()
    &&& p[i] == '.'
    &&& p.subrange(i + 1, i + 1 + x.len()) == x
    &&& forall|j: int| 0 <= j < x.len() ==> x[j] != '.' && x[j] != '/'
    &&& forall|j: int| i + 1 + x.len() <= j < p.len() ==> (#[trigger] p[j]) == '/' || p[j] == '\\' || p[j] == '.'
}

/// Whether `c` separates path components on some machine (`/` on all, `\` too on
/// some).
pub open spec fn is_separator(c: char) -> bool {
    c == '/' || c == '\\'
}

/// Where the file name of the path `p` ends: before the `/` characters that end `p`.
pub open spec fn name_end(p: Seq<char>) -> int
    decreases p.len(),
{
    if p.len() > 0 && p.last() == '/' {
        name_end(p.drop_last())
    } else {
        p.len() as int
    }
}

/// Whether a path may start with a drive prefix on some machines (a second character
/// `:`), so that its first two characters are no part of its file name there.
pub open spec fn may_have_drive(p: Seq<char>) -> bool {
    p.len() >= 2 && p[1] == ':'
}

/// Whether `i` is the last `.` of the file name that ends the path `p` (before any `/`
/// that ends `p`): no separator and no `.` follows it in the name, some character
/// other than `.` comes before it with no separator between and outside a possible
/// drive prefix, and `p` does not start with two separators (a network or device
/// prefix on some machines).
pub open spec fn file_name_dot(p: Seq<char>, i: int) -> bool {
    &&& 0 < i < name_end(p)
    &&& p[i] == '.'
    &&& forall|j: int| i < j < name_end(p) ==> (#[trigger] p[j]) != '.' && !is_separator(p[j])
    &&& exists|j: int|
        0 <= j < i && (#[trigger] p[j]) != '.' && (may_have_drive(p) ==> j >= 2) && forall|k: int|
            j <= k < i ==> !is_separator(#[trigger] p[k])
    &&& !(p.len() >= 2 && is_separator(p[0]) && is_separator(p[1]))
}

/// Whether the file name that ends the path `p` (after a `/` or at its start) starts
/// with the `.` at `i`, followed by at least one character, with no other `.` and no
/// separator after it: a hidden file such as `.sfz`, which has no extension.
pub open spec fn leading_dot_name(p: Seq<char>, i: int) -> bool {
    &&& 0 <= i < p.len() - 1
    &&& p[i] == '.'
    &&& (i == 0 || p[i - 1] == '/')
    &&& forall|j: int| i < j < p.len() ==> (#[trigger] p[j]) != '.' && !is_separator(p[j])
}

/// What holds, on every machine, of the extension std's `Path::extension` finds in the
/// path `p`: where it finds one, it is the text after some `.` as `extension_at`
/// states; a path without `.` has none, nor has a hidden file name such as `.sfz`; and
/// where the file name that ends the path has a `.` after a character other than `.`
/// (as `file_name_dot` states), the extension is the text after its last `.`, up to any
/// `/` that ends the path.
pub open spec fn is_path_extension(p: Seq<char>, e: Option<Seq<char>>) -> bool {
    &&& e matches Some(x) ==> exists|i: int| extension_at(p, x, i)
    &&& !p.contains('.') ==> e is None
    &&& forall|i: int| #[trigger] leading_dot_name(p, i) ==> e is None
    &&& forall|i: int| #[trigger] file_name_dot(p, i) ==> e == Some(p.subrange(i + 1, name_end(p)))
}

/// Calls std's `Path::extension` on the path `path` and hands back the extension as
/// text: the part of the file name after its last `.`, or `None`. What counts as the
/// file name follows the separators of the machine the code runs on (`/` everywhere,
/// `\` too on some), so the contract states only what holds on every machine, as
/// `is_path_extension` states; what it finds for a path whose last component mixes
/// `\` and `.` so that machines differ, that may start with a drive prefix, or that
/// starts with two separators, is left unsaid where machines differ.
#[verifier::external_body]
fn path_extension(path: &str) -> (r: Option<String>)
    ensures
        is_path_extension(path@, match r {
            Some(s) => Some(s@),
            None => None,
        }),
{
    match std::path::Path::new(path).extension() {
        Some(ext) => match ext.to_str() {
            Some(text) => Some(text.to_owned()),
            None => None,
        },
        None => None,
    }
}

/// The extension found in a path, as text.
pub open spec fn ext_view(e: Option<String>) -> Option<Seq<char>> {
    match e {
        Some(s) => Some(s@),
        None => None,
    }
}

/// Whether an extension is one of an audio file, as `is_audio_extension` states.
pub open spec fn audio_extension(e: Option<Seq<char>>) -> bool {
    match e {
        Some(x) => is_audio_extension_text(lower_ascii_seq(x)),
        None => false,
    }
}

/// The instrument format of a file, from its path's extension: the format
/// `format_for_extension` gives for the extension std's `Path::extension` finds, an
/// extension as `is_path_extension` states. So a path without `.` has no format, and a
/// path whose file name has a `.` after a character other than `.` has the format of
/// the text after its last `.`.
pub fn detect_format(path: &str) -> (r: Option<InstrumentFormat>)
    ensures
        exists|e: Option<Seq<char>>| #[trigger] is_path_extension(path@, e) && r == extension_format(e),
        !path@.contains('.') ==> r is None,
        forall|i: int| #[trigger] leading_dot_name(path@, i) ==> r is None,
        forall|i: int| #[trigger] file_name_dot(path@, i) ==> r == extension_format(Some(path@.subrange(i + 1, name_end(path@)))),
{
    let ext = path_extension(path);
    let ghost e = ext_view(ext);
    let r = match ext {
        Some(s) => format_for_extension(Some(s.as_str())),
        None => format_for_extension(None),
    };
    assert(is_path_extension(path@, e) && r == extension_format(e));
    r
}

/// Whether a file is an instrument the sampler reads, by its extension: whether the
/// extension std's `Path::extension` finds names a format.
pub fn is_instrument_file(path: &str) -> (r: bool)
    ensures
        exists|e: Option<Seq<char>>| #[trigger] is_path_extension(path@, e) && r == (extension_format(e) is Some),
        !path@.contains('.') ==> !r,
        forall|i: int| #[trigger] leading_dot_name(path@, i) ==> !r,
        forall|i: int| #[trigger] file_name_dot(path@, i) ==> r == (extension_format(Some(path@.subrange(i + 1, name_end(path@)))) is Some),
{
    let f = detect_format(path);
    let r = f.is_some();
    proof {
        let e = choose|e: Option<Seq<char>>| #[trigger] is_path_extension(path@, e) && f == extension_format(e);
        assert(is_path_extension(path@, e) && r == (extension_format(e) is Some));
    }
    r
}

/// Whether a file has the extension of an audio file the sampler loads (whether it
/// is mono or stereo is for its reader to tell): whether the extension std's
/// `Path::extension` finds is one, in any ASCII case.
pub fn has_audio_extension(path: &str) -> (r: bool)
    ensures
        exists|e: Option<Seq<char>>| #[trigger] is_path_extension(path@, e) && r == audio_extension(e),
        !path@.contains('.') ==> !r,
        forall|i: int| #[trigger] leading_dot_name(path@, i) ==> !r,
        forall|i: int| #[trigger] file_name_dot(path@, i) ==> r == audio_extension(Some(path@.subrange(i + 1, name_end(path@)))),
{
    let ext = path_extension(path);
    let ghost e = ext_view(ext);
    let r = match ext {
        Some(s) => is_audio_extension(Some(s.as_str())),
        None => false,
    };
    assert(is_path_extension(path@, e) && r == audio_extension(e));
    r
}

/// Whether the file name that ends the path `p` (before any `/` that ends it) starts at
/// `i`, on every machine: after a `/` or at the start of `p` (and then outside a
/// possible drive prefix), with no separator from `i` to the end of the name, not made
/// of `.` alone (which names the folder itself or its parent), and `p` does not start
/// with two separators (a network or device prefix on some machines).
pub open spec fn plain_last_name(p: Seq<char>, i: int) -> bool {
    &&& 0 <= i < name_end(p)
    &&& (i == 0 || p[i - 1] == '/')
    &&& (may_have_drive(p) ==> i >= 2)
    &&& forall|j: int| i <= j < name_end(p) ==> !is_separator(#[trigger] p[j])
    &&& exists|j: int| i <= j < name_end(p) && (#[trigger] p[j]) != '.'
    &&& !(p.len() >= 2 && is_separator(p[0]) && is_separator(p[1]))
}

/// What holds, on every machine, of the file name std's `Path::file_name` finds in the
/// path `p`: an empty path has none, and where the name that ends the path is plain
/// (as `plain_last_name` states) it is that name.
pub open spec fn is_file_name_of(p: Seq<char>, n: Option<Seq<char>>) -> bool {
    &&& p.len() == 0 ==> n is None
    &&& forall|i: int| #[trigger] plain_last_name(p, i) ==> n == Some(p.subrange(i, name_end(p)))
}

/// Calls std's `Path::file_name` on the path `path` and hands back the name as text
/// (exact, since the path is text). What counts as a separator or a prefix differs
/// between machines, so the contract states what holds on every machine, as
/// `is_file_name_of` states; the name of a path that ends in `.` or `..`, mixes `\`
/// into its last component, or may start with a prefix is left unsaid.
#[verifier::external_body]
fn path_file_name(path: &str) -> (r: Option<String>)
    ensures
        is_file_name_of(path@, ext_view(r)),
{
    match std::path::Path::new(path).file_name() {
        Some(name) => Some(name.to_string_lossy().into_owned()),
        None => None,
    }
}

/// The name shown for the loaded instrument: the file name of its path, as std's
/// `Path::file_name` finds it, or `Instrument` where there is no path or no name.
pub fn path_display(path: Option<&str>) -> (r: String)
    ensures
        path is None ==> r@ == "Instrument"@,
        path matches Some(p) ==> exists|n: Option<Seq<char>>| #[trigger] is_file_name_of(p@, n) && r@ == (match n {
            Some(x) => x,
            None => "Instrument"@,
        }),
        path matches Some(p) ==> (p@.len() == 0 ==> r@ == "Instrument"@),
        path matches Some(p) ==> forall|i: int| #[trigger] plain_last_name(p@, i) ==> r@ == p@.subrange(i, name_end(p@)),
{
    let name = match path {
        Some(p) => path_file_name(p),
        None => None,
    };
    match name {
        Some(n) => n,
        None => "Instrument".to_owned(),
    }
}

} // verus!
