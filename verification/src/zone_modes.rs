//! How a zone plays: trigger, loop, crossfade curve, note-off and loop direction
//! modes, and how SFZ opcode values name them.

use vstd::prelude::*;
use crate::text::{all_ascii, lower_ascii_seq, str_eq, lowercase, text_lower};

verus! {

/// When a zone's sample starts.
#[derive(Debug, Clone, Copy, PartialEq, Eq, Structural)]
pub enum SamplePlayMode {
    Normal,
    OneShot,
    OnRelease,
    First,
    Legato,
}

/// Whether and while what a zone's sample loops.
#[derive(Debug, Clone, Copy, PartialEq, Eq, Structural)]
pub enum LoopMode {
    Off,
    DuringVoice,
    WhileGated,
    Count,
}

/// The shape of a crossfade.
#[derive(Debug, Clone, Copy, PartialEq, Eq, Structural)]
pub enum CurveType {
    Linear,
    Exponential,
    Logarithmic,
    SCurve,
}

/// How fast a voice stops when it is cut off.
#[derive(Debug, Clone, Copy, PartialEq, Eq, Structural)]
pub enum OffMode {
    Fast,
    Normal,
}

/// The direction a loop plays in.
#[derive(Debug, Clone, Copy, PartialEq, Eq, Structural)]
pub enum LoopDirection {
    Forward,
    Alternate,
}

/// How a zone plays its sample: its output bus; its sample start offset, random
/// start offset and end; how many times it plays (0: no limit); whether backwards; its
/// trigger mode; its loop mode, loop points, crossfade, count and direction; its
/// round-robin length and position; the exclusive group that cuts it off; and how fast
/// it stops when cut off.
#[derive(Debug, Clone, Copy, PartialEq, Eq, Structural)]
pub struct ZonePlayback {
    pub output: u8,
    pub start_offset: usize,
    pub offset_random: usize,
    pub end_offset: usize,
    pub count: u32,
    pub reverse: bool,
    pub play_mode: SamplePlayMode,
    pub loop_mode: LoopMode,
    pub loop_start: usize,
    pub loop_end: usize,
    pub loop_crossfade: usize,
    pub loop_count: u32,
    pub loop_direction: LoopDirection,
    pub seq_length: u32,
    pub seq_position: u32,
    pub off_by: u8,
    pub off_mode: OffMode,
}

/// The playback of a zone no opcode sets: bus 0, no offsets, no count, forwards,
/// triggered on attack, no loop (loop points 0, forwards), no round robin, cut off by
/// no group, and stopped fast.
pub open spec fn neutral_playback() -> ZonePlayback {
    ZonePlayback {
        output: 0,
        start_offset: 0,
        offset_random: 0,
        end_offset: 0,
        count: 0,
        reverse: false,
        play_mode: SamplePlayMode::Normal,
        loop_mode: LoopMode::Off,
        loop_start: 0,
        loop_end: 0,
        loop_crossfade: 0,
        loop_count: 0,
        loop_direction: LoopDirection::Forward,
        seq_length: 0,
        seq_position: 0,
        off_by: 0,
        off_mode: OffMode::Fast,
    }
}

impl ZonePlayback {
    /// The playback of a zone no opcode sets, as `neutral_playback` states.
    pub fn new() -> (p: Self)
        ensures
            p == neutral_playback(),
    {
        ZonePlayback {
            output: 0,
            start_offset: 0,
            offset_random: 0,
            end_offset: 0,
            count: 0,
            reverse: false,
            play_mode: SamplePlayMode::Normal,
            loop_mode: LoopMode::Off,
            loop_start: 0,
            loop_end: 0,
            loop_crossfade: 0,
            loop_count: 0,
            loop_direction: LoopDirection::Forward,
            seq_length: 0,
            seq_position: 0,
            off_by: 0,
            off_mode: OffMode::Fast,
        }
    }
}

/// The crossfade curve named by an already lowercased opcode value; anything
/// unknown is linear.
pub open spec fn curve_type_of(lower: Seq<char>) -> CurveType {
    if lower == "exponential"@ {
        CurveType::Exponential
    } else if lower == "log"@ || lower == "logarithmic"@ {
        CurveType::Logarithmic
    } else if lower == "scurve"@ || lower == "s-curve"@ {
        CurveType::SCurve
    } else {
        CurveType::Linear
    }
}

/// The trigger mode named by an already lowercased `trigger` value; anything
/// unknown triggers on attack.
pub open spec fn play_mode_of(lower: Seq<char>) -> SamplePlayMode {
    if lower == "release"@ || lower == "release_key"@ {
        SamplePlayMode::OnRelease
    } else if lower == "first"@ {
        SamplePlayMode::First
    } else if lower == "legato"@ {
        SamplePlayMode::Legato
    } else {
        SamplePlayMode::Normal
    }
}

/// The loop mode named by an already lowercased `loop_mode` value; anything
/// unknown does not loop.
pub open spec fn loop_mode_of(lower: Seq<char>) -> LoopMode {
    if lower == "loop_continuous"@ || lower == "loop"@ {
        LoopMode::DuringVoice
    } else if lower == "loop_sustain"@ {
        LoopMode::WhileGated
    } else {
        LoopMode::Off
    }
}

/// The loop direction named by an already lowercased `direction` value.
pub open spec fn loop_direction_of(lower: Seq<char>) -> LoopDirection {
    if lower == "alternate"@ {
        LoopDirection::Alternate
    } else {
        LoopDirection::Forward
    }
}

/// The SFZ text written for a crossfade curve.
pub open spec fn curve_type_text(c: CurveType) -> Seq<char> {
    match c {
        CurveType::Linear => "linear"@,
        CurveType::Exponential => "exponential"@,
        CurveType::Logarithmic => "logarithmic"@,
        CurveType::SCurve => "s-curve"@,
    }
}

/// The crossfade curve named by a lowercased value, as `curve_type_of` states.
pub fn curve_type_from_lowercase(lower: &str) -> (c: CurveType)
    ensures
        c == curve_type_of(lower@),
{
    if str_eq(lower, "exponential") {
        CurveType::Exponential
    } else if str_eq(lower, "log") || str_eq(lower, "logarithmic") {
        CurveType::Logarithmic
    } else if str_eq(lower, "scurve") || str_eq(lower, "s-curve") {
        CurveType::SCurve
    } else {
        CurveType::Linear
    }
}

/// The crossfade curve named by an opcode value, compared without regard to case.
pub fn parse_curve_type(value: &str) -> (c: CurveType)
    ensures
        c == curve_type_of(text_lower(value@)),
{
    let lower = lowercase(value);
    curve_type_from_lowercase(lower.as_str())
}

/// The trigger mode named by a lowercased value, as `play_mode_of` states.
pub fn play_mode_from_lowercase(lower: &str) -> (m: SamplePlayMode)
    ensures
        m == play_mode_of(lower@),
{
    if str_eq(lower, "release") || str_eq(lower, "release_key") {
        SamplePlayMode::OnRelease
    } else if str_eq(lower, "first") {
        SamplePlayMode::First
    } else if str_eq(lower, "legato") {
        SamplePlayMode::Legato
    } else {
        SamplePlayMode::Normal
    }
}

/// The trigger mode named by a `trigger` value, compared without regard to case.
pub fn parse_trigger_mode(value: &str) -> (m: SamplePlayMode)
    ensures
        m == play_mode_of(text_lower(value@)),
{
    let lower = lowercase(value);
    play_mode_from_lowercase(lower.as_str())
}

/// The loop mode named by a lowercased value, as `loop_mode_of` states.
pub fn loop_mode_from_lowercase(lower: &str) -> (m: LoopMode)
    ensures
        m == loop_mode_of(lower@),
{
    if str_eq(lower, "loop_continuous") || str_eq(lower, "loop") {
        LoopMode::DuringVoice
    } else if str_eq(lower, "loop_sustain") {
        LoopMode::WhileGated
    } else {
        LoopMode::Off
    }
}

/// The loop mode named by a `loop_mode` value, compared without regard to case.
pub fn parse_loop_mode(value: &str) -> (m: LoopMode)
    ensures
        m == loop_mode_of(text_lower(value@)),
{
    let lower = lowercase(value);
    loop_mode_from_lowercase(lower.as_str())
}

/// The loop direction named by a lowercased value, as `loop_direction_of` states.
pub fn loop_direction_from_lowercase(lower: &str) -> (d: LoopDirection)
    ensures
        d == loop_direction_of(lower@),
{
    if str_eq(lower, "alternate") {
        LoopDirection::Alternate
    } else {
        LoopDirection::Forward
    }
}

/// The loop direction named by a `direction` value, compared without regard to case.
pub fn parse_loop_direction(value: &str) -> (d: LoopDirection)
    ensures
        d == loop_direction_of(text_lower(value@)),
{
    let lower = lowercase(value);
    loop_direction_from_lowercase(lower.as_str())
}

/// The SFZ text written for a crossfade curve.
pub fn export_curve_type(curve: CurveType) -> (s: &'static str)
    ensures
        s@ == curve_type_text(curve),
{
    match curve {
        CurveType::Linear => "linear",
        CurveType::Exponential => "exponential",
        CurveType::Logarithmic => "logarithmic",
        CurveType::SCurve => "s-curve",
    }
}

/// The text written for a crossfade curve is lower-case ASCII, and reading it back
/// gives that curve.
pub proof fn lemma_curve_type_text_roundtrip(c: CurveType)
    ensures
        curve_type_of(curve_type_text(c)) == c,
        lower_ascii_seq(curve_type_text(c)) == curve_type_text(c),
        all_ascii(curve_type_text(c)),
{
    reveal_strlit("linear");
    reveal_strlit("exponential");
    reveal_strlit("log");
    reveal_strlit("logarithmic");
    reveal_strlit("scurve");
    reveal_strlit("s-curve");
    match c {
        CurveType::Linear => {
            assert("linear"@[1] != "log"@[1]);
            assert("linear"@.len() != "exponential"@.len());
            assert("linear"@.len() != "logarithmic"@.len());
            assert("linear"@[0] != "scurve"@[0]);
            assert("linear"@.len() != "s-curve"@.len());
        },
        CurveType::Exponential => {},
        CurveType::Logarithmic => {
            assert("logarithmic"@[0] != "exponential"@[0]);
            assert("logarithmic"@.len() != "log"@.len());
        },
        CurveType::SCurve => {
            assert("s-curve"@.len() != "exponential"@.len());
            assert("s-curve"@.len() != "log"@.len());
            assert("s-curve"@.len() != "logarithmic"@.len());
        },
    }
    assert("s-curve"@[1] != "scurve"@[1]);
    assert(lower_ascii_seq(curve_type_text(c)) =~= curve_type_text(c));
}

} // verus!
