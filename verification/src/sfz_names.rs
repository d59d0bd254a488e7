//! The SFZ words for filter types and LFO settings: what the exporter writes for each,
//! and what the parser reads back.

use vstd::prelude::*;
use crate::editor_options::FilterType;
use crate::text::{str_eq, lowercase, text_lower};

verus! {

/// An LFO waveform.
#[derive(Debug, Clone, Copy, PartialEq, Eq, Structural)]
pub enum LfoShape {
    Sine,
    Triangle,
    Saw,
    Ramp,
    Square,
    SampleHold,
    Noise,
    Envelope,
}

/// When an LFO restarts.
#[derive(Debug, Clone, Copy, PartialEq, Eq, Structural)]
pub enum LfoTriggerMode {
    FreeRun,
    KeyTrigger,
    Random,
}

/// What an LFO's rate follows.
#[derive(Debug, Clone, Copy, PartialEq, Eq, Structural)]
pub enum LfoSyncMode {
    Free,
    Tempo,
}

/// The curve of an envelope's decay and release.
#[derive(Debug, Clone, Copy, PartialEq, Eq, Structural)]
pub enum DecayReleaseShape {
    Linear,
    Quadratic,
    Cubic,
}

/// The `fil_type` word written for a filter type.
pub open spec fn filter_type_word(t: FilterType) -> Seq<char> {
    match t {
        FilterType::Lowpass => "lpf_2p"@,
        FilterType::Highpass => "hpf_2p"@,
        FilterType::Bandpass => "bpf_2p"@,
        FilterType::Notch => "brf_2p"@,
        FilterType::Peak => "pkf_2p"@,
        FilterType::Allpass => "apf_1p"@,
        FilterType::LowShelf => "lsh_1p"@,
        FilterType::HighShelf => "hsh_1p"@,
        FilterType::Bell => "bpk_2p"@,
    }
}

/// The filter type an already lowercased `fil_type` word names; anything unknown is
/// a low-pass.
pub open spec fn filter_type_of(l: Seq<char>) -> FilterType {
    if l == "lpf_1p"@ || l == "lpf_2p"@ || l == "lpf_4p"@ || l == "lpf_6p"@ || l == "lpf"@ {
        FilterType::Lowpass
    } else if l == "hpf_1p"@ || l == "hpf_2p"@ || l == "hpf_4p"@ || l == "hpf_6p"@ || l == "hpf"@ {
        FilterType::Highpass
    } else if l == "bpf_2p"@ || l == "bpf_4p"@ || l == "bpf"@ {
        FilterType::Bandpass
    } else if l == "brf_2p"@ || l == "brf"@ {
        FilterType::Notch
    } else if l == "apf_1p"@ {
        FilterType::Allpass
    } else if l == "pkf_2p"@ {
        FilterType::Peak
    } else if l == "lsh_1p"@ || l == "lsh_2p"@ || l == "lsh"@ {
        FilterType::LowShelf
    } else if l == "hsh_1p"@ || l == "hsh_2p"@ || l == "hsh"@ {
        FilterType::HighShelf
    } else if l == "bpk_2p"@ {
        FilterType::Bell
    } else {
        FilterType::Lowpass
    }
}

/// The `lfoNN_wave` word written for a waveform.
pub open spec fn lfo_wave_word(s: LfoShape) -> Seq<char> {
    match s {
        LfoShape::Sine => "sine"@,
        LfoShape::Triangle => "triangle"@,
        LfoShape::Saw => "saw"@,
        LfoShape::Ramp => "ramp"@,
        LfoShape::Square => "square"@,
        LfoShape::SampleHold => "sample&hold"@,
        LfoShape::Noise => "noise"@,
        LfoShape::Envelope => "envelope"@,
    }
}

/// The waveform an already lowercased wave word names; anything unknown is a sine.
pub open spec fn lfo_wave_of(l: Seq<char>) -> LfoShape {
    if l == "sine"@ {
        LfoShape::Sine
    } else if l == "triangle"@ {
        LfoShape::Triangle
    } else if l == "saw"@ || l == "sawtooth"@ {
        LfoShape::Saw
    } else if l == "ramp"@ {
        LfoShape::Ramp
    } else if l == "square"@ {
        LfoShape::Square
    } else if l == "sample_hold"@ || l == "sample&hold"@ || l == "random"@ {
        LfoShape::SampleHold
    } else if l == "noise"@ {
        LfoShape::Noise
    } else if l == "envelope"@ {
        LfoShape::Envelope
    } else {
        LfoShape::Sine
    }
}

/// The trigger word written for an LFO trigger mode.
pub open spec fn lfo_trigger_word(m: LfoTriggerMode) -> Seq<char> {
    match m {
        LfoTriggerMode::FreeRun => "free"@,
        LfoTriggerMode::KeyTrigger => "attack"@,
        LfoTriggerMode::Random => "random"@,
    }
}

/// The trigger mode an already lowercased word names; anything unknown restarts
/// with each key.
pub open spec fn lfo_trigger_of(l: Seq<char>) -> LfoTriggerMode {
    if l == "free"@ {
        LfoTriggerMode::FreeRun
    } else if l == "random"@ {
        LfoTriggerMode::Random
    } else {
        LfoTriggerMode::KeyTrigger
    }
}

/// The sync word written for an LFO sync mode.
pub open spec fn lfo_sync_word(m: LfoSyncMode) -> Seq<char> {
    match m {
        LfoSyncMode::Free => "none"@,
        LfoSyncMode::Tempo => "tempo"@,
    }
}

/// The sync mode an already lowercased word names; anything unknown runs free.
pub open spec fn lfo_sync_of(l: Seq<char>) -> LfoSyncMode {
    if l == "tempo"@ || l == "host"@ {
        LfoSyncMode::Tempo
    } else {
        LfoSyncMode::Free
    }
}

/// The `fil_type` word written for a filter type.
pub fn export_filter_type(filter_type: FilterType) -> (s: &'static str)
    ensures
        s@ == filter_type_word(filter_type),
{
    match filter_type {
        FilterType::Lowpass => "lpf_2p",
        FilterType::Highpass => "hpf_2p",
        FilterType::Bandpass => "bpf_2p",
        FilterType::Notch => "brf_2p",
        FilterType::Peak => "pkf_2p",
        FilterType::Allpass => "apf_1p",
        FilterType::LowShelf => "lsh_1p",
        FilterType::HighShelf => "hsh_1p",
        FilterType::Bell => "bpk_2p",
    }
}

/// The filter type a lowercased `fil_type` word names, as `filter_type_of` states.
pub fn filter_type_from_lowercase(l: &str) -> (t: FilterType)
    ensures
        t == filter_type_of(l@),
{
    if str_eq(l, "lpf_1p") || str_eq(l, "lpf_2p") || str_eq(l, "lpf_4p") || str_eq(l, "lpf_6p") || str_eq(l, "lpf") {
        FilterType::Lowpass
    } else if str_eq(l, "hpf_1p") || str_eq(l, "hpf_2p") || str_eq(l, "hpf_4p") || str_eq(l, "hpf_6p") || str_eq(l, "hpf") {
        FilterType::Highpass
    } else if str_eq(l, "bpf_2p") || str_eq(l, "bpf_4p") || str_eq(l, "bpf") {
        FilterType::Bandpass
    } else if str_eq(l, "brf_2p") || str_eq(l, "brf") {
        FilterType::Notch
    } else if str_eq(l, "apf_1p") {
        FilterType::Allpass
    } else if str_eq(l, "pkf_2p") {
        FilterType::Peak
    } else if str_eq(l, "lsh_1p") || str_eq(l, "lsh_2p") || str_eq(l, "lsh") {
        FilterType::LowShelf
    } else if str_eq(l, "hsh_1p") || str_eq(l, "hsh_2p") || str_eq(l, "hsh") {
        FilterType::HighShelf
    } else if str_eq(l, "bpk_2p") {
        FilterType::Bell
    } else {
        FilterType::Lowpass
    }
}

/// The filter type a `fil_type` value names, compared without regard to case.
pub fn parse_filter_type(value: &str) -> (t: FilterType)
    ensures
        t == filter_type_of(text_lower(value@)),
{
    let lower = lowercase(value);
    filter_type_from_lowercase(lower.as_str())
}

/// The wave word written for an LFO waveform.
pub fn export_lfo_wave(shape: LfoShape) -> (s: &'static str)
    ensures
        s@ == lfo_wave_word(shape),
{
    match shape {
        LfoShape::Sine => "sine",
        LfoShape::Triangle => "triangle",
        LfoShape::Saw => "saw",
        LfoShape::Ramp => "ramp",
        LfoShape::Square => "square",
        LfoShape::SampleHold => "sample&hold",
        LfoShape::Noise => "noise",
        LfoShape::Envelope => "envelope",
    }
}

/// The waveform a lowercased wave word names, as `lfo_wave_of` states.
pub fn lfo_wave_from_lowercase(l: &str) -> (s: LfoShape)
    ensures
        s == lfo_wave_of(l@),
{
    if str_eq(l, "sine") {
        LfoShape::Sine
    } else if str_eq(l, "triangle") {
        LfoShape::Triangle
    } else if str_eq(l, "saw") || str_eq(l, "sawtooth") {
        LfoShape::Saw
    } else if str_eq(l, "ramp") {
        LfoShape::Ramp
    } else if str_eq(l, "square") {
        LfoShape::Square
    } else if str_eq(l, "sample_hold") || str_eq(l, "sample&hold") || str_eq(l, "random") {
        LfoShape::SampleHold
    } else if str_eq(l, "noise") {
        LfoShape::Noise
    } else if str_eq(l, "envelope") {
        LfoShape::Envelope
    } else {
        LfoShape::Sine
    }
}

/// The waveform a wave value names, compared without regard to case.
pub fn parse_lfo_wave(value: &str) -> (s: LfoShape)
    ensures
        s == lfo_wave_of(text_lower(value@)),
{
    let lower = lowercase(value);
    lfo_wave_from_lowercase(lower.as_str())
}

/// The trigger word written for an LFO trigger mode.
pub fn export_lfo_trigger(mode: LfoTriggerMode) -> (s: &'static str)
    ensures
        s@ == lfo_trigger_word(mode),
{
    match mode {
        LfoTriggerMode::FreeRun => "free",
        LfoTriggerMode::KeyTrigger => "attack",
        LfoTriggerMode::Random => "random",
    }
}

/// The trigger mode a trigger value names, compared without regard to case.
pub fn parse_lfo_trigger(value: &str) -> (m: LfoTriggerMode)
    ensures
        m == lfo_trigger_of(text_lower(value@)),
{
    let lower = lowercase(value);
    if str_eq(lower.as_str(), "free") {
        LfoTriggerMode::FreeRun
    } else if str_eq(lower.as_str(), "random") {
        LfoTriggerMode::Random
    } else {
        LfoTriggerMode::KeyTrigger
    }
}

/// The sync word written for an LFO sync mode.
pub fn export_lfo_sync(mode: LfoSyncMode) -> (s: &'static str)
    ensures
        s@ == lfo_sync_word(mode),
{
    match mode {
        LfoSyncMode::Free => "none",
        LfoSyncMode::Tempo => "tempo",
    }
}

/// The sync mode a sync value names, compared without regard to case.
pub fn parse_lfo_sync(value: &str) -> (m: LfoSyncMode)
    ensures
        m == lfo_sync_of(text_lower(value@)),
{
    let lower = lowercase(value);
    if str_eq(lower.as_str(), "tempo") || str_eq(lower.as_str(), "host") {
        LfoSyncMode::Tempo
    } else {
        LfoSyncMode::Free
    }
}

/// The number written for a decay/release curve.
pub fn export_decay_release_shape(shape: DecayReleaseShape) -> (n: i32)
    ensures
        n == (match shape {
            DecayReleaseShape::Linear => 0i32,
            DecayReleaseShape::Quadratic => 1i32,
            DecayReleaseShape::Cubic => 2i32,
        }),
{
    match shape {
        DecayReleaseShape::Linear => 0,
        DecayReleaseShape::Quadratic => 1,
        DecayReleaseShape::Cubic => 2,
    }
}

/// Reading back the word written for a filter type, an LFO waveform, trigger mode or
/// sync mode gives that setting.
pub proof fn lemma_export_words_read_back(t: FilterType, s: LfoShape, m: LfoTriggerMode, y: LfoSyncMode)
    ensures
        filter_type_of(filter_type_word(t)) == t,
        lfo_wave_of(lfo_wave_word(s)) == s,
        lfo_trigger_of(lfo_trigger_word(m)) == m,
        lfo_sync_of(lfo_sync_word(y)) == y,
{
    lemma_filter_words(t);
    lemma_wave_words(s);
    lemma_trigger_words(m);
    lemma_sync_words(y);
}

proof fn lemma_filter_words(x: FilterType)
    ensures
        filter_type_of(filter_type_word(x)) == x,
{
    reveal_strlit("apf_1p");
    reveal_strlit("bpf");
    reveal_strlit("bpf_2p");
    reveal_strlit("bpf_4p");
    reveal_strlit("bpk_2p");
    reveal_strlit("brf");
    reveal_strlit("brf_2p");
    reveal_strlit("hpf");
    reveal_strlit("hpf_1p");
    reveal_strlit("hpf_2p");
    reveal_strlit("hpf_4p");
    reveal_strlit("hpf_6p");
    reveal_strlit("hsh");
    reveal_strlit("hsh_1p");
    reveal_strlit("hsh_2p");
    reveal_strlit("lpf");
    reveal_strlit("lpf_1p");
    reveal_strlit("lpf_2p");
    reveal_strlit("lpf_4p");
    reveal_strlit("lpf_6p");
    reveal_strlit("lsh");
    reveal_strlit("lsh_1p");
    reveal_strlit("lsh_2p");
    reveal_strlit("pkf_2p");
    match x {
        FilterType::Lowpass => {
        },
        FilterType::Highpass => {
            assert("hpf_2p"@[0] != "lpf_1p"@[0]);
            assert("hpf_2p"@[0] != "lpf_2p"@[0]);
            assert("hpf_2p"@[0] != "lpf_4p"@[0]);
            assert("hpf_2p"@[0] != "lpf_6p"@[0]);
            assert("hpf_2p"@.len() != "lpf"@.len());
        },
        FilterType::Bandpass => {
            assert("bpf_2p"@[0] != "lpf_1p"@[0]);
            assert("bpf_2p"@[0] != "lpf_2p"@[0]);
            assert("bpf_2p"@[0] != "lpf_4p"@[0]);
            assert("bpf_2p"@[0] != "lpf_6p"@[0]);
            assert("bpf_2p"@.len() != "lpf"@.len());
            assert("bpf_2p"@[0] != "hpf_1p"@[0]);
            assert("bpf_2p"@[0] != "hpf_2p"@[0]);
            assert("bpf_2p"@[0] != "hpf_4p"@[0]);
            assert("bpf_2p"@[0] != "hpf_6p"@[0]);
            assert("bpf_2p"@.len() != "hpf"@.len());
        },
        FilterType::Notch => {
            assert("brf_2p"@[0] != "lpf_1p"@[0]);
            assert("brf_2p"@[0] != "lpf_2p"@[0]);
            assert("brf_2p"@[0] != "lpf_4p"@[0]);
            assert("brf_2p"@[0] != "lpf_6p"@[0]);
            assert("brf_2p"@.len() != "lpf"@.len());
            assert("brf_2p"@[0] != "hpf_1p"@[0]);
            assert("brf_2p"@[0] != "hpf_2p"@[0]);
            assert("brf_2p"@[0] != "hpf_4p"@[0]);
            assert("brf_2p"@[0] != "hpf_6p"@[0]);
            assert("brf_2p"@.len() != "hpf"@.len());
            assert("brf_2p"@[1] != "bpf_2p"@[1]);
            assert("brf_2p"@[1] != "bpf_4p"@[1]);
            assert("brf_2p"@.len() != "bpf"@.len());
        },
        FilterType::Peak => {
            assert("pkf_2p"@[0] != "lpf_1p"@[0]);
            assert("pkf_2p"@[0] != "lpf_2p"@[0]);
            assert("pkf_2p"@[0] != "lpf_4p"@[0]);
            assert("pkf_2p"@[0] != "lpf_6p"@[0]);
            assert("pkf_2p"@.len() != "lpf"@.len());
            assert("pkf_2p"@[0] != "hpf_1p"@[0]);
            assert("pkf_2p"@[0] != "hpf_2p"@[0]);
            assert("pkf_2p"@[0] != "hpf_4p"@[0]);
            assert("pkf_2p"@[0] != "hpf_6p"@[0]);
            assert("pkf_2p"@.len() != "hpf"@.len());
            assert("pkf_2p"@[0] != "bpf_2p"@[0]);
            assert("pkf_2p"@[0] != "bpf_4p"@[0]);
            assert("pkf_2p"@.len() != "bpf"@.len());
            assert("pkf_2p"@[0] != "brf_2p"@[0]);
            assert("pkf_2p"@.len() != "brf"@.len());
            assert("pkf_2p"@[0] != "apf_1p"@[0]);
        },
        FilterType::Allpass => {
            assert("apf_1p"@[0] != "lpf_1p"@[0]);
            assert("apf_1p"@[0] != "lpf_2p"@[0]);
            assert("apf_1p"@[0] != "lpf_4p"@[0]);
            assert("apf_1p"@[0] != "lpf_6p"@[0]);
            assert("apf_1p"@.len() != "lpf"@.len());
            assert("apf_1p"@[0] != "hpf_1p"@[0]);
            assert("apf_1p"@[0] != "hpf_2p"@[0]);
            assert("apf_1p"@[0] != "hpf_4p"@[0]);
            assert("apf_1p"@[0] != "hpf_6p"@[0]);
            assert("apf_1p"@.len() != "hpf"@.len());
            assert("apf_1p"@[0] != "bpf_2p"@[0]);
            assert("apf_1p"@[0] != "bpf_4p"@[0]);
            assert("apf_1p"@.len() != "bpf"@.len());
            assert("apf_1p"@[0] != "brf_2p"@[0]);
            assert("apf_1p"@.len() != "brf"@.len());
        },
        FilterType::LowShelf => {
            assert("lsh_1p"@[1] != "lpf_1p"@[1]);
            assert("lsh_1p"@[1] != "lpf_2p"@[1]);
            assert("lsh_1p"@[1] != "lpf_4p"@[1]);
            assert("lsh_1p"@[1] != "lpf_6p"@[1]);
            assert("lsh_1p"@.len() != "lpf"@.len());
            assert("lsh_1p"@[0] != "hpf_1p"@[0]);
            assert("lsh_1p"@[0] != "hpf_2p"@[0]);
            assert("lsh_1p"@[0] != "hpf_4p"@[0]);
            assert("lsh_1p"@[0] != "hpf_6p"@[0]);
            assert("lsh_1p"@.len() != "hpf"@.len());
            assert("lsh_1p"@[0] != "bpf_2p"@[0]);
            assert("lsh_1p"@[0] != "bpf_4p"@[0]);
            assert("lsh_1p"@.len() != "bpf"@.len());
            assert("lsh_1p"@[0] != "brf_2p"@[0]);
            assert("lsh_1p"@.len() != "brf"@.len());
            assert("lsh_1p"@[0] != "apf_1p"@[0]);
            assert("lsh_1p"@[0] != "pkf_2p"@[0]);
        },
        FilterType::HighShelf => {
            assert("hsh_1p"@[0] != "lpf_1p"@[0]);
            assert("hsh_1p"@[0] != "lpf_2p"@[0]);
            assert("hsh_1p"@[0] != "lpf_4p"@[0]);
            assert("hsh_1p"@[0] != "lpf_6p"@[0]);
            assert("hsh_1p"@.len() != "lpf"@.len());
            assert("hsh_1p"@[1] != "hpf_1p"@[1]);
            assert("hsh_1p"@[1] != "hpf_2p"@[1]);
            assert("hsh_1p"@[1] != "hpf_4p"@[1]);
            assert("hsh_1p"@[1] != "hpf_6p"@[1]);
            assert("hsh_1p"@.len() != "hpf"@.len());
            assert("hsh_1p"@[0] != "bpf_2p"@[0]);
            assert("hsh_1p"@[0] != "bpf_4p"@[0]);
            assert("hsh_1p"@.len() != "bpf"@.len());
            assert("hsh_1p"@[0] != "brf_2p"@[0]);
            assert("hsh_1p"@.len() != "brf"@.len());
            assert("hsh_1p"@[0] != "apf_1p"@[0]);
            assert("hsh_1p"@[0] != "pkf_2p"@[0]);
            assert("hsh_1p"@[0] != "lsh_1p"@[0]);
            assert("hsh_1p"@[0] != "lsh_2p"@[0]);
            assert("hsh_1p"@.len() != "lsh"@.len());
        },
        FilterType::Bell => {
            assert("bpk_2p"@[0] != "lpf_1p"@[0]);
            assert("bpk_2p"@[0] != "lpf_2p"@[0]);
            assert("bpk_2p"@[0] != "lpf_4p"@[0]);
            assert("bpk_2p"@[0] != "lpf_6p"@[0]);
            assert("bpk_2p"@.len() != "lpf"@.len());
            assert("bpk_2p"@[0] != "hpf_1p"@[0]);
            assert("bpk_2p"@[0] != "hpf_2p"@[0]);
            assert("bpk_2p"@[0] != "hpf_4p"@[0]);
            assert("bpk_2p"@[0] != "hpf_6p"@[0]);
            assert("bpk_2p"@.len() != "hpf"@.len());
            assert("bpk_2p"@[2] != "bpf_2p"@[2]);
            assert("bpk_2p"@[2] != "bpf_4p"@[2]);
            assert("bpk_2p"@.len() != "bpf"@.len());
            assert("bpk_2p"@[1] != "brf_2p"@[1]);
            assert("bpk_2p"@.len() != "brf"@.len());
            assert("bpk_2p"@[0] != "apf_1p"@[0]);
            assert("bpk_2p"@[0] != "pkf_2p"@[0]);
            assert("bpk_2p"@[0] != "lsh_1p"@[0]);
            assert("bpk_2p"@[0] != "lsh_2p"@[0]);
            assert("bpk_2p"@.len() != "lsh"@.len());
            assert("bpk_2p"@[0] != "hsh_1p"@[0]);
            assert("bpk_2p"@[0] != "hsh_2p"@[0]);
            assert("bpk_2p"@.len() != "hsh"@.len());
        },
    }
}

proof fn lemma_wave_words(x: LfoShape)
    ensures
        lfo_wave_of(lfo_wave_word(x)) == x,
{
    reveal_strlit("envelope");
    reveal_strlit("noise");
    reveal_strlit("ramp");
    reveal_strlit("random");
    reveal_strlit("sample&hold");
    reveal_strlit("sample_hold");
    reveal_strlit("saw");
    reveal_strlit("sawtooth");
    reveal_strlit("sine");
    reveal_strlit("square");
    reveal_strlit("triangle");
    match x {
        LfoShape::Sine => {
        },
        LfoShape::Triangle => {
            assert("triangle"@.len() != "sine"@.len());
        },
        LfoShape::Saw => {
            assert("saw"@.len() != "sine"@.len());
            assert("saw"@.len() != "triangle"@.len());
        },
        LfoShape::Ramp => {
            assert("ramp"@[0] != "sine"@[0]);
            assert("ramp"@.len() != "triangle"@.len());
            assert("ramp"@.len() != "saw"@.len());
            assert("ramp"@.len() != "sawtooth"@.len());
        },
        LfoShape::Square => {
            assert("square"@.len() != "sine"@.len());
            assert("square"@.len() != "triangle"@.len());
            assert("square"@.len() != "saw"@.len());
            assert("square"@.len() != "sawtooth"@.len());
            assert("square"@.len() != "ramp"@.len());
        },
        LfoShape::SampleHold => {
            assert("sample&hold"@.len() != "sine"@.len());
            assert("sample&hold"@.len() != "triangle"@.len());
            assert("sample&hold"@.len() != "saw"@.len());
            assert("sample&hold"@.len() != "sawtooth"@.len());
            assert("sample&hold"@.len() != "ramp"@.len());
            assert("sample&hold"@.len() != "square"@.len());
        },
        LfoShape::Noise => {
            assert("noise"@.len() != "sine"@.len());
            assert("noise"@.len() != "triangle"@.len());
            assert("noise"@.len() != "saw"@.len());
            assert("noise"@.len() != "sawtooth"@.len());
            assert("noise"@.len() != "ramp"@.len());
            assert("noise"@.len() != "square"@.len());
            assert("noise"@.len() != "sample_hold"@.len());
            assert("noise"@.len() != "sample&hold"@.len());
            assert("noise"@.len() != "random"@.len());
        },
        LfoShape::Envelope => {
            assert("envelope"@.len() != "sine"@.len());
            assert("envelope"@[0] != "triangle"@[0]);
            assert("envelope"@.len() != "saw"@.len());
            assert("envelope"@[0] != "sawtooth"@[0]);
            assert("envelope"@.len() != "ramp"@.len());
            assert("envelope"@.len() != "square"@.len());
            assert("envelope"@.len() != "sample_hold"@.len());
            assert("envelope"@.len() != "sample&hold"@.len());
            assert("envelope"@.len() != "random"@.len());
            assert("envelope"@.len() != "noise"@.len());
        },
    }
}

proof fn lemma_trigger_words(x: LfoTriggerMode)
    ensures
        lfo_trigger_of(lfo_trigger_word(x)) == x,
{
    reveal_strlit("attack");
    reveal_strlit("free");
    reveal_strlit("random");
    match x {
        LfoTriggerMode::FreeRun => {
        },
        LfoTriggerMode::KeyTrigger => {
            assert("attack"@.len() != "free"@.len());
            assert("attack"@[0] != "random"@[0]);
        },
        LfoTriggerMode::Random => {
            assert("random"@.len() != "free"@.len());
        },
    }
}

proof fn lemma_sync_words(x: LfoSyncMode)
    ensures
        lfo_sync_of(lfo_sync_word(x)) == x,
{
    reveal_strlit("host");
    reveal_strlit("none");
    reveal_strlit("tempo");
    match x {
        LfoSyncMode::Free => {
            assert("none"@.len() != "tempo"@.len());
            assert("none"@[0] != "host"@[0]);
        },
        LfoSyncMode::Tempo => {
        },
    }
}

} // verus!
