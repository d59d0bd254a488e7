use vstd::prelude::*;

verus! {

/// A modulation source of the sampler's modulation matrix.
///
/// `NoSource` is the unassigned source (a route with it is inactive).
#[derive(Debug, Clone, Copy, PartialEq, Eq, Structural)]
pub enum ModSource {
    NoSource,
    Velocity,
    KeyTrack,
    PitchBend,
    ModWheel,
    Pressure,
    Timbre,
    Lfo1,
    Lfo2,
    Lfo3,
    Lfo4,
    Lfo5,
    Lfo6,
    Eg1,
    Eg2,
    Eg3,
    Eg4,
    Eg5,
    Random,
    SampleAndHold,
    VariantFraction,
    PlaybackPosition,
    LoopFraction,
    IsGated,
    IsReleased,
    GroupAnyGated,
    GroupVoiceCount,
    ChannelPressure,
    ChannelVolume,
    Expression,
    Cc10Pan,
    MidiCc,
}

impl Default for ModSource {
    fn default() -> (s: Self)
        ensures
            s == ModSource::NoSource,
    {
        ModSource::NoSource
    }
}

/// The number a source is stored as: its position in the declaration.
pub open spec fn mod_source_code(s: ModSource) -> u8 {
    match s {
        ModSource::NoSource => 0,
        ModSource::Velocity => 1,
        ModSource::KeyTrack => 2,
        ModSource::PitchBend => 3,
        ModSource::ModWheel => 4,
        ModSource::Pressure => 5,
        ModSource::Timbre => 6,
        ModSource::Lfo1 => 7,
        ModSource::Lfo2 => 8,
        ModSource::Lfo3 => 9,
        ModSource::Lfo4 => 10,
        ModSource::Lfo5 => 11,
        ModSource::Lfo6 => 12,
        ModSource::Eg1 => 13,
        ModSource::Eg2 => 14,
        ModSource::Eg3 => 15,
        ModSource::Eg4 => 16,
        ModSource::Eg5 => 17,
        ModSource::Random => 18,
        ModSource::SampleAndHold => 19,
        ModSource::VariantFraction => 20,
        ModSource::PlaybackPosition => 21,
        ModSource::LoopFraction => 22,
        ModSource::IsGated => 23,
        ModSource::IsReleased => 24,
        ModSource::GroupAnyGated => 25,
        ModSource::GroupVoiceCount => 26,
        ModSource::ChannelPressure => 27,
        ModSource::ChannelVolume => 28,
        ModSource::Expression => 29,
        ModSource::Cc10Pan => 30,
        ModSource::MidiCc => 31,
    }
}

/// The source stored as `value`; numbers that name no source mean `NoSource`.
pub open spec fn mod_source_from_code(value: u8) -> ModSource {
    if value == 1 {
        ModSource::Velocity
    } else if value == 2 {
        ModSource::KeyTrack
    } else if value == 3 {
        ModSource::PitchBend
    } else if value == 4 {
        ModSource::ModWheel
    } else if value == 5 {
        ModSource::Pressure
    } else if value == 6 {
        ModSource::Timbre
    } else if value == 7 {
        ModSource::Lfo1
    } else if value == 8 {
        ModSource::Lfo2
    } else if value == 9 {
        ModSource::Lfo3
    } else if value == 10 {
        ModSource::Lfo4
    } else if value == 11 {
        ModSource::Lfo5
    } else if value == 12 {
        ModSource::Lfo6
    } else if value == 13 {
        ModSource::Eg1
    } else if value == 14 {
        ModSource::Eg2
    } else if value == 15 {
        ModSource::Eg3
    } else if value == 16 {
        ModSource::Eg4
    } else if value == 17 {
        ModSource::Eg5
    } else if value == 18 {
        ModSource::Random
    } else if value == 19 {
        ModSource::SampleAndHold
    } else if value == 20 {
        ModSource::VariantFraction
    } else if value == 21 {
        ModSource::PlaybackPosition
    } else if value == 22 {
        ModSource::LoopFraction
    } else if value == 23 {
        ModSource::IsGated
    } else if value == 24 {
        ModSource::IsReleased
    } else if value == 25 {
        ModSource::GroupAnyGated
    } else if value == 26 {
        ModSource::GroupVoiceCount
    } else if value == 27 {
        ModSource::ChannelPressure
    } else if value == 28 {
        ModSource::ChannelVolume
    } else if value == 29 {
        ModSource::Expression
    } else if value == 30 {
        ModSource::Cc10Pan
    } else if value == 31 {
        ModSource::MidiCc
    } else {
        ModSource::NoSource
    }
}

/// The name the editor shows for a modulation source.
pub open spec fn mod_source_label(s: ModSource) -> Seq<char> {
    match s {
        ModSource::NoSource => "None"@,
        ModSource::Velocity => "Velocity"@,
        ModSource::KeyTrack => "KeyTrack"@,
        ModSource::PitchBend => "PitchBend"@,
        ModSource::ModWheel => "ModWheel"@,
        ModSource::Pressure => "Pressure"@,
        ModSource::Timbre => "Timbre"@,
        ModSource::Lfo1 => "LFO 1"@,
        ModSource::Lfo2 => "LFO 2"@,
        ModSource::Lfo3 => "LFO 3"@,
        ModSource::Lfo4 => "LFO 4"@,
        ModSource::Lfo5 => "LFO 5"@,
        ModSource::Lfo6 => "LFO 6"@,
        ModSource::Eg1 => "EG 1"@,
        ModSource::Eg2 => "EG 2"@,
        ModSource::Eg3 => "EG 3"@,
        ModSource::Eg4 => "EG 4"@,
        ModSource::Eg5 => "EG 5"@,
        ModSource::Random => "Random"@,
        ModSource::SampleAndHold => "S&H"@,
        ModSource::VariantFraction => "Variant"@,
        ModSource::PlaybackPosition => "Playback"@,
        ModSource::LoopFraction => "Loop"@,
        ModSource::IsGated => "Gate"@,
        ModSource::IsReleased => "Release"@,
        ModSource::GroupAnyGated => "GroupGate"@,
        ModSource::GroupVoiceCount => "Voices"@,
        ModSource::ChannelPressure => "ChanPress"@,
        ModSource::ChannelVolume => "ChanVol"@,
        ModSource::Expression => "Expression"@,
        ModSource::Cc10Pan => "Pan CC10"@,
        ModSource::MidiCc => "CC"@,
    }
}

impl ModSource {
    /// The name the editor shows for this source.
    pub fn label(self) -> (s: &'static str)
        ensures
            s@ == mod_source_label(self),
    {
        match self {
            ModSource::NoSource => "None",
            ModSource::Velocity => "Velocity",
            ModSource::KeyTrack => "KeyTrack",
            ModSource::PitchBend => "PitchBend",
            ModSource::ModWheel => "ModWheel",
            ModSource::Pressure => "Pressure",
            ModSource::Timbre => "Timbre",
            ModSource::Lfo1 => "LFO 1",
            ModSource::Lfo2 => "LFO 2",
            ModSource::Lfo3 => "LFO 3",
            ModSource::Lfo4 => "LFO 4",
            ModSource::Lfo5 => "LFO 5",
            ModSource::Lfo6 => "LFO 6",
            ModSource::Eg1 => "EG 1",
            ModSource::Eg2 => "EG 2",
            ModSource::Eg3 => "EG 3",
            ModSource::Eg4 => "EG 4",
            ModSource::Eg5 => "EG 5",
            ModSource::Random => "Random",
            ModSource::SampleAndHold => "S&H",
            ModSource::VariantFraction => "Variant",
            ModSource::PlaybackPosition => "Playback",
            ModSource::LoopFraction => "Loop",
            ModSource::IsGated => "Gate",
            ModSource::IsReleased => "Release",
            ModSource::GroupAnyGated => "GroupGate",
            ModSource::GroupVoiceCount => "Voices",
            ModSource::ChannelPressure => "ChanPress",
            ModSource::ChannelVolume => "ChanVol",
            ModSource::Expression => "Expression",
            ModSource::Cc10Pan => "Pan CC10",
            ModSource::MidiCc => "CC",
        }
    }

    /// The sources offered for routing in the editor, in display order.
    pub fn all_routable() -> (r: [Self; 18])
        ensures
            r@ == spec_all_routable(),
    {
        [
            ModSource::Velocity,
            ModSource::KeyTrack,
            ModSource::PitchBend,
            ModSource::ModWheel,
            ModSource::Pressure,
            ModSource::ChannelPressure,
            ModSource::Expression,
            ModSource::Lfo1,
            ModSource::Lfo2,
            ModSource::Lfo3,
            ModSource::Lfo4,
            ModSource::Eg1,
            ModSource::Eg2,
            ModSource::Random,
            ModSource::PlaybackPosition,
            ModSource::IsGated,
            ModSource::IsReleased,
            ModSource::MidiCc,
        ]
    }

    /// Decodes a stored source number; unknown numbers give `NoSource`.
    pub fn from_u8(value: u8) -> (s: Self)
        ensures
            s == mod_source_from_code(value),
    {
        match value {
            1 => ModSource::Velocity,
            2 => ModSource::KeyTrack,
            3 => ModSource::PitchBend,
            4 => ModSource::ModWheel,
            5 => ModSource::Pressure,
            6 => ModSource::Timbre,
            7 => ModSource::Lfo1,
            8 => ModSource::Lfo2,
            9 => ModSource::Lfo3,
            10 => ModSource::Lfo4,
            11 => ModSource::Lfo5,
            12 => ModSource::Lfo6,
            13 => ModSource::Eg1,
            14 => ModSource::Eg2,
            15 => ModSource::Eg3,
            16 => ModSource::Eg4,
            17 => ModSource::Eg5,
            18 => ModSource::Random,
            19 => ModSource::SampleAndHold,
            20 => ModSource::VariantFraction,
            21 => ModSource::PlaybackPosition,
            22 => ModSource::LoopFraction,
            23 => ModSource::IsGated,
            24 => ModSource::IsReleased,
            25 => ModSource::GroupAnyGated,
            26 => ModSource::GroupVoiceCount,
            27 => ModSource::ChannelPressure,
            28 => ModSource::ChannelVolume,
            29 => ModSource::Expression,
            30 => ModSource::Cc10Pan,
            31 => ModSource::MidiCc,
            _ => ModSource::NoSource,
        }
    }

    /// The number this source is stored as.
    pub fn to_u8(self) -> (v: u8)
        ensures
            v == mod_source_code(self),
    {
        match self {
            ModSource::NoSource => 0,
            ModSource::Velocity => 1,
            ModSource::KeyTrack => 2,
            ModSource::PitchBend => 3,
            ModSource::ModWheel => 4,
            ModSource::Pressure => 5,
            ModSource::Timbre => 6,
            ModSource::Lfo1 => 7,
            ModSource::Lfo2 => 8,
            ModSource::Lfo3 => 9,
            ModSource::Lfo4 => 10,
            ModSource::Lfo5 => 11,
            ModSource::Lfo6 => 12,
            ModSource::Eg1 => 13,
            ModSource::Eg2 => 14,
            ModSource::Eg3 => 15,
            ModSource::Eg4 => 16,
            ModSource::Eg5 => 17,
            ModSource::Random => 18,
            ModSource::SampleAndHold => 19,
            ModSource::VariantFraction => 20,
            ModSource::PlaybackPosition => 21,
            ModSource::LoopFraction => 22,
            ModSource::IsGated => 23,
            ModSource::IsReleased => 24,
            ModSource::GroupAnyGated => 25,
            ModSource::GroupVoiceCount => 26,
            ModSource::ChannelPressure => 27,
            ModSource::ChannelVolume => 28,
            ModSource::Expression => 29,
            ModSource::Cc10Pan => 30,
            ModSource::MidiCc => 31,
        }
    }
}

/// The routable sources, in the order the editor lists them.
pub open spec fn spec_all_routable() -> Seq<ModSource> {
    seq![
        ModSource::Velocity,
        ModSource::KeyTrack,
        ModSource::PitchBend,
        ModSource::ModWheel,
        ModSource::Pressure,
        ModSource::ChannelPressure,
        ModSource::Expression,
        ModSource::Lfo1,
        ModSource::Lfo2,
        ModSource::Lfo3,
        ModSource::Lfo4,
        ModSource::Eg1,
        ModSource::Eg2,
        ModSource::Random,
        ModSource::PlaybackPosition,
        ModSource::IsGated,
        ModSource::IsReleased,
        ModSource::MidiCc,
    ]
}

/// A destination of a modulation route.
///
/// `NoTarget` is the unassigned destination.
#[derive(Debug, Clone, Copy, PartialEq, Eq, Structural)]
pub enum ModTarget {
    NoTarget,
    Amplitude,
    Pitch,
    FilterCutoff,
    FilterResonance,
    Pan,
    SampleStart,
    SampleOffset,
    Delay,
}

impl Default for ModTarget {
    fn default() -> (t: Self)
        ensures
            t == ModTarget::NoTarget,
    {
        ModTarget::NoTarget
    }
}

/// The number a target is stored as: its position in the declaration.
pub open spec fn mod_target_code(t: ModTarget) -> u8 {
    match t {
        ModTarget::NoTarget => 0,
        ModTarget::Amplitude => 1,
        ModTarget::Pitch => 2,
        ModTarget::FilterCutoff => 3,
        ModTarget::FilterResonance => 4,
        ModTarget::Pan => 5,
        ModTarget::SampleStart => 6,
        ModTarget::SampleOffset => 7,
        ModTarget::Delay => 8,
    }
}

/// The target stored as `value`; numbers that name no target mean `NoTarget`.
pub open spec fn mod_target_from_code(value: u8) -> ModTarget {
    if value == 1 {
        ModTarget::Amplitude
    } else if value == 2 {
        ModTarget::Pitch
    } else if value == 3 {
        ModTarget::FilterCutoff
    } else if value == 4 {
        ModTarget::FilterResonance
    } else if value == 5 {
        ModTarget::Pan
    } else if value == 6 {
        ModTarget::SampleStart
    } else if value == 7 {
        ModTarget::SampleOffset
    } else if value == 8 {
        ModTarget::Delay
    } else {
        ModTarget::NoTarget
    }
}

impl ModTarget {
    /// Decodes a stored target number; unknown numbers give `NoTarget`.
    pub fn from_u8(value: u8) -> (t: Self)
        ensures
            t == mod_target_from_code(value),
    {
        match value {
            1 => ModTarget::Amplitude,
            2 => ModTarget::Pitch,
            3 => ModTarget::FilterCutoff,
            4 => ModTarget::FilterResonance,
            5 => ModTarget::Pan,
            6 => ModTarget::SampleStart,
            7 => ModTarget::SampleOffset,
            8 => ModTarget::Delay,
            _ => ModTarget::NoTarget,
        }
    }

    /// The number this target is stored as.
    pub fn to_u8(self) -> (v: u8)
        ensures
            v == mod_target_code(self),
    {
        match self {
            ModTarget::NoTarget => 0,
            ModTarget::Amplitude => 1,
            ModTarget::Pitch => 2,
            ModTarget::FilterCutoff => 3,
            ModTarget::FilterResonance => 4,
            ModTarget::Pan => 5,
            ModTarget::SampleStart => 6,
            ModTarget::SampleOffset => 7,
            ModTarget::Delay => 8,
        }
    }
}

/// Storing a source as its number and decoding the number gives the source back.
pub proof fn lemma_mod_source_code_roundtrip(s: ModSource)
    ensures
        mod_source_from_code(mod_source_code(s)) == s,
{
}

/// Every number up to the last source decodes to the source stored as that number;
/// every larger number decodes to `NoSource`.
pub proof fn lemma_mod_source_decode_encode(value: u8)
    ensures
        value <= 31 ==> mod_source_code(mod_source_from_code(value)) == value,
        value > 31 ==> mod_source_from_code(value) == ModSource::NoSource,
{
}

/// Storing a target as its number and decoding the number gives the target back.
pub proof fn lemma_mod_target_code_roundtrip(t: ModTarget)
    ensures
        mod_target_from_code(mod_target_code(t)) == t,
{
}

/// Every number up to the last target decodes to the target stored as that number;
/// every larger number decodes to `NoTarget`.
pub proof fn lemma_mod_target_decode_encode(value: u8)
    ensures
        value <= 8 ==> mod_target_code(mod_target_from_code(value)) == value,
        value > 8 ==> mod_target_from_code(value) == ModTarget::NoTarget,
{
}

/// The routable sources are distinct and none of them is `NoSource`.
pub proof fn lemma_all_routable_distinct()
    ensures
        forall|i: int, j: int|
            0 <= i < j < spec_all_routable().len() ==> spec_all_routable()[i]
                != spec_all_routable()[j],
        forall|i: int|
            0 <= i < spec_all_routable().len() ==> spec_all_routable()[i] != ModSource::NoSource,
{
    assert forall|i: int, j: int|
        0 <= i < j < spec_all_routable().len() implies spec_all_routable()[i]
        != spec_all_routable()[j] by {
        assert(mod_source_code(spec_all_routable()[i]) != mod_source_code(spec_all_routable()[j]));
    }
}

} // verus!
