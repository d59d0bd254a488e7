//! The choices the instrument editor offers: the option lists of its pick lists,
//! how each option maps to the engine's modes and targets, and the fields and panels
//! that its messages name.

use vstd::prelude::*;
use crate::mod_matrix::ModTarget;
use crate::params::ParamId;
use crate::zone_modes::{CurveType, LoopMode, OffMode, SamplePlayMode};

verus! {

/// A numeric field of the zone editor.
#[derive(Debug, Clone, Copy, PartialEq, Eq, Structural)]
pub enum ZoneEditField {
    StartNote,
    EndNote,
    VelLow,
    VelHigh,
    RootKey,
    KeyFadeInLow,
    KeyFadeInHigh,
    KeyFadeOutLow,
    KeyFadeOutHigh,
    VelFadeInLow,
    VelFadeInHigh,
    VelFadeOutLow,
    VelFadeOutHigh,
    GainDb,
    Pan,
    Width,
    Position,
    AmpKeytrack,
    PitchOffset,
    KeyTracking,
    StartOffset,
    OffsetRandom,
    EndOffset,
    LoopStart,
    LoopEnd,
    LoopCrossfade,
    LoopCount,
    PitchBendUp,
    PitchBendDown,
    ChannelLow,
    ChannelHigh,
    PitchBendLow,
    PitchBendHigh,
    RandomLow,
    RandomHigh,
    SeqLength,
    SeqPosition,
    OffBy,
    Output,
    AmpVeltrack,
    Count,
}

/// A numeric field of the group editor.
#[derive(Debug, Clone, Copy, PartialEq, Eq, Structural)]
pub enum GroupEditField {
    PolyLimit,
    ExclusiveGroup,
    GainDb,
    Pan,
    Output,
    SwLast,
    SwDown,
    SwUp,
    SwPrevious,
    SwLoLast,
    SwHiLast,
    SwDefault,
}

/// An envelope, LFO or filter parameter of the group editor.
#[derive(Debug, Clone, Copy, PartialEq, Eq, Structural)]
pub enum GroupParamField {
    Eg1Attack,
    Eg1Decay,
    Eg1Sustain,
    Eg1Release,
    Eg2Attack,
    Eg2Decay,
    Eg2Sustain,
    Eg2Release,
    Lfo1Rate,
    Lfo1Amount,
    Lfo2Rate,
    Lfo2Amount,
    Lfo3Rate,
    Lfo3Amount,
    Lfo4Rate,
    Lfo4Amount,
    FilterCutoff,
    FilterResonance,
    FilterKeyTrack,
    FilterVelTrack,
}

/// A side panel of the editor window.
#[derive(Debug, Clone, Copy, PartialEq, Eq, Structural)]
pub enum SidePanel {
    Zones,
    Browser,
}

/// An edge of a zone rectangle on the key/velocity map.
#[derive(Debug, Clone, Copy, PartialEq, Eq, Structural)]
pub enum ZoneEdge {
    Start,
    End,
    Top,
    Bottom,
}

/// What is selected in the zone list: a zone by index or a group by name.
#[derive(Debug, Clone, PartialEq, Eq)]
pub enum ZoneListSelection {
    Zone(usize),
    Group(String),
}

/// What the "new" button of the zone list creates.
#[derive(Debug, Clone, Copy, PartialEq, Eq, Structural)]
pub enum ZoneCreateKind {
    Group,
    Zone,
}

impl ZoneCreateKind {
    /// The text shown for the choice.
    pub fn label(self) -> (s: &'static str)
        ensures
            s@ == (match self {
                ZoneCreateKind::Group => "Group"@,
                ZoneCreateKind::Zone => "Zone"@,
            }),
    {
        match self {
            ZoneCreateKind::Group => "Group",
            ZoneCreateKind::Zone => "Zone",
        }
    }
}

/// A modulation destination a MIDI CC can be routed to from the zone editor.
#[derive(Debug, Clone, Copy, PartialEq, Eq, Structural)]
pub enum CcModTargetOption {
    Volume,
    Pan,
    Tune,
    Cutoff,
    Resonance,
    Offset,
}

/// The engine target an editor CC option drives.
pub open spec fn cc_option_target(o: CcModTargetOption) -> ModTarget {
    match o {
        CcModTargetOption::Volume => ModTarget::Amplitude,
        CcModTargetOption::Pan => ModTarget::Pan,
        CcModTargetOption::Tune => ModTarget::Pitch,
        CcModTargetOption::Cutoff => ModTarget::FilterCutoff,
        CcModTargetOption::Resonance => ModTarget::FilterResonance,
        CcModTargetOption::Offset => ModTarget::SampleOffset,
    }
}

/// The editor CC option for an engine target, where the editor offers one.
pub open spec fn cc_option_of_target(t: ModTarget) -> Option<CcModTargetOption> {
    match t {
        ModTarget::Amplitude => Some(CcModTargetOption::Volume),
        ModTarget::Pan => Some(CcModTargetOption::Pan),
        ModTarget::Pitch => Some(CcModTargetOption::Tune),
        ModTarget::FilterCutoff => Some(CcModTargetOption::Cutoff),
        ModTarget::FilterResonance => Some(CcModTargetOption::Resonance),
        ModTarget::SampleOffset => Some(CcModTargetOption::Offset),
        ModTarget::NoTarget | ModTarget::SampleStart | ModTarget::Delay => None,
    }
}

impl CcModTargetOption {
    /// The options in the order the pick list shows them.
    pub fn all() -> (r: [Self; 6])
        ensures
            r@ == seq![
                CcModTargetOption::Volume,
                CcModTargetOption::Pan,
                CcModTargetOption::Tune,
                CcModTargetOption::Cutoff,
                CcModTargetOption::Resonance,
                CcModTargetOption::Offset,
            ],
    {
        let r = [Self::Volume, Self::Pan, Self::Tune, Self::Cutoff, Self::Resonance, Self::Offset];
        assert(r@ =~= seq![
            CcModTargetOption::Volume,
            CcModTargetOption::Pan,
            CcModTargetOption::Tune,
            CcModTargetOption::Cutoff,
            CcModTargetOption::Resonance,
            CcModTargetOption::Offset,
        ]);
        r
    }

    /// The engine target this option drives.
    pub fn target(self) -> (t: ModTarget)
        ensures
            t == cc_option_target(self),
    {
        match self {
            Self::Volume => ModTarget::Amplitude,
            Self::Pan => ModTarget::Pan,
            Self::Tune => ModTarget::Pitch,
            Self::Cutoff => ModTarget::FilterCutoff,
            Self::Resonance => ModTarget::FilterResonance,
            Self::Offset => ModTarget::SampleOffset,
        }
    }

    /// The option for an engine target; `None` for targets the editor does not offer.
    pub fn from_target(target: ModTarget) -> (o: Option<Self>)
        ensures
            o == cc_option_of_target(target),
    {
        match target {
            ModTarget::Amplitude => Some(Self::Volume),
            ModTarget::Pan => Some(Self::Pan),
            ModTarget::Pitch => Some(Self::Tune),
            ModTarget::FilterCutoff => Some(Self::Cutoff),
            ModTarget::FilterResonance => Some(Self::Resonance),
            ModTarget::SampleOffset => Some(Self::Offset),
            ModTarget::NoTarget | ModTarget::SampleStart | ModTarget::Delay => None,
        }
    }

    /// The text shown for the option.
    pub fn label(self) -> (s: &'static str)
        ensures
            s@ == (match self {
                CcModTargetOption::Volume => "Volume"@,
                CcModTargetOption::Pan => "Pan"@,
                CcModTargetOption::Tune => "Tune"@,
                CcModTargetOption::Cutoff => "Cutoff"@,
                CcModTargetOption::Resonance => "Resonance"@,
                CcModTargetOption::Offset => "Offset"@,
            }),
    {
        match self {
            Self::Volume => "Volume",
            Self::Pan => "Pan",
            Self::Tune => "Tune",
            Self::Cutoff => "Cutoff",
            Self::Resonance => "Resonance",
            Self::Offset => "Offset",
        }
    }
}

/// Each CC option maps to a distinct engine target and is found again from it; the
/// targets without an option are exactly "none", sample start and delay.
pub proof fn lemma_cc_option_target_roundtrip(o: CcModTargetOption, t: ModTarget)
    ensures
        cc_option_of_target(cc_option_target(o)) == Some(o),
        cc_option_of_target(t) matches Some(p) ==> cc_option_target(p) == t,
        cc_option_of_target(t) is None <==> (t == ModTarget::NoTarget || t == ModTarget::SampleStart
            || t == ModTarget::Delay),
{
}

/// The shape of a CC modulation curve as the zone editor offers it.
#[derive(Debug, Clone, Copy, PartialEq, Eq, Structural)]
pub enum CcCurveOption {
    Linear,
    Exponential,
    Logarithmic,
    SCurve,
    Custom,
}

impl CcCurveOption {
    /// The options in the order the pick list shows them.
    pub fn all() -> (r: [Self; 5])
        ensures
            r@ == seq![
                CcCurveOption::Linear,
                CcCurveOption::Exponential,
                CcCurveOption::Logarithmic,
                CcCurveOption::SCurve,
                CcCurveOption::Custom,
            ],
    {
        let r = [Self::Linear, Self::Exponential, Self::Logarithmic, Self::SCurve, Self::Custom];
        assert(r@ =~= seq![
            CcCurveOption::Linear,
            CcCurveOption::Exponential,
            CcCurveOption::Logarithmic,
            CcCurveOption::SCurve,
            CcCurveOption::Custom,
        ]);
        r
    }

    /// The text shown for the option.
    pub fn label(self) -> (s: &'static str)
        ensures
            s@ == (match self {
                CcCurveOption::Linear => "Linear"@,
                CcCurveOption::Exponential => "Exp"@,
                CcCurveOption::Logarithmic => "Log"@,
                CcCurveOption::SCurve => "S"@,
                CcCurveOption::Custom => "Custom"@,
            }),
    {
        match self {
            Self::Linear => "Linear",
            Self::Exponential => "Exp",
            Self::Logarithmic => "Log",
            Self::SCurve => "S",
            Self::Custom => "Custom",
        }
    }
}

/// The trigger mode of a zone as the zone editor offers it.
#[derive(Debug, Clone, Copy, PartialEq, Eq, Structural)]
pub enum ZonePlayModeOption {
    Attack,
    OneShot,
    Release,
    First,
    Legato,
}

pub open spec fn play_option_of_mode(m: SamplePlayMode) -> ZonePlayModeOption {
    match m {
        SamplePlayMode::OneShot => ZonePlayModeOption::OneShot,
        SamplePlayMode::OnRelease => ZonePlayModeOption::Release,
        SamplePlayMode::First => ZonePlayModeOption::First,
        SamplePlayMode::Legato => ZonePlayModeOption::Legato,
        SamplePlayMode::Normal => ZonePlayModeOption::Attack,
    }
}

pub open spec fn play_option_mode(o: ZonePlayModeOption) -> SamplePlayMode {
    match o {
        ZonePlayModeOption::Attack => SamplePlayMode::Normal,
        ZonePlayModeOption::OneShot => SamplePlayMode::OneShot,
        ZonePlayModeOption::Release => SamplePlayMode::OnRelease,
        ZonePlayModeOption::First => SamplePlayMode::First,
        ZonePlayModeOption::Legato => SamplePlayMode::Legato,
    }
}

impl ZonePlayModeOption {
    /// The options in the order the pick list shows them.
    pub fn all() -> (r: [Self; 5])
        ensures
            r@ == seq![
                ZonePlayModeOption::Attack,
                ZonePlayModeOption::OneShot,
                ZonePlayModeOption::Release,
                ZonePlayModeOption::First,
                ZonePlayModeOption::Legato,
            ],
    {
        let r = [Self::Attack, Self::OneShot, Self::Release, Self::First, Self::Legato];
        assert(r@ =~= seq![
            ZonePlayModeOption::Attack,
            ZonePlayModeOption::OneShot,
            ZonePlayModeOption::Release,
            ZonePlayModeOption::First,
            ZonePlayModeOption::Legato,
        ]);
        r
    }

    /// The option showing a zone's trigger mode.
    pub fn from_mode(mode: SamplePlayMode) -> (o: Self)
        ensures
            o == play_option_of_mode(mode),
    {
        match mode {
            SamplePlayMode::OneShot => Self::OneShot,
            SamplePlayMode::OnRelease => Self::Release,
            SamplePlayMode::First => Self::First,
            SamplePlayMode::Legato => Self::Legato,
            SamplePlayMode::Normal => Self::Attack,
        }
    }

    /// The trigger mode this option sets.
    pub fn mode(self) -> (m: SamplePlayMode)
        ensures
            m == play_option_mode(self),
    {
        match self {
            Self::Attack => SamplePlayMode::Normal,
            Self::OneShot => SamplePlayMode::OneShot,
            Self::Release => SamplePlayMode::OnRelease,
            Self::First => SamplePlayMode::First,
            Self::Legato => SamplePlayMode::Legato,
        }
    }

    /// The text shown for the option.
    pub fn label(self) -> (s: &'static str)
        ensures
            s@ == (match self {
                ZonePlayModeOption::Attack => "Attack"@,
                ZonePlayModeOption::OneShot => "One Shot"@,
                ZonePlayModeOption::Release => "Release"@,
                ZonePlayModeOption::First => "First"@,
                ZonePlayModeOption::Legato => "Legato"@,
            }),
    {
        match self {
            Self::Attack => "Attack",
            Self::OneShot => "One Shot",
            Self::Release => "Release",
            Self::First => "First",
            Self::Legato => "Legato",
        }
    }
}

/// Picking the option shown for a trigger mode sets that mode again, and showing the
/// mode an option sets shows that option.
pub proof fn lemma_play_option_roundtrip(o: ZonePlayModeOption, m: SamplePlayMode)
    ensures
        play_option_of_mode(play_option_mode(o)) == o,
        play_option_mode(play_option_of_mode(m)) == m,
{
}

/// The loop mode of a zone as the zone editor offers it.
#[derive(Debug, Clone, Copy, PartialEq, Eq, Structural)]
pub enum ZoneLoopModeOption {
    Off,
    Continuous,
    Sustain,
}

pub open spec fn loop_option_of_mode(m: LoopMode) -> ZoneLoopModeOption {
    match m {
        LoopMode::DuringVoice | LoopMode::Count => ZoneLoopModeOption::Continuous,
        LoopMode::WhileGated => ZoneLoopModeOption::Sustain,
        LoopMode::Off => ZoneLoopModeOption::Off,
    }
}

pub open spec fn loop_option_mode(o: ZoneLoopModeOption) -> LoopMode {
    match o {
        ZoneLoopModeOption::Off => LoopMode::Off,
        ZoneLoopModeOption::Continuous => LoopMode::DuringVoice,
        ZoneLoopModeOption::Sustain => LoopMode::WhileGated,
    }
}

impl ZoneLoopModeOption {
    /// The options in the order the pick list shows them.
    pub fn all() -> (r: [Self; 3])
        ensures
            r@ == seq![ZoneLoopModeOption::Off, ZoneLoopModeOption::Continuous, ZoneLoopModeOption::Sustain],
    {
        let r = [Self::Off, Self::Continuous, Self::Sustain];
        assert(r@ =~= seq![ZoneLoopModeOption::Off, ZoneLoopModeOption::Continuous, ZoneLoopModeOption::Sustain]);
        r
    }

    /// The option showing a zone's loop mode; a counted loop shows as continuous.
    pub fn from_mode(mode: LoopMode) -> (o: Self)
        ensures
            o == loop_option_of_mode(mode),
    {
        match mode {
            LoopMode::DuringVoice | LoopMode::Count => Self::Continuous,
            LoopMode::WhileGated => Self::Sustain,
            LoopMode::Off => Self::Off,
        }
    }

    /// The loop mode this option sets.
    pub fn mode(self) -> (m: LoopMode)
        ensures
            m == loop_option_mode(self),
    {
        match self {
            Self::Off => LoopMode::Off,
            Self::Continuous => LoopMode::DuringVoice,
            Self::Sustain => LoopMode::WhileGated,
        }
    }

    /// The text shown for the option.
    pub fn label(self) -> (s: &'static str)
        ensures
            s@ == (match self {
                ZoneLoopModeOption::Off => "Off"@,
                ZoneLoopModeOption::Continuous => "Continuous"@,
                ZoneLoopModeOption::Sustain => "Sustain"@,
            }),
    {
        match self {
            Self::Off => "Off",
            Self::Continuous => "Continuous",
            Self::Sustain => "Sustain",
        }
    }
}

/// Picking the option shown for a loop mode sets that mode again, except for a
/// counted loop, which becomes a continuous one; showing the mode an option sets
/// shows that option.
pub proof fn lemma_loop_option_roundtrip(o: ZoneLoopModeOption, m: LoopMode)
    ensures
        loop_option_of_mode(loop_option_mode(o)) == o,
        m != LoopMode::Count ==> loop_option_mode(loop_option_of_mode(m)) == m,
        loop_option_mode(loop_option_of_mode(LoopMode::Count)) == LoopMode::DuringVoice,
{
}

/// The crossfade curve of a zone as the zone editor offers it.
#[derive(Debug, Clone, Copy, PartialEq, Eq, Structural)]
pub enum ZoneCurveOption {
    Linear,
    Exponential,
    Logarithmic,
    SCurve,
}

pub open spec fn curve_option_of(c: CurveType) -> ZoneCurveOption {
    match c {
        CurveType::Exponential => ZoneCurveOption::Exponential,
        CurveType::Logarithmic => ZoneCurveOption::Logarithmic,
        CurveType::SCurve => ZoneCurveOption::SCurve,
        CurveType::Linear => ZoneCurveOption::Linear,
    }
}

pub open spec fn curve_option_curve(o: ZoneCurveOption) -> CurveType {
    match o {
        ZoneCurveOption::Linear => CurveType::Linear,
        ZoneCurveOption::Exponential => CurveType::Exponential,
        ZoneCurveOption::Logarithmic => CurveType::Logarithmic,
        ZoneCurveOption::SCurve => CurveType::SCurve,
    }
}

impl ZoneCurveOption {
    /// The options in the order the pick list shows them.
    pub fn all() -> (r: [Self; 4])
        ensures
            r@ == seq![
                ZoneCurveOption::Linear,
                ZoneCurveOption::Exponential,
                ZoneCurveOption::Logarithmic,
                ZoneCurveOption::SCurve,
            ],
    {
        let r = [Self::Linear, Self::Exponential, Self::Logarithmic, Self::SCurve];
        assert(r@ =~= seq![
            ZoneCurveOption::Linear,
            ZoneCurveOption::Exponential,
            ZoneCurveOption::Logarithmic,
            ZoneCurveOption::SCurve,
        ]);
        r
    }

    /// The option showing a crossfade curve.
    pub fn from_curve(curve: CurveType) -> (o: Self)
        ensures
            o == curve_option_of(curve),
    {
        match curve {
            CurveType::Exponential => Self::Exponential,
            CurveType::Logarithmic => Self::Logarithmic,
            CurveType::SCurve => Self::SCurve,
            CurveType::Linear => Self::Linear,
        }
    }

    /// The crossfade curve this option sets.
    pub fn curve(self) -> (c: CurveType)
        ensures
            c == curve_option_curve(self),
    {
        match self {
            Self::Linear => CurveType::Linear,
            Self::Exponential => CurveType::Exponential,
            Self::Logarithmic => CurveType::Logarithmic,
            Self::SCurve => CurveType::SCurve,
        }
    }

    /// The text shown for the option.
    pub fn label(self) -> (s: &'static str)
        ensures
            s@ == (match self {
                ZoneCurveOption::Linear => "Linear"@,
                ZoneCurveOption::Exponential => "Exponential"@,
                ZoneCurveOption::Logarithmic => "Logarithmic"@,
                ZoneCurveOption::SCurve => "S-Curve"@,
            }),
    {
        match self {
            Self::Linear => "Linear",
            Self::Exponential => "Exponential",
            Self::Logarithmic => "Logarithmic",
            Self::SCurve => "S-Curve",
        }
    }
}

/// The crossfade curve options and the curves correspond one to one.
pub proof fn lemma_curve_option_roundtrip(o: ZoneCurveOption, c: CurveType)
    ensures
        curve_option_of(curve_option_curve(o)) == o,
        curve_option_curve(curve_option_of(c)) == c,
{
}

/// The note-off mode of a zone as the zone editor offers it.
#[derive(Debug, Clone, Copy, PartialEq, Eq, Structural)]
pub enum ZoneOffModeOption {
    Fast,
    Normal,
}

pub open spec fn off_option_of_mode(m: OffMode) -> ZoneOffModeOption {
    match m {
        OffMode::Normal => ZoneOffModeOption::Normal,
        OffMode::Fast => ZoneOffModeOption::Fast,
    }
}

pub open spec fn off_option_mode(o: ZoneOffModeOption) -> OffMode {
    match o {
        ZoneOffModeOption::Fast => OffMode::Fast,
        ZoneOffModeOption::Normal => OffMode::Normal,
    }
}

impl ZoneOffModeOption {
    /// The options in the order the pick list shows them.
    pub fn all() -> (r: [Self; 2])
        ensures
            r@ == seq![ZoneOffModeOption::Fast, ZoneOffModeOption::Normal],
    {
        let r = [Self::Fast, Self::Normal];
        assert(r@ =~= seq![ZoneOffModeOption::Fast, ZoneOffModeOption::Normal]);
        r
    }

    /// The option showing a note-off mode.
    pub fn from_mode(mode: OffMode) -> (o: Self)
        ensures
            o == off_option_of_mode(mode),
    {
        match mode {
            OffMode::Normal => Self::Normal,
            OffMode::Fast => Self::Fast,
        }
    }

    /// The note-off mode this option sets.
    pub fn mode(self) -> (m: OffMode)
        ensures
            m == off_option_mode(self),
    {
        match self {
            Self::Fast => OffMode::Fast,
            Self::Normal => OffMode::Normal,
        }
    }

    /// The text shown for the option.
    pub fn label(self) -> (s: &'static str)
        ensures
            s@ == (match self {
                ZoneOffModeOption::Fast => "Fast"@,
                ZoneOffModeOption::Normal => "Normal"@,
            }),
    {
        match self {
            Self::Fast => "Fast",
            Self::Normal => "Normal",
        }
    }
}

/// The note-off options and the note-off modes correspond one to one.
pub proof fn lemma_off_option_roundtrip(o: ZoneOffModeOption, m: OffMode)
    ensures
        off_option_of_mode(off_option_mode(o)) == o,
        off_option_mode(off_option_of_mode(m)) == m,
{
}

/// Which envelope the group editor's envelope panel shows.
#[derive(Debug, Clone, Copy, PartialEq, Eq, Structural)]
pub enum EgSelectorOption {
    Amp,
    Filter,
    Pitch,
    Eg1,
    Eg2,
    Eg3,
}

/// The position of an envelope choice in the selector.
pub open spec fn eg_index(o: EgSelectorOption) -> nat {
    match o {
        EgSelectorOption::Amp => 0,
        EgSelectorOption::Filter => 1,
        EgSelectorOption::Pitch => 2,
        EgSelectorOption::Eg1 => 3,
        EgSelectorOption::Eg2 => 4,
        EgSelectorOption::Eg3 => 5,
    }
}

/// The envelope choices in selector order.
pub open spec fn eg_options() -> Seq<EgSelectorOption> {
    seq![
        EgSelectorOption::Amp,
        EgSelectorOption::Filter,
        EgSelectorOption::Pitch,
        EgSelectorOption::Eg1,
        EgSelectorOption::Eg2,
        EgSelectorOption::Eg3,
    ]
}

impl EgSelectorOption {
    /// The position of this choice in the selector.
    pub fn index(self) -> (i: usize)
        ensures
            i == eg_index(self),
    {
        match self {
            EgSelectorOption::Amp => 0,
            EgSelectorOption::Filter => 1,
            EgSelectorOption::Pitch => 2,
            EgSelectorOption::Eg1 => 3,
            EgSelectorOption::Eg2 => 4,
            EgSelectorOption::Eg3 => 5,
        }
    }

    /// The choice at a position of the selector; `None` past the last.
    pub fn from_index(index: usize) -> (o: Option<Self>)
        ensures
            o == (if index < 6 { Some(eg_options()[index as int]) } else { None::<EgSelectorOption> }),
    {
        match index {
            0 => Some(EgSelectorOption::Amp),
            1 => Some(EgSelectorOption::Filter),
            2 => Some(EgSelectorOption::Pitch),
            3 => Some(EgSelectorOption::Eg1),
            4 => Some(EgSelectorOption::Eg2),
            5 => Some(EgSelectorOption::Eg3),
            _ => None,
        }
    }

    /// The text shown for the choice.
    pub fn label(self) -> (s: &'static str)
        ensures
            s@ == (match self {
                EgSelectorOption::Amp => "Amp"@,
                EgSelectorOption::Filter => "Filter"@,
                EgSelectorOption::Pitch => "Pitch"@,
                EgSelectorOption::Eg1 => "EG 1"@,
                EgSelectorOption::Eg2 => "EG 2"@,
                EgSelectorOption::Eg3 => "EG 3"@,
            }),
    {
        match self {
            EgSelectorOption::Amp => "Amp",
            EgSelectorOption::Filter => "Filter",
            EgSelectorOption::Pitch => "Pitch",
            EgSelectorOption::Eg1 => "EG 1",
            EgSelectorOption::Eg2 => "EG 2",
            EgSelectorOption::Eg3 => "EG 3",
        }
    }

    /// The choices in selector order.
    pub fn all() -> (r: [Self; 6])
        ensures
            r@ == eg_options(),
    {
        let r = [
            EgSelectorOption::Amp,
            EgSelectorOption::Filter,
            EgSelectorOption::Pitch,
            EgSelectorOption::Eg1,
            EgSelectorOption::Eg2,
            EgSelectorOption::Eg3,
        ];
        assert(r@ =~= eg_options());
        r
    }
}

/// Every envelope choice stands in the selector at its index, and the choice read
/// back from that index is the same one.
pub proof fn lemma_eg_index_roundtrip(o: EgSelectorOption)
    ensures
        eg_index(o) < 6,
        eg_options()[eg_index(o) as int] == o,
{
}

/// The engine target a parameter's LFO assignment drives, where it has one.
pub open spec fn param_mod_target(id: ParamId) -> Option<ModTarget> {
    match id {
        ParamId::MasterGain => Some(ModTarget::Amplitude),
        ParamId::MasterPan => Some(ModTarget::Pan),
        ParamId::FilterCutoff | ParamId::Filter2Cutoff => Some(ModTarget::FilterCutoff),
        ParamId::FilterResonance | ParamId::Filter2Resonance => Some(ModTarget::FilterResonance),
        _ => None,
    }
}

/// The engine target a parameter's LFO assignment drives: gain and pan of the
/// master, cutoff and resonance of either filter; `None` for other parameters.
pub fn mod_target_for_param(id: ParamId) -> (t: Option<ModTarget>)
    ensures
        t == param_mod_target(id),
{
    match id {
        ParamId::MasterGain => Some(ModTarget::Amplitude),
        ParamId::MasterPan => Some(ModTarget::Pan),
        ParamId::FilterCutoff | ParamId::Filter2Cutoff => Some(ModTarget::FilterCutoff),
        ParamId::FilterResonance | ParamId::Filter2Resonance => Some(ModTarget::FilterResonance),
        _ => None,
    }
}

/// A filter response.
#[derive(Debug, Clone, Copy, PartialEq, Eq, Structural)]
pub enum FilterType {
    Lowpass,
    Highpass,
    Bandpass,
    Notch,
    Peak,
    Allpass,
    LowShelf,
    HighShelf,
    Bell,
}

/// A filter's saturation character.
#[derive(Debug, Clone, Copy, PartialEq, Eq, Structural)]
pub enum FilterSubtype {
    Clean,
    MildDrive,
    HeavyDrive,
    Asymmetric,
    SoftClip,
    SineSat,
    Ojd,
}

/// The filter responses the editor offers, in display order.
pub fn filter_type_options() -> (r: [FilterType; 9])
    ensures
        r@ == seq![
            FilterType::Lowpass,
            FilterType::Highpass,
            FilterType::Bandpass,
            FilterType::Notch,
            FilterType::Peak,
            FilterType::Allpass,
            FilterType::LowShelf,
            FilterType::HighShelf,
            FilterType::Bell,
        ],
{
    let r = [
        FilterType::Lowpass,
        FilterType::Highpass,
        FilterType::Bandpass,
        FilterType::Notch,
        FilterType::Peak,
        FilterType::Allpass,
        FilterType::LowShelf,
        FilterType::HighShelf,
        FilterType::Bell,
    ];
    assert(r@ =~= seq![
        FilterType::Lowpass,
        FilterType::Highpass,
        FilterType::Bandpass,
        FilterType::Notch,
        FilterType::Peak,
        FilterType::Allpass,
        FilterType::LowShelf,
        FilterType::HighShelf,
        FilterType::Bell,
    ]);
    r
}

/// The filter saturation characters the editor offers, in display order.
pub fn filter_subtype_options() -> (r: [FilterSubtype; 7])
    ensures
        r@ == seq![
            FilterSubtype::Clean,
            FilterSubtype::MildDrive,
            FilterSubtype::HeavyDrive,
            FilterSubtype::Asymmetric,
            FilterSubtype::SoftClip,
            FilterSubtype::SineSat,
            FilterSubtype::Ojd,
        ],
{
    let r = [
        FilterSubtype::Clean,
        FilterSubtype::MildDrive,
        FilterSubtype::HeavyDrive,
        FilterSubtype::Asymmetric,
        FilterSubtype::SoftClip,
        FilterSubtype::SineSat,
        FilterSubtype::Ojd,
    ];
    assert(r@ =~= seq![
        FilterSubtype::Clean,
        FilterSubtype::MildDrive,
        FilterSubtype::HeavyDrive,
        FilterSubtype::Asymmetric,
        FilterSubtype::SoftClip,
        FilterSubtype::SineSat,
        FilterSubtype::Ojd,
    ]);
    r
}

} // verus!
