use vstd::prelude::*;

verus! {

/// An automatable parameter of the sampler, identified to the host by its index.
#[derive(Debug, Clone, Copy, PartialEq, Eq, Structural)]
pub enum ParamId {
    MasterGain,
    MasterPan,
    AmpAttack,
    AmpDecay,
    AmpSustain,
    AmpRelease,
    PitchBendUp,
    PitchBendDown,
    FilterType,
    FilterSubtype,
    FilterCutoff,
    FilterResonance,
    FilterEgAmount,
    FilterKeyTrack,
    FilterDrive,
    FilterEnabled,
    FilterAttack,
    FilterDecay,
    FilterSustain,
    FilterRelease,
    Eg2Attack,
    Eg2Decay,
    Eg2Sustain,
    Eg2Release,
    Eg3Attack,
    Eg3Decay,
    Eg3Sustain,
    Eg3Release,
    Eg4Attack,
    Eg4Decay,
    Eg4Sustain,
    Eg4Release,
    Eg5Attack,
    Eg5Decay,
    Eg5Sustain,
    Eg5Release,
    Lfo1Rate,
    Lfo1Amount,
    Lfo1Shape,
    Lfo1Enabled,
    Lfo1Deform,
    Lfo1Phase,
    Lfo1Trigger,
    Lfo1Unipolar,
    Lfo1SyncMode,
    Lfo2Rate,
    Lfo2Amount,
    Lfo2Shape,
    Lfo2Enabled,
    Lfo2Deform,
    Lfo2Phase,
    Lfo2Trigger,
    Lfo2Unipolar,
    Lfo2SyncMode,
    Lfo3Rate,
    Lfo3Amount,
    Lfo3Shape,
    Lfo3Enabled,
    Lfo3Deform,
    Lfo3Phase,
    Lfo3Trigger,
    Lfo3Unipolar,
    Lfo3SyncMode,
    Lfo4Rate,
    Lfo4Amount,
    Lfo4Shape,
    Lfo4Enabled,
    Lfo4Deform,
    Lfo4Phase,
    Lfo4Trigger,
    Lfo4Unipolar,
    Lfo4SyncMode,
    Lfo5Rate,
    Lfo5Amount,
    Lfo5Shape,
    Lfo5Enabled,
    Lfo5Deform,
    Lfo5Phase,
    Lfo5Trigger,
    Lfo5Unipolar,
    Lfo5SyncMode,
    Lfo6Rate,
    Lfo6Amount,
    Lfo6Shape,
    Lfo6Enabled,
    Lfo6Deform,
    Lfo6Phase,
    Lfo6Trigger,
    Lfo6Unipolar,
    Lfo6SyncMode,
    Filter2Type,
    Filter2Subtype,
    Filter2Cutoff,
    Filter2Resonance,
    Filter2EgAmount,
    Filter2KeyTrack,
    Filter2Drive,
    Filter2Enabled,
    ModRoute1Source,
    ModRoute1Target,
    ModRoute1Depth,
    ModRoute2Source,
    ModRoute2Target,
    ModRoute2Depth,
    ModRoute3Source,
    ModRoute3Target,
    ModRoute3Depth,
    ModRoute4Source,
    ModRoute4Target,
    ModRoute4Depth,
    ModRoute5Source,
    ModRoute5Target,
    ModRoute5Depth,
    ModRoute6Source,
    ModRoute6Target,
    ModRoute6Depth,
}

/// The number of parameters.
pub const PARAM_COUNT: usize = 116;

/// The index of a parameter: its position in the declaration.
pub open spec fn param_index(id: ParamId) -> int {
    match id {
        ParamId::MasterGain => 0,
        ParamId::MasterPan => 1,
        ParamId::AmpAttack => 2,
        ParamId::AmpDecay => 3,
        ParamId::AmpSustain => 4,
        ParamId::AmpRelease => 5,
        ParamId::PitchBendUp => 6,
        ParamId::PitchBendDown => 7,
        ParamId::FilterType => 8,
        ParamId::FilterSubtype => 9,
        ParamId::FilterCutoff => 10,
        ParamId::FilterResonance => 11,
        ParamId::FilterEgAmount => 12,
        ParamId::FilterKeyTrack => 13,
        ParamId::FilterDrive => 14,
        ParamId::FilterEnabled => 15,
        ParamId::FilterAttack => 16,
        ParamId::FilterDecay => 17,
        ParamId::FilterSustain => 18,
        ParamId::FilterRelease => 19,
        ParamId::Eg2Attack => 20,
        ParamId::Eg2Decay => 21,
        ParamId::Eg2Sustain => 22,
        ParamId::Eg2Release => 23,
        ParamId::Eg3Attack => 24,
        ParamId::Eg3Decay => 25,
        ParamId::Eg3Sustain => 26,
        ParamId::Eg3Release => 27,
        ParamId::Eg4Attack => 28,
        ParamId::Eg4Decay => 29,
        ParamId::Eg4Sustain => 30,
        ParamId::Eg4Release => 31,
        ParamId::Eg5Attack => 32,
        ParamId::Eg5Decay => 33,
        ParamId::Eg5Sustain => 34,
        ParamId::Eg5Release => 35,
        ParamId::Lfo1Rate => 36,
        ParamId::Lfo1Amount => 37,
        ParamId::Lfo1Shape => 38,
        ParamId::Lfo1Enabled => 39,
        ParamId::Lfo1Deform => 40,
        ParamId::Lfo1Phase => 41,
        ParamId::Lfo1Trigger => 42,
        ParamId::Lfo1Unipolar => 43,
        ParamId::Lfo1SyncMode => 44,
        ParamId::Lfo2Rate => 45,
        ParamId::Lfo2Amount => 46,
        ParamId::Lfo2Shape => 47,
        ParamId::Lfo2Enabled => 48,
        ParamId::Lfo2Deform => 49,
        ParamId::Lfo2Phase => 50,
        ParamId::Lfo2Trigger => 51,
        ParamId::Lfo2Unipolar => 52,
        ParamId::Lfo2SyncMode => 53,
        ParamId::Lfo3Rate => 54,
        ParamId::Lfo3Amount => 55,
        ParamId::Lfo3Shape => 56,
        ParamId::Lfo3Enabled => 57,
        ParamId::Lfo3Deform => 58,
        ParamId::Lfo3Phase => 59,
        ParamId::Lfo3Trigger => 60,
        ParamId::Lfo3Unipolar => 61,
        ParamId::Lfo3SyncMode => 62,
        ParamId::Lfo4Rate => 63,
        ParamId::Lfo4Amount => 64,
        ParamId::Lfo4Shape => 65,
        ParamId::Lfo4Enabled => 66,
        ParamId::Lfo4Deform => 67,
        ParamId::Lfo4Phase => 68,
        ParamId::Lfo4Trigger => 69,
        ParamId::Lfo4Unipolar => 70,
        ParamId::Lfo4SyncMode => 71,
        ParamId::Lfo5Rate => 72,
        ParamId::Lfo5Amount => 73,
        ParamId::Lfo5Shape => 74,
        ParamId::Lfo5Enabled => 75,
        ParamId::Lfo5Deform => 76,
        ParamId::Lfo5Phase => 77,
        ParamId::Lfo5Trigger => 78,
        ParamId::Lfo5Unipolar => 79,
        ParamId::Lfo5SyncMode => 80,
        ParamId::Lfo6Rate => 81,
        ParamId::Lfo6Amount => 82,
        ParamId::Lfo6Shape => 83,
        ParamId::Lfo6Enabled => 84,
        ParamId::Lfo6Deform => 85,
        ParamId::Lfo6Phase => 86,
        ParamId::Lfo6Trigger => 87,
        ParamId::Lfo6Unipolar => 88,
        ParamId::Lfo6SyncMode => 89,
        ParamId::Filter2Type => 90,
        ParamId::Filter2Subtype => 91,
        ParamId::Filter2Cutoff => 92,
        ParamId::Filter2Resonance => 93,
        ParamId::Filter2EgAmount => 94,
        ParamId::Filter2KeyTrack => 95,
        ParamId::Filter2Drive => 96,
        ParamId::Filter2Enabled => 97,
        ParamId::ModRoute1Source => 98,
        ParamId::ModRoute1Target => 99,
        ParamId::ModRoute1Depth => 100,
        ParamId::ModRoute2Source => 101,
        ParamId::ModRoute2Target => 102,
        ParamId::ModRoute2Depth => 103,
        ParamId::ModRoute3Source => 104,
        ParamId::ModRoute3Target => 105,
        ParamId::ModRoute3Depth => 106,
        ParamId::ModRoute4Source => 107,
        ParamId::ModRoute4Target => 108,
        ParamId::ModRoute4Depth => 109,
        ParamId::ModRoute5Source => 110,
        ParamId::ModRoute5Target => 111,
        ParamId::ModRoute5Depth => 112,
        ParamId::ModRoute6Source => 113,
        ParamId::ModRoute6Target => 114,
        ParamId::ModRoute6Depth => 115,
    }
}

/// The parameter whose index is `i`, for `i` below the count.
pub open spec fn param_at(i: int) -> ParamId
    recommends
        0 <= i < 116,
{
    if i == 0 {
        ParamId::MasterGain
    } else if i == 1 {
        ParamId::MasterPan
    } else if i == 2 {
        ParamId::AmpAttack
    } else if i == 3 {
        ParamId::AmpDecay
    } else if i == 4 {
        ParamId::AmpSustain
    } else if i == 5 {
        ParamId::AmpRelease
    } else if i == 6 {
        ParamId::PitchBendUp
    } else if i == 7 {
        ParamId::PitchBendDown
    } else if i == 8 {
        ParamId::FilterType
    } else if i == 9 {
        ParamId::FilterSubtype
    } else if i == 10 {
        ParamId::FilterCutoff
    } else if i == 11 {
        ParamId::FilterResonance
    } else if i == 12 {
        ParamId::FilterEgAmount
    } else if i == 13 {
        ParamId::FilterKeyTrack
    } else if i == 14 {
        ParamId::FilterDrive
    } else if i == 15 {
        ParamId::FilterEnabled
    } else if i == 16 {
        ParamId::FilterAttack
    } else if i == 17 {
        ParamId::FilterDecay
    } else if i == 18 {
        ParamId::FilterSustain
    } else if i == 19 {
        ParamId::FilterRelease
    } else if i == 20 {
        ParamId::Eg2Attack
    } else if i == 21 {
        ParamId::Eg2Decay
    } else if i == 22 {
        ParamId::Eg2Sustain
    } else if i == 23 {
        ParamId::Eg2Release
    } else if i == 24 {
        ParamId::Eg3Attack
    } else if i == 25 {
        ParamId::Eg3Decay
    } else if i == 26 {
        ParamId::Eg3Sustain
    } else if i == 27 {
        ParamId::Eg3Release
    } else if i == 28 {
        ParamId::Eg4Attack
    } else if i == 29 {
        ParamId::Eg4Decay
    } else if i == 30 {
        ParamId::Eg4Sustain
    } else if i == 31 {
        ParamId::Eg4Release
    } else if i == 32 {
        ParamId::Eg5Attack
    } else if i == 33 {
        ParamId::Eg5Decay
    } else if i == 34 {
        ParamId::Eg5Sustain
    } else if i == 35 {
        ParamId::Eg5Release
    } else if i == 36 {
        ParamId::Lfo1Rate
    } else if i == 37 {
        ParamId::Lfo1Amount
    } else if i == 38 {
        ParamId::Lfo1Shape
    } else if i == 39 {
        ParamId::Lfo1Enabled
    } else if i == 40 {
        ParamId::Lfo1Deform
    } else if i == 41 {
        ParamId::Lfo1Phase
    } else if i == 42 {
        ParamId::Lfo1Trigger
    } else if i == 43 {
        ParamId::Lfo1Unipolar
    } else if i == 44 {
        ParamId::Lfo1SyncMode
    } else if i == 45 {
        ParamId::Lfo2Rate
    } else if i == 46 {
        ParamId::Lfo2Amount
    } else if i == 47 {
        ParamId::Lfo2Shape
    } else if i == 48 {
        ParamId::Lfo2Enabled
    } else if i == 49 {
        ParamId::Lfo2Deform
    } else if i == 50 {
        ParamId::Lfo2Phase
    } else if i == 51 {
        ParamId::Lfo2Trigger
    } else if i == 52 {
        ParamId::Lfo2Unipolar
    } else if i == 53 {
        ParamId::Lfo2SyncMode
    } else if i == 54 {
        ParamId::Lfo3Rate
    } else if i == 55 {
        ParamId::Lfo3Amount
    } else if i == 56 {
        ParamId::Lfo3Shape
    } else if i == 57 {
        ParamId::Lfo3Enabled
    } else if i == 58 {
        ParamId::Lfo3Deform
    } else if i == 59 {
        ParamId::Lfo3Phase
    } else if i == 60 {
        ParamId::Lfo3Trigger
    } else if i == 61 {
        ParamId::Lfo3Unipolar
    } else if i == 62 {
        ParamId::Lfo3SyncMode
    } else if i == 63 {
        ParamId::Lfo4Rate
    } else if i == 64 {
        ParamId::Lfo4Amount
    } else if i == 65 {
        ParamId::Lfo4Shape
    } else if i == 66 {
        ParamId::Lfo4Enabled
    } else if i == 67 {
        ParamId::Lfo4Deform
    } else if i == 68 {
        ParamId::Lfo4Phase
    } else if i == 69 {
        ParamId::Lfo4Trigger
    } else if i == 70 {
        ParamId::Lfo4Unipolar
    } else if i == 71 {
        ParamId::Lfo4SyncMode
    } else if i == 72 {
        ParamId::Lfo5Rate
    } else if i == 73 {
        ParamId::Lfo5Amount
    } else if i == 74 {
        ParamId::Lfo5Shape
    } else if i == 75 {
        ParamId::Lfo5Enabled
    } else if i == 76 {
        ParamId::Lfo5Deform
    } else if i == 77 {
        ParamId::Lfo5Phase
    } else if i == 78 {
        ParamId::Lfo5Trigger
    } else if i == 79 {
        ParamId::Lfo5Unipolar
    } else if i == 80 {
        ParamId::Lfo5SyncMode
    } else if i == 81 {
        ParamId::Lfo6Rate
    } else if i == 82 {
        ParamId::Lfo6Amount
    } else if i == 83 {
        ParamId::Lfo6Shape
    } else if i == 84 {
        ParamId::Lfo6Enabled
    } else if i == 85 {
        ParamId::Lfo6Deform
    } else if i == 86 {
        ParamId::Lfo6Phase
    } else if i == 87 {
        ParamId::Lfo6Trigger
    } else if i == 88 {
        ParamId::Lfo6Unipolar
    } else if i == 89 {
        ParamId::Lfo6SyncMode
    } else if i == 90 {
        ParamId::Filter2Type
    } else if i == 91 {
        ParamId::Filter2Subtype
    } else if i == 92 {
        ParamId::Filter2Cutoff
    } else if i == 93 {
        ParamId::Filter2Resonance
    } else if i == 94 {
        ParamId::Filter2EgAmount
    } else if i == 95 {
        ParamId::Filter2KeyTrack
    } else if i == 96 {
        ParamId::Filter2Drive
    } else if i == 97 {
        ParamId::Filter2Enabled
    } else if i == 98 {
        ParamId::ModRoute1Source
    } else if i == 99 {
        ParamId::ModRoute1Target
    } else if i == 100 {
        ParamId::ModRoute1Depth
    } else if i == 101 {
        ParamId::ModRoute2Source
    } else if i == 102 {
        ParamId::ModRoute2Target
    } else if i == 103 {
        ParamId::ModRoute2Depth
    } else if i == 104 {
        ParamId::ModRoute3Source
    } else if i == 105 {
        ParamId::ModRoute3Target
    } else if i == 106 {
        ParamId::ModRoute3Depth
    } else if i == 107 {
        ParamId::ModRoute4Source
    } else if i == 108 {
        ParamId::ModRoute4Target
    } else if i == 109 {
        ParamId::ModRoute4Depth
    } else if i == 110 {
        ParamId::ModRoute5Source
    } else if i == 111 {
        ParamId::ModRoute5Target
    } else if i == 112 {
        ParamId::ModRoute5Depth
    } else if i == 113 {
        ParamId::ModRoute6Source
    } else if i == 114 {
        ParamId::ModRoute6Target
    } else {
        ParamId::ModRoute6Depth
    }
}

impl ParamId {
    /// The number of parameters.
    pub const COUNT: usize = 116;

    /// Every parameter, in index order.
    pub fn all() -> (ids: Vec<Self>)
        ensures
            ids@.len() == 116,
            forall|i: int| 0 <= i < 116 ==> ids@[i] == param_at(i),
            forall|i: int| 0 <= i < 116 ==> param_index(#[trigger] ids@[i]) == i,
    {
        let mut ids: Vec<Self> = Vec::new();
        let mut i: u32 = 0;
        while i < 116
            invariant
                i <= 116,
                ids@.len() == i,
                forall|k: int| 0 <= k < i ==> ids@[k] == param_at(k),
            decreases 116 - i,
        {
            let id = Self::from_raw(i);
            match id {
                Some(p) => {
                    ids.push(p);
                },
                None => {},
            }
            i = i + 1;
        }
        proof {
            assert forall|k: int| 0 <= k < 116 implies param_index(#[trigger] ids@[k]) == k by {
                lemma_param_at_index(k);
            }
        }
        ids
    }

    /// The index of this parameter.
    pub fn as_index(self) -> (i: usize)
        ensures
            i == param_index(self),
    {
        match self {
            ParamId::MasterGain => 0,
            ParamId::MasterPan => 1,
            ParamId::AmpAttack => 2,
            ParamId::AmpDecay => 3,
            ParamId::AmpSustain => 4,
            ParamId::AmpRelease => 5,
            ParamId::PitchBendUp => 6,
            ParamId::PitchBendDown => 7,
            ParamId::FilterType => 8,
            ParamId::FilterSubtype => 9,
            ParamId::FilterCutoff => 10,
            ParamId::FilterResonance => 11,
            ParamId::FilterEgAmount => 12,
            ParamId::FilterKeyTrack => 13,
            ParamId::FilterDrive => 14,
            ParamId::FilterEnabled => 15,
            ParamId::FilterAttack => 16,
            ParamId::FilterDecay => 17,
            ParamId::FilterSustain => 18,
            ParamId::FilterRelease => 19,
            ParamId::Eg2Attack => 20,
            ParamId::Eg2Decay => 21,
            ParamId::Eg2Sustain => 22,
            ParamId::Eg2Release => 23,
            ParamId::Eg3Attack => 24,
            ParamId::Eg3Decay => 25,
            ParamId::Eg3Sustain => 26,
            ParamId::Eg3Release => 27,
            ParamId::Eg4Attack => 28,
            ParamId::Eg4Decay => 29,
            ParamId::Eg4Sustain => 30,
            ParamId::Eg4Release => 31,
            ParamId::Eg5Attack => 32,
            ParamId::Eg5Decay => 33,
            ParamId::Eg5Sustain => 34,
            ParamId::Eg5Release => 35,
            ParamId::Lfo1Rate => 36,
            ParamId::Lfo1Amount => 37,
            ParamId::Lfo1Shape => 38,
            ParamId::Lfo1Enabled => 39,
            ParamId::Lfo1Deform => 40,
            ParamId::Lfo1Phase => 41,
            ParamId::Lfo1Trigger => 42,
            ParamId::Lfo1Unipolar => 43,
            ParamId::Lfo1SyncMode => 44,
            ParamId::Lfo2Rate => 45,
            ParamId::Lfo2Amount => 46,
            ParamId::Lfo2Shape => 47,
            ParamId::Lfo2Enabled => 48,
            ParamId::Lfo2Deform => 49,
            ParamId::Lfo2Phase => 50,
            ParamId::Lfo2Trigger => 51,
            ParamId::Lfo2Unipolar => 52,
            ParamId::Lfo2SyncMode => 53,
            ParamId::Lfo3Rate => 54,
            ParamId::Lfo3Amount => 55,
            ParamId::Lfo3Shape => 56,
            ParamId::Lfo3Enabled => 57,
            ParamId::Lfo3Deform => 58,
            ParamId::Lfo3Phase => 59,
            ParamId::Lfo3Trigger => 60,
            ParamId::Lfo3Unipolar => 61,
            ParamId::Lfo3SyncMode => 62,
            ParamId::Lfo4Rate => 63,
            ParamId::Lfo4Amount => 64,
            ParamId::Lfo4Shape => 65,
            ParamId::Lfo4Enabled => 66,
            ParamId::Lfo4Deform => 67,
            ParamId::Lfo4Phase => 68,
            ParamId::Lfo4Trigger => 69,
            ParamId::Lfo4Unipolar => 70,
            ParamId::Lfo4SyncMode => 71,
            ParamId::Lfo5Rate => 72,
            ParamId::Lfo5Amount => 73,
            ParamId::Lfo5Shape => 74,
            ParamId::Lfo5Enabled => 75,
            ParamId::Lfo5Deform => 76,
            ParamId::Lfo5Phase => 77,
            ParamId::Lfo5Trigger => 78,
            ParamId::Lfo5Unipolar => 79,
            ParamId::Lfo5SyncMode => 80,
            ParamId::Lfo6Rate => 81,
            ParamId::Lfo6Amount => 82,
            ParamId::Lfo6Shape => 83,
            ParamId::Lfo6Enabled => 84,
            ParamId::Lfo6Deform => 85,
            ParamId::Lfo6Phase => 86,
            ParamId::Lfo6Trigger => 87,
            ParamId::Lfo6Unipolar => 88,
            ParamId::Lfo6SyncMode => 89,
            ParamId::Filter2Type => 90,
            ParamId::Filter2Subtype => 91,
            ParamId::Filter2Cutoff => 92,
            ParamId::Filter2Resonance => 93,
            ParamId::Filter2EgAmount => 94,
            ParamId::Filter2KeyTrack => 95,
            ParamId::Filter2Drive => 96,
            ParamId::Filter2Enabled => 97,
            ParamId::ModRoute1Source => 98,
            ParamId::ModRoute1Target => 99,
            ParamId::ModRoute1Depth => 100,
            ParamId::ModRoute2Source => 101,
            ParamId::ModRoute2Target => 102,
            ParamId::ModRoute2Depth => 103,
            ParamId::ModRoute3Source => 104,
            ParamId::ModRoute3Target => 105,
            ParamId::ModRoute3Depth => 106,
            ParamId::ModRoute4Source => 107,
            ParamId::ModRoute4Target => 108,
            ParamId::ModRoute4Depth => 109,
            ParamId::ModRoute5Source => 110,
            ParamId::ModRoute5Target => 111,
            ParamId::ModRoute5Depth => 112,
            ParamId::ModRoute6Source => 113,
            ParamId::ModRoute6Target => 114,
            ParamId::ModRoute6Depth => 115,
        }
    }

    /// The parameter with index `id`, or `None` when `id` is not below the count.
    pub fn from_raw(id: u32) -> (r: Option<Self>)
        ensures
            id < 116 ==> r == Some(param_at(id as int)),
            id >= 116 ==> r is None,
    {
        match id {
            0 => Some(ParamId::MasterGain),
            1 => Some(ParamId::MasterPan),
            2 => Some(ParamId::AmpAttack),
            3 => Some(ParamId::AmpDecay),
            4 => Some(ParamId::AmpSustain),
            5 => Some(ParamId::AmpRelease),
            6 => Some(ParamId::PitchBendUp),
            7 => Some(ParamId::PitchBendDown),
            8 => Some(ParamId::FilterType),
            9 => Some(ParamId::FilterSubtype),
            10 => Some(ParamId::FilterCutoff),
            11 => Some(ParamId::FilterResonance),
            12 => Some(ParamId::FilterEgAmount),
            13 => Some(ParamId::FilterKeyTrack),
            14 => Some(ParamId::FilterDrive),
            15 => Some(ParamId::FilterEnabled),
            16 => Some(ParamId::FilterAttack),
            17 => Some(ParamId::FilterDecay),
            18 => Some(ParamId::FilterSustain),
            19 => Some(ParamId::FilterRelease),
            20 => Some(ParamId::Eg2Attack),
            21 => Some(ParamId::Eg2Decay),
            22 => Some(ParamId::Eg2Sustain),
            23 => Some(ParamId::Eg2Release),
            24 => Some(ParamId::Eg3Attack),
            25 => Some(ParamId::Eg3Decay),
            26 => Some(ParamId::Eg3Sustain),
            27 => Some(ParamId::Eg3Release),
            28 => Some(ParamId::Eg4Attack),
            29 => Some(ParamId::Eg4Decay),
            30 => Some(ParamId::Eg4Sustain),
            31 => Some(ParamId::Eg4Release),
            32 => Some(ParamId::Eg5Attack),
            33 => Some(ParamId::Eg5Decay),
            34 => Some(ParamId::Eg5Sustain),
            35 => Some(ParamId::Eg5Release),
            36 => Some(ParamId::Lfo1Rate),
            37 => Some(ParamId::Lfo1Amount),
            38 => Some(ParamId::Lfo1Shape),
            39 => Some(ParamId::Lfo1Enabled),
            40 => Some(ParamId::Lfo1Deform),
            41 => Some(ParamId::Lfo1Phase),
            42 => Some(ParamId::Lfo1Trigger),
            43 => Some(ParamId::Lfo1Unipolar),
            44 => Some(ParamId::Lfo1SyncMode),
            45 => Some(ParamId::Lfo2Rate),
            46 => Some(ParamId::Lfo2Amount),
            47 => Some(ParamId::Lfo2Shape),
            48 => Some(ParamId::Lfo2Enabled),
            49 => Some(ParamId::Lfo2Deform),
            50 => Some(ParamId::Lfo2Phase),
            51 => Some(ParamId::Lfo2Trigger),
            52 => Some(ParamId::Lfo2Unipolar),
            53 => Some(ParamId::Lfo2SyncMode),
            54 => Some(ParamId::Lfo3Rate),
            55 => Some(ParamId::Lfo3Amount),
            56 => Some(ParamId::Lfo3Shape),
            57 => Some(ParamId::Lfo3Enabled),
            58 => Some(ParamId::Lfo3Deform),
            59 => Some(ParamId::Lfo3Phase),
            60 => Some(ParamId::Lfo3Trigger),
            61 => Some(ParamId::Lfo3Unipolar),
            62 => Some(ParamId::Lfo3SyncMode),
            63 => Some(ParamId::Lfo4Rate),
            64 => Some(ParamId::Lfo4Amount),
            65 => Some(ParamId::Lfo4Shape),
            66 => Some(ParamId::Lfo4Enabled),
            67 => Some(ParamId::Lfo4Deform),
            68 => Some(ParamId::Lfo4Phase),
            69 => Some(ParamId::Lfo4Trigger),
            70 => Some(ParamId::Lfo4Unipolar),
            71 => Some(ParamId::Lfo4SyncMode),
            72 => Some(ParamId::Lfo5Rate),
            73 => Some(ParamId::Lfo5Amount),
            74 => Some(ParamId::Lfo5Shape),
            75 => Some(ParamId::Lfo5Enabled),
            76 => Some(ParamId::Lfo5Deform),
            77 => Some(ParamId::Lfo5Phase),
            78 => Some(ParamId::Lfo5Trigger),
            79 => Some(ParamId::Lfo5Unipolar),
            80 => Some(ParamId::Lfo5SyncMode),
            81 => Some(ParamId::Lfo6Rate),
            82 => Some(ParamId::Lfo6Amount),
            83 => Some(ParamId::Lfo6Shape),
            84 => Some(ParamId::Lfo6Enabled),
            85 => Some(ParamId::Lfo6Deform),
            86 => Some(ParamId::Lfo6Phase),
            87 => Some(ParamId::Lfo6Trigger),
            88 => Some(ParamId::Lfo6Unipolar),
            89 => Some(ParamId::Lfo6SyncMode),
            90 => Some(ParamId::Filter2Type),
            91 => Some(ParamId::Filter2Subtype),
            92 => Some(ParamId::Filter2Cutoff),
            93 => Some(ParamId::Filter2Resonance),
            94 => Some(ParamId::Filter2EgAmount),
            95 => Some(ParamId::Filter2KeyTrack),
            96 => Some(ParamId::Filter2Drive),
            97 => Some(ParamId::Filter2Enabled),
            98 => Some(ParamId::ModRoute1Source),
            99 => Some(ParamId::ModRoute1Target),
            100 => Some(ParamId::ModRoute1Depth),
            101 => Some(ParamId::ModRoute2Source),
            102 => Some(ParamId::ModRoute2Target),
            103 => Some(ParamId::ModRoute2Depth),
            104 => Some(ParamId::ModRoute3Source),
            105 => Some(ParamId::ModRoute3Target),
            106 => Some(ParamId::ModRoute3Depth),
            107 => Some(ParamId::ModRoute4Source),
            108 => Some(ParamId::ModRoute4Target),
            109 => Some(ParamId::ModRoute4Depth),
            110 => Some(ParamId::ModRoute5Source),
            111 => Some(ParamId::ModRoute5Target),
            112 => Some(ParamId::ModRoute5Depth),
            113 => Some(ParamId::ModRoute6Source),
            114 => Some(ParamId::ModRoute6Target),
            115 => Some(ParamId::ModRoute6Depth),
            _ => None,
        }
    }
}

/// Looking up a parameter by its own index gives the parameter back.
pub proof fn lemma_param_index_roundtrip(id: ParamId)
    ensures
        0 <= param_index(id) < 116,
        param_at(param_index(id)) == id,
{
}

/// A parameter's index is below the count, reading the index back (as `from_raw`
/// does) gives the parameter, and distinct parameters have distinct indices.
pub proof fn lemma_param_index_law(a: ParamId, b: ParamId)
    ensures
        0 <= param_index(a) < ParamId::COUNT,
        param_at(param_index(a)) == a,
        a != b ==> param_index(a) != param_index(b),
{
    lemma_param_index_roundtrip(a);
    lemma_param_index_roundtrip(b);
}

/// Every index below the count names the parameter with that index.
pub proof fn lemma_param_at_index(i: int)
    requires
        0 <= i < 116,
    ensures
        param_index(param_at(i)) == i,
{
}

} // verus!
