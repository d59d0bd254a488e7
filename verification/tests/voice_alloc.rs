use maolan_sampler::voice_alloc::{choke_actions, choose_voice, VoiceAction, VoiceSlot};

fn v(active: bool, exclusive_group: u8, group: usize, part: usize) -> VoiceSlot {
    VoiceSlot { active, exclusive_group, group, part }
}

#[test]
fn exclusive_group_releases_and_off_by_stops() {
    let voices = vec![v(true, 1, 0, 0), v(true, 2, 0, 0), v(false, 1, 0, 0), v(true, 3, 0, 0)];
    assert_eq!(
        choke_actions(&voices, 1, 2),
        vec![VoiceAction::Release, VoiceAction::Stop, VoiceAction::Keep, VoiceAction::Keep]
    );
    assert_eq!(choke_actions(&voices, 0, 0), vec![VoiceAction::Keep; 4]);
    assert_eq!(choke_actions(&voices, 1, 1)[0], VoiceAction::Stop);
}

#[test]
fn free_voice_is_used_first_then_the_oldest_is_stolen() {
    let voices = vec![v(true, 0, 0, 0), v(false, 0, 0, 0), v(false, 0, 0, 0)];
    assert_eq!(choose_voice(&voices, 0, 0, 0, 0, 0), Some(1));
    let full = vec![v(true, 0, 0, 0), v(true, 0, 1, 0)];
    assert_eq!(choose_voice(&full, 0, 0, 0, 0, 0), Some(0));
    assert_eq!(choose_voice(&[], 0, 0, 1, 1, 1), None);
}

#[test]
fn group_part_and_global_limits_take_back_their_oldest_voice() {
    let voices = vec![
        v(true, 0, 0, 1),
        v(true, 0, 1, 0),
        v(true, 0, 2, 0),
        v(true, 0, 1, 0),
        v(false, 0, 0, 0),
    ];
    assert_eq!(choose_voice(&voices, 0, 1, 2, 0, 0), Some(1));
    assert_eq!(choose_voice(&voices, 0, 1, 3, 0, 0), Some(4));
    assert_eq!(choose_voice(&voices, 0, 2, 3, 3, 0), Some(1));
    assert_eq!(choose_voice(&voices, 0, 2, 0, 0, 4), Some(0));
    assert_eq!(choose_voice(&voices, 0, 2, 0, 0, 5), Some(4));
}

#[test]
fn global_limit_never_leaves_more_voices_playing() {
    let limit: usize = 2;
    let mut voices = vec![v(false, 0, 0, 0); 5];
    for note in 0..6 {
        let i = choose_voice(&voices, 0, note % 3, 0, 0, limit).unwrap();
        voices[i] = v(true, 0, note % 3, 0);
        assert!(voices.iter().filter(|s| s.active).count() <= limit);
    }
    assert_eq!(voices.iter().filter(|s| s.active).count(), 2);
}
