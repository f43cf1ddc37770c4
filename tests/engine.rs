use rdum::{
    beat_tick, pulse_interval, ChokeGrp, Command, Context, Division, Effect, FileType, Sequencer,
    MIDI_CLOCK, MIDI_START, MIDI_STOP, PPB,
};

fn triggers(effects: &[Effect]) -> Vec<(usize, u8)> {
    effects
        .iter()
        .filter_map(|e| match e {
            Effect::Trigger { track_id, velocity } => Some((*track_id, *velocity)),
            _ => None,
        })
        .collect()
}

fn one_track_engine(len: usize, vels: &[u8]) -> Context {
    let mut ctx = Context::new();
    ctx.set_tempo(120);
    ctx.set_division(Division::Q);
    ctx.add_track("kit0/kick.wav".to_string());
    assert!(ctx.set_track_length(0, len));
    for (i, v) in vels.iter().enumerate() {
        assert!(ctx.set_slot_velocity(0, i, *v));
    }
    ctx
}

#[test]
fn tempo_120_pulse_interval_and_beat_spacing() {
    assert_eq!(pulse_interval(120), 20_833_333);
    assert_eq!(Division::Q.step(), 24);
    assert_eq!(PPB, 96);
    let ctx = Context::new();
    assert_eq!(ctx.pulse_interval, 20_833_333);
    let beats: Vec<u8> = (0..PPB).filter(|p| beat_tick(*p, Division::Q, 0)).collect();
    assert_eq!(beats, vec![0, 24, 48, 72]);
}

#[test]
fn four_on_the_floor_triggers_every_quarter() {
    let mut ctx = one_track_engine(4, &[127, 127, 127, 127]);
    let mut seq = Sequencer::new();
    ctx.enable_play();
    let mut fired_at = vec![];
    let mut idx_after = vec![];
    for _ in 0..PPB {
        let pulse = seq.pulse_idx;
        let effects = seq.play_next(&mut ctx);
        let t = triggers(&effects);
        if !t.is_empty() {
            assert_eq!(t, vec![(0, 127)]);
            fired_at.push(pulse);
            idx_after.push(ctx.snapshot(0).trks[0].idx);
        }
    }
    assert_eq!(fired_at, vec![0, 24, 48, 72]);
    assert_eq!(idx_after, vec![1, 2, 3, 0]);
    // pulse times in milliseconds, from the pulse interval
    let times: Vec<u64> = fired_at.iter().map(|p| *p as u64 * ctx.pulse_interval / 1_000_000).collect();
    assert_eq!(times, vec![0, 499, 999, 1499]);
    assert_eq!(seq.pulse_idx, 0);
}

#[test]
fn midi_clock_each_pulse_when_connected() {
    let mut ctx = one_track_engine(4, &[0, 0, 0, 0]);
    ctx.midi_connected = true;
    let mut seq = Sequencer::new();
    assert_eq!(ctx.enable_play(), vec![Effect::Midi(MIDI_START)]);
    for _ in 0..5 {
        assert_eq!(seq.play_next(&mut ctx), vec![Effect::Midi(MIDI_CLOCK)]);
    }
}

#[test]
fn pattern_switch_waits_for_bar() {
    let mut ctx = one_track_engine(3, &[127, 0, 0]);
    ctx.apply_command(&Command::AddPattern);
    assert_eq!(ctx.patterns.len(), 2);
    assert_eq!(ctx.pattern_id, 1);
    ctx.apply_command(&Command::SelectPattern(0));
    assert_eq!(ctx.pattern_id, 0);
    let mut seq = Sequencer::new();
    ctx.enable_play();
    while seq.pulse_idx != 37 {
        seq.play_next(&mut ctx);
    }
    // pattern B's playhead is moved away from the start to see the reset
    ctx.patterns[1].tracks[0].idx = 2;
    ctx.apply_command(&Command::SelectPattern(1));
    assert_eq!(ctx.pattern_id, 0);
    assert_eq!(ctx.queued_pattern_id, 1);
    while seq.pulse_idx != 0 {
        seq.play_next(&mut ctx);
        assert_eq!(ctx.pattern_id, 0);
    }
    seq.play_next(&mut ctx);
    assert_eq!(ctx.pattern_id, 1);
    // reset to 0 at the bar, then the downbeat moved it on by one
    assert_eq!(ctx.patterns[1].tracks[0].idx, 1);
}

#[test]
fn choke_group_triggers_then_silences_tails() {
    let mut ctx = Context::new();
    ctx.set_division(Division::Q);
    ctx.add_track("kit0/open_hat.wav".to_string());
    ctx.add_track("kit0/closed_hat.wav".to_string());
    assert_eq!(ctx.patterns[0].tracks[0].name, "open_hat");
    assert_eq!(ctx.patterns[0].tracks[1].name, "closed_hat");
    ctx.patterns[0].add_choke_grp(ChokeGrp::new(vec![0, 1]));
    assert!(ctx.set_slot_velocity(0, 0, 127));
    assert!(ctx.set_slot_velocity(1, 0, 127));
    ctx.enable_play();
    let mut seq = Sequencer::new();
    let effects = seq.play_next(&mut ctx);
    assert_eq!(
        effects,
        vec![
            Effect::Trigger { track_id: 0, velocity: 127 },
            Effect::Trigger { track_id: 1, velocity: 127 },
            Effect::Choke { track_id: 0 },
            Effect::Choke { track_id: 1 },
        ]
    );
}

#[test]
fn choke_only_hits_other_members() {
    let mut ctx = Context::new();
    ctx.set_division(Division::Q);
    for p in ["a.wav", "b.wav", "c.wav"] {
        ctx.add_track(p.to_string());
    }
    ctx.patterns[0].add_choke_grp(ChokeGrp::new(vec![0, 2]));
    assert!(ctx.set_slot_velocity(0, 0, 100));
    ctx.enable_play();
    let mut seq = Sequencer::new();
    let effects = seq.play_next(&mut ctx);
    assert_eq!(
        effects,
        vec![Effect::Trigger { track_id: 0, velocity: 100 }, Effect::Choke { track_id: 2 }]
    );
}

#[test]
fn play_sound_auditions_with_choke() {
    let mut ctx = Context::new();
    ctx.add_track("a.wav".to_string());
    ctx.add_track("b.wav".to_string());
    ctx.patterns[0].add_choke_grp(ChokeGrp::new(vec![0, 1]));
    let effects = ctx.apply_command(&Command::PlaySound(1, 90));
    assert_eq!(
        effects,
        vec![Effect::Trigger { track_id: 1, velocity: 90 }, Effect::Choke { track_id: 0 }]
    );
    assert_eq!(ctx.patterns[0].tracks[1].idx, 0);
    assert!(ctx.apply_command(&Command::PlaySound(5, 90)).is_empty());
}

#[test]
fn save_load_restores_pattern() {
    let mut ctx = Context::new();
    ctx.set_division(Division::S);
    ctx.add_track("kit0/kick.wav".to_string());
    ctx.add_track("kit0/snare.wav".to_string());
    assert!(ctx.set_track_length(0, 4));
    assert!(ctx.set_track_length(1, 6));
    ctx.patterns[0].tracks[0].set_slots(&vec![127, 0, 64, 0]);
    ctx.patterns[0].tracks[1].set_slots(&vec![0, 0, 127, 0, 0, 47]);
    ctx.patterns[0].add_choke_grp(ChokeGrp::new(vec![0, 1]));
    let saved = ctx.saved_pattern();

    ctx.set_division(Division::E);
    assert!(ctx.set_pattern_length(3));
    ctx.patterns[0].zero_all_tracks();
    assert!(ctx.patterns[0].remove_choke_grp(0));

    let effects = ctx.load_pattern(&saved);
    assert!(effects.is_empty());
    let p = &ctx.patterns[0];
    assert_eq!(p.name, "Pattern 1");
    assert_eq!(p.division, Division::S);
    assert_eq!(p.tracks.len(), 2);
    let vels: Vec<u8> = p.tracks[0].slots.iter().map(|s| s.velocity).collect();
    assert_eq!(vels, vec![127, 0, 64, 0]);
    let vels: Vec<u8> = p.tracks[1].slots.iter().map(|s| s.velocity).collect();
    assert_eq!(vels, vec![0, 0, 127, 0, 0, 47]);
    assert_eq!(p.tracks[0].len, 4);
    assert_eq!(p.tracks[1].len, 6);
    assert_eq!(p.tracks[1].sample_path, "kit0/snare.wav");
    assert_eq!(p.choke_grps.len(), 1);
    assert_eq!(p.choke_grps[0].track_ids, vec![0, 1]);
    assert_eq!(ctx.saved_pattern().tracks.len(), saved.tracks.len());
}

#[test]
fn load_while_playing_sends_start_and_skips_bad_tracks() {
    let mut ctx = Context::new();
    ctx.midi_connected = true;
    ctx.add_track("kit0/kick.wav".to_string());
    let mut saved = ctx.saved_pattern();
    saved.tracks.push(rdum::SavedTrack { slots: vec![], sample_path: "empty.wav".to_string() });
    ctx.enable_play();
    let effects = ctx.load_pattern(&saved);
    assert_eq!(effects, vec![Effect::Midi(MIDI_START)]);
    assert_eq!(ctx.patterns[0].tracks.len(), 1);
}

#[test]
fn stop_sends_midi_stop_and_resets() {
    let mut ctx = one_track_engine(4, &[127, 0, 0, 0]);
    ctx.midi_connected = true;
    let mut seq = Sequencer::new();
    ctx.enable_play();
    for _ in 0..30 {
        seq.play_next(&mut ctx);
    }
    assert_ne!(seq.pulse_idx, 0);
    assert_ne!(ctx.patterns[0].tracks[0].idx, 0);
    let effects = ctx.apply_command(&Command::StopSequencer);
    assert_eq!(effects, vec![Effect::Midi(MIDI_STOP)]);
    assert!(!ctx.playing);
    let effects = seq.play_next(&mut ctx);
    assert!(effects.is_empty());
    assert_eq!(seq.pulse_idx, 0);
    assert_eq!(ctx.patterns[0].tracks[0].idx, 0);
    assert_eq!(ctx.pattern_id, 0);
}

#[test]
fn latency_average_shortens_sleep() {
    let mut seq = Sequencer::new();
    let interval = pulse_interval(120);
    let mut sleeps = vec![];
    for k in 0..40 {
        let elapsed = if k % 2 == 0 { 8_000_000 } else { 0 };
        seq.set_latency(elapsed, interval);
        sleeps.push(seq.sleep_interval);
    }
    let last_two = (sleeps[38] + sleeps[39]) / 2;
    let target = interval - 4_000_000;
    assert!(last_two.abs_diff(target) < 100_000);
    // mean realised period: processing time plus sleep
    let mut total = 0u64;
    for k in 20..40 {
        let elapsed = if k % 2 == 0 { 8_000_000 } else { 0 };
        total += elapsed + sleeps[k];
    }
    let mean = total / 20;
    assert!(mean.abs_diff(interval) < 1_000_000);
}

#[test]
fn latency_formula_exact() {
    let mut seq = Sequencer::new();
    seq.set_latency(8_000_000, 20_833_333);
    assert_eq!(seq.latency, 4_000_000);
    assert_eq!(seq.sleep_interval, 16_833_333);
    seq.set_latency(0, 20_833_333);
    assert_eq!(seq.latency, 2_000_000);
    seq.set_latency(u64::MAX, 1_000);
    assert_eq!(seq.latency as u128, (2_000_000u128 + u64::MAX as u128) / 2);
    assert_eq!(seq.sleep_interval, 0);
}

#[test]
fn set_tempo_twice_same_interval() {
    let mut ctx = Context::new();
    ctx.apply_command(&Command::SetTempo(90));
    let once = ctx.pulse_interval;
    ctx.apply_command(&Command::SetTempo(90));
    assert_eq!(ctx.pulse_interval, once);
    assert_eq!(once, 27_777_777);
    assert_eq!(ctx.tempo, 90);
    ctx.apply_command(&Command::SetTempo(301));
    assert_eq!(ctx.tempo, 90);
    ctx.apply_command(&Command::SetTempo(19));
    assert_eq!(ctx.tempo, 90);
    ctx.apply_command(&Command::SetTempo(300));
    assert_eq!(ctx.pulse_interval, 8_333_333);
}

#[test]
fn add_then_remove_pattern_restores_list() {
    let mut ctx = one_track_engine(4, &[127, 0, 127, 0]);
    let before: Vec<String> = ctx.patterns.iter().map(|p| p.name.clone()).collect();
    ctx.apply_command(&Command::AddPattern);
    assert_eq!(ctx.patterns[1].name, "Pattern 2");
    let vels: Vec<u8> = ctx.patterns[1].tracks[0].slots.iter().map(|s| s.velocity).collect();
    assert_eq!(vels, vec![0, 0, 0, 0]);
    assert_eq!(ctx.pattern_id, 1);
    ctx.apply_command(&Command::RemovePattern(1));
    let after: Vec<String> = ctx.patterns.iter().map(|p| p.name.clone()).collect();
    assert_eq!(before, after);
    let vels: Vec<u8> = ctx.patterns[0].tracks[0].slots.iter().map(|s| s.velocity).collect();
    assert_eq!(vels, vec![127, 0, 127, 0]);
    assert_eq!(ctx.pattern_id, 0);
}

#[test]
fn add_pattern_while_playing_is_queued() {
    let mut ctx = Context::new();
    ctx.enable_play();
    ctx.apply_command(&Command::AddPattern);
    assert_eq!(ctx.pattern_id, 0);
    assert_eq!(ctx.queued_pattern_id, 1);
}

#[test]
fn remove_last_pattern_refused() {
    let mut ctx = Context::new();
    assert!(!ctx.remove_pattern(0));
    assert_eq!(ctx.patterns.len(), 1);
    ctx.apply_command(&Command::AddPattern);
    assert!(!ctx.remove_pattern(7));
    assert!(ctx.remove_pattern(0));
    assert_eq!(ctx.patterns.len(), 1);
    assert_eq!(ctx.pattern_id, 0);
    assert_eq!(ctx.patterns[0].name, "Pattern 2");
}

#[test]
fn grow_track_pads_with_silence() {
    let mut ctx = one_track_engine(4, &[1, 2, 3, 4]);
    assert!(ctx.set_track_length(0, 6));
    let vels: Vec<u8> = ctx.patterns[0].tracks[0].slots.iter().map(|s| s.velocity).collect();
    assert_eq!(vels, vec![1, 2, 3, 4, 0, 0]);
    assert_eq!(ctx.patterns[0].tracks[0].len, 6);
}

#[test]
fn shrink_track_truncates_and_wraps_playhead() {
    let mut ctx = one_track_engine(8, &[1, 2, 3, 4, 5, 6, 7, 8]);
    ctx.patterns[0].tracks[0].idx = 7;
    assert!(ctx.apply_command(&Command::SetTrackLength(0, 3)).is_empty());
    let t = &ctx.patterns[0].tracks[0];
    let vels: Vec<u8> = t.slots.iter().map(|s| s.velocity).collect();
    assert_eq!(vels, vec![1, 2, 3]);
    assert_eq!(t.idx, 1);
    assert_eq!(t.len, 3);
    assert!(!ctx.set_track_length(0, 0));
    assert!(!ctx.set_track_length(3, 2));
}

#[test]
fn select_while_stopped_switches_and_resets() {
    let mut ctx = one_track_engine(4, &[1, 0, 0, 0]);
    ctx.apply_command(&Command::AddPattern);
    ctx.patterns[0].tracks[0].idx = 3;
    ctx.apply_command(&Command::SelectPattern(0));
    assert_eq!(ctx.pattern_id, 0);
    assert_eq!(ctx.queued_pattern_id, 0);
    assert_eq!(ctx.patterns[0].tracks[0].idx, 0);
    ctx.apply_command(&Command::SelectPattern(9));
    assert_eq!(ctx.pattern_id, 0);
}

#[test]
fn invalid_commands_change_nothing() {
    let mut ctx = one_track_engine(4, &[1, 0, 0, 0]);
    assert!(!ctx.set_slot_velocity(0, 4, 10));
    assert!(!ctx.set_slot_velocity(0, 0, 128));
    assert!(!ctx.set_slot_velocity(2, 0, 10));
    assert!(!ctx.set_swing(101));
    assert!(ctx.set_swing(100));
    assert_eq!(ctx.swing, 100);
    assert!(!ctx.set_pattern_length(0));
    assert!(!ctx.set_track_sample(4, "x.wav".to_string()));
    assert!(ctx.set_track_sample(0, "kit1/snare.wav".to_string()));
    assert_eq!(ctx.patterns[0].tracks[0].name, "snare");
    assert_eq!(ctx.patterns[0].tracks[0].slots[0].velocity, 1);
}

#[test]
fn io_commands_become_effects() {
    let mut ctx = Context::new();
    assert_eq!(ctx.apply_command(&Command::SavePattern), vec![Effect::SavePattern]);
    assert_eq!(ctx.apply_command(&Command::LoadPattern("p.json".to_string())), vec![Effect::LoadPattern]);
    assert_eq!(ctx.apply_command(&Command::ListPatterns), vec![Effect::ListFiles(FileType::Pattern)]);
    assert_eq!(ctx.apply_command(&Command::ListSamples), vec![Effect::ListFiles(FileType::Sample)]);
    assert!(ctx.apply_command(&Command::Unspecified).is_empty());
    assert!(ctx.apply_command(&Command::PlaySequencer).is_empty());
    assert!(ctx.playing);
}

#[test]
fn swing_delays_every_second_beat() {
    let beats: Vec<u8> = (0..PPB).filter(|p| beat_tick(*p, Division::Q, 100)).collect();
    assert_eq!(beats, vec![0, 36, 48, 84]);
    let beats: Vec<u8> = (0..PPB).filter(|p| beat_tick(*p, Division::Q, 50)).collect();
    assert_eq!(beats, vec![0, 30, 48, 78]);
}

#[test]
fn invariants_hold_through_a_session() {
    let mut ctx = one_track_engine(5, &[127, 0, 64, 0, 10]);
    let mut seq = Sequencer::new();
    ctx.apply_command(&Command::PlaySequencer);
    for k in 0..500usize {
        if k % 97 == 0 {
            ctx.apply_command(&Command::AddPattern);
        }
        if k % 131 == 0 {
            ctx.apply_command(&Command::SetTrackLength(0, 1 + k % 7));
        }
        if k % 173 == 0 {
            ctx.apply_command(&Command::RemovePattern(0));
        }
        seq.play_next(&mut ctx);
        assert!(seq.pulse_idx < PPB);
        assert!(!ctx.patterns.is_empty());
        assert!(ctx.pattern_id < ctx.patterns.len());
        assert!(ctx.queued_pattern_id < ctx.patterns.len());
        for p in &ctx.patterns {
            for t in &p.tracks {
                assert!(t.idx < t.len);
                assert_eq!(t.len, t.slots.len());
            }
        }
    }
}

#[test]
fn stopped_at_bar_start_still_resets_playheads() {
    let mut ctx = one_track_engine(3, &[127, 0, 0]);
    let mut seq = Sequencer::new();
    ctx.enable_play();
    for _ in 0..PPB {
        seq.play_next(&mut ctx);
    }
    // one bar of four beats on a track of three slots
    assert_eq!(seq.pulse_idx, 0);
    assert_eq!(ctx.patterns[0].tracks[0].idx, 1);
    ctx.apply_command(&Command::StopSequencer);
    let effects = seq.play_next(&mut ctx);
    assert!(effects.is_empty());
    assert_eq!(seq.pulse_idx, 0);
    assert_eq!(ctx.patterns[0].tracks[0].idx, 0);
}

#[test]
fn audition_at_velocity_zero_still_triggers_and_chokes() {
    let mut ctx = Context::new();
    ctx.add_track("a.wav".to_string());
    ctx.add_track("b.wav".to_string());
    ctx.patterns[0].add_choke_grp(ChokeGrp::new(vec![0, 1]));
    let effects = ctx.apply_command(&Command::PlaySound(0, 0));
    assert_eq!(
        effects,
        vec![Effect::Trigger { track_id: 0, velocity: 0 }, Effect::Choke { track_id: 1 }]
    );
    assert!(ctx.apply_command(&Command::PlaySound(0, 128)).is_empty());
}
