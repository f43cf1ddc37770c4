use rdum::{
    key_command, pattern_file_name, proto_message_to_command, track_name, web_command, ChokeGrp, Command,
    CommandMessage, DecodeError, Division, Pattern, ProtoArgs, Track, WebArgs,
};

#[test]
fn choke_grp_membership() {
    let mut g = ChokeGrp::new(vec![0, 3]);
    assert!(g.is_member(3));
    assert!(!g.is_member(1));
    g.add_track(1);
    g.add_track(1);
    assert_eq!(g.track_ids, vec![0, 3, 1]);
    assert_eq!(g.get_choked_ids(3), vec![0, 1]);
    assert_eq!(g.get_choked_ids(7), Vec::<usize>::new());
    g.remove_track(3);
    assert_eq!(g.track_ids, vec![0, 1]);
    g.remove_track(9);
    assert_eq!(g.track_ids, vec![0, 1]);
}

#[test]
fn pattern_choked_ids_across_groups() {
    let mut p = Pattern::new("P".to_string(), Division::E);
    for path in ["a.wav", "b.wav", "c.wav", "d.wav"] {
        p.add_track(4, path.to_string());
    }
    p.add_choke_grp(ChokeGrp::new(vec![0, 1]));
    p.add_choke_grp(ChokeGrp::new(vec![0, 2, 1]));
    let mut ids = p.get_choked_ids(0);
    ids.sort();
    assert_eq!(ids, vec![1, 2]);
    assert_eq!(p.get_choked_ids(3), Vec::<usize>::new());
    assert!(p.is_trk_choked(&vec![0], 2));
    assert!(!p.is_trk_choked(&vec![0], 0));
    assert!(!p.is_trk_choked(&vec![3], 0));
    assert!(p.is_trk_choked(&vec![3, 1], 0));
}

#[test]
fn track_names_from_paths() {
    assert_eq!(track_name("kit0/open_hat.wav"), "open_hat");
    assert_eq!(track_name("kick.wav"), "kick");
    assert_eq!(track_name("kick"), "kick");
    assert_eq!(track_name("a.b/c.d.e"), "c");
    assert_eq!(track_name("dir/"), "");
}

#[test]
fn track_operations() {
    let mut t = Track::new(4, "kit0/snare.wav".to_string());
    assert_eq!(t.name, "snare");
    assert_eq!(t.len, 4);
    t.set_slots(&vec![9, 8, 7, 6, 5, 4]);
    let v: Vec<u8> = t.slots.iter().map(|s| s.velocity).collect();
    assert_eq!(v, vec![9, 8, 7, 6]);
    t.set_slot(1, 100);
    assert_eq!(t.current_velocity(), 9);
    t.advance();
    assert_eq!(t.current_velocity(), 100);
    t.reset_slots();
    assert!(t.slots.iter().all(|s| s.velocity == 0));
    assert_eq!(t.idx, 1);
    t.reset_playhead();
    assert_eq!(t.idx, 0);
}

#[test]
fn saved_file_names() {
    assert_eq!(pattern_file_name("Pattern 1", 0x1234abcd), "Pattern_1-1234abcd.json");
    assert_eq!(pattern_file_name("my  beat", 0xffff_ffff_0000_000a), "my__beat-ffffffff.json");
    assert_eq!(pattern_file_name("P", 0x1234_5678_9abc_def0), "P-12345678.json");
    assert_eq!(pattern_file_name("P", 0x1_2345_6789), "P-12345678.json");
    assert_eq!(pattern_file_name("short", 0xabc), "short-00000abc.json");
    assert_eq!(pattern_file_name("", 0), "-00000000.json");
}

#[test]
fn division_values() {
    assert_eq!(Division::from_value(12), Some(Division::SD));
    assert_eq!(Division::from_value(5), None);
    assert_eq!(Division::from(32i64), Division::T);
    assert_eq!(Division::from(7i64), Division::W);
    assert_eq!(Division::E.value(), 8);
    assert_eq!(Division::E.step(), 12);
    assert_eq!(Division::T.step(), 3);
}

#[test]
fn web_requests() {
    let mut a = WebArgs::default();
    assert!(matches!(web_command("play_sequencer", &a), Ok(Command::PlaySequencer)));
    assert!(matches!(web_command("set_tempo", &a), Err(DecodeError::MissingArgument)));
    a.bpm = Some(140);
    assert!(matches!(web_command("set_tempo", &a), Ok(Command::SetTempo(140))));
    a.bpm = Some(-1);
    assert!(matches!(web_command("set_tempo", &a), Err(DecodeError::OutOfRange)));
    a.division = Some(16);
    assert!(matches!(web_command("set_division", &a), Ok(Command::SetDivision(Division::S))));
    a.division = Some(5);
    assert!(matches!(web_command("set_division", &a), Err(DecodeError::OutOfRange)));
    a.track_id = Some(2);
    a.slot_id = Some(3);
    a.velocity = Some(127);
    assert!(matches!(web_command("set_slot_velocity", &a), Ok(Command::SetSlotVelocity(2, 3, 127))));
    a.velocity = Some(300);
    assert!(matches!(web_command("play_sound", &a), Err(DecodeError::OutOfRange)));
    a.filename = Some("beat-0000000a.json".to_string());
    match web_command("load_pattern", &a) {
        Ok(Command::LoadPattern(f)) => assert_eq!(f, "beat-0000000a.json"),
        other => panic!("unexpected {:?}", other),
    }
    assert!(matches!(web_command("dance", &a), Err(DecodeError::InvalidCommandType)));
    assert!(matches!(web_command("add_track", &a), Err(DecodeError::MissingArgument)));
}

#[test]
fn binary_requests() {
    let m = CommandMessage { command_type: 3, args: Some(ProtoArgs::Tempo(120)) };
    assert!(matches!(proto_message_to_command(&m), Ok(Command::SetTempo(120))));
    let m = CommandMessage { command_type: 3, args: Some(ProtoArgs::Swing(1)) };
    assert!(matches!(proto_message_to_command(&m), Err(DecodeError::MissingArgument)));
    let m = CommandMessage { command_type: 3, args: Some(ProtoArgs::Tempo(70_000)) };
    assert!(matches!(proto_message_to_command(&m), Err(DecodeError::OutOfRange)));
    let m = CommandMessage { command_type: 10, args: Some(ProtoArgs::PatternIndex(1)) };
    assert!(matches!(proto_message_to_command(&m), Ok(Command::SelectPattern(1))));
    let m = CommandMessage { command_type: 9, args: Some(ProtoArgs::PatternIndex(1)) };
    assert!(matches!(proto_message_to_command(&m), Ok(Command::RemovePattern(1))));
    let m = CommandMessage {
        command_type: 6,
        args: Some(ProtoArgs::SlotArgs { track_index: 1, slot_index: 2, velocity: 64 }),
    };
    assert!(matches!(proto_message_to_command(&m), Ok(Command::SetSlotVelocity(1, 2, 64))));
    let m = CommandMessage { command_type: 0, args: None };
    assert!(matches!(proto_message_to_command(&m), Err(DecodeError::InvalidCommandType)));
    let m = CommandMessage { command_type: 99, args: None };
    assert!(matches!(proto_message_to_command(&m), Err(DecodeError::InvalidCommandType)));
    let m = CommandMessage { command_type: 4, args: Some(ProtoArgs::Division(24)) };
    assert!(matches!(proto_message_to_command(&m), Ok(Command::SetDivision(Division::TD))));
    let m = CommandMessage {
        command_type: 18,
        args: Some(ProtoArgs::TrackSampleArgs { track_index: 0, sample_path: "kit0/hat.wav".to_string() }),
    };
    match proto_message_to_command(&m) {
        Ok(Command::SetTrackSample(0, p)) => assert_eq!(p, "kit0/hat.wav"),
        other => panic!("unexpected {:?}", other),
    }
}

#[test]
fn keyboard_commands() {
    assert!(matches!(key_command('2', false, 3), Some(Command::PlaySound(2, 127))));
    assert!(key_command('3', false, 3).is_none());
    assert!(matches!(key_command('p', false, 0), Some(Command::PlaySequencer)));
    assert!(matches!(key_command('p', true, 0), Some(Command::StopSequencer)));
    assert!(key_command('x', true, 9).is_none());
}

#[test]
fn choke_group_editing() {
    let mut p = Pattern::new("P".to_string(), Division::E);
    p.add_track(4, "a.wav".to_string());
    p.add_track(4, "b.wav".to_string());
    p.add_track(4, "c.wav".to_string());
    p.add_choke_grp(ChokeGrp::new(vec![0]));
    assert!(p.add_track_to_grp(0, 2));
    assert!(p.add_track_to_grp(0, 2));
    assert_eq!(p.choke_grps[0].track_ids, vec![0, 2]);
    assert!(p.is_trk_choked(&vec![2], 0));
    assert!(p.remove_track_from_grp(0, 0));
    assert_eq!(p.choke_grps[0].track_ids, vec![2]);
    assert!(!p.is_trk_choked(&vec![2], 0));
    assert!(!p.add_track_to_grp(3, 1));
    assert!(!p.remove_choke_grp(1));
    assert!(p.remove_choke_grp(0));
    assert!(p.choke_grps.is_empty());
}

#[test]
fn sample_listing_names() {
    assert_eq!(rdum::sample_entry(Some("kit0"), "hat.wav"), "kit0/hat.wav");
    assert_eq!(rdum::sample_entry(None, "hat.wav"), "hat.wav");
}

#[test]
fn sample_directory_listing() {
    let entries = vec![
        rdum::SampleDirEntry::File("clap.wav".to_string()),
        rdum::SampleDirEntry::Kit("kit0".to_string(), vec!["hat.wav".to_string(), "kick.wav".to_string()]),
        rdum::SampleDirEntry::Kit("empty".to_string(), vec![]),
        rdum::SampleDirEntry::File("rim.wav".to_string()),
    ];
    assert_eq!(
        rdum::sample_listing(&entries),
        vec!["clap.wav", "kit0/hat.wav", "kit0/kick.wav", "rim.wav"]
    );
    assert!(rdum::sample_listing(&vec![]).is_empty());
}
