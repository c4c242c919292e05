use screenshot::checkpoint::canonical_checkpoints;
use screenshot::checkpoint::resolve_script;
use screenshot::checkpoint::ScriptedCheckpoint;
use screenshot::checkpoint::ScriptedWrite;
use screenshot::labels::LabelResolver;
use screenshot::sequencer::checkpoint_actions;
use screenshot::sequencer::capture_file_name;
use screenshot::sequencer::sequence;
use screenshot::sequencer::Action;

fn game_resolver() -> LabelResolver {
    let entries = vec![
        ("@mainLoop".to_string(), 0x81F0u16),
        ("gameMode".to_string(), 0x00C0u16),
        ("gameType".to_string(), 0x00C1u16),
        ("player1_startLevel".to_string(), 0x00C2u16),
        ("player1_startHeight".to_string(), 0x00C3u16),
    ];
    LabelResolver::load(entries).unwrap()
}

fn capture_names(actions: &[Action]) -> Vec<String> {
    actions
        .iter()
        .filter_map(|a| match a {
            Action::Capture { file_name } => Some(file_name.clone()),
            _ => None,
        })
        .collect()
}

#[test]
fn canonical_frame_counts_are_11_4_4_5_22() {
    let script = canonical_checkpoints();
    let counts: Vec<u32> = script.iter().map(|c| c.frames_to_advance).collect();
    assert_eq!(counts, vec![11, 4, 4, 5, 22]);
}

#[test]
fn canonical_first_checkpoint_only_bootstraps() {
    let script = canonical_checkpoints();
    assert!(script[0].register_override.is_none());
    assert!(script[0].memory_writes.is_empty());
}

#[test]
fn canonical_final_checkpoint_sets_four_variables() {
    let script = canonical_checkpoints();
    let writes: Vec<(String, u8)> = script[4]
        .memory_writes
        .iter()
        .map(|w| (w.label.clone(), w.value))
        .collect();
    assert_eq!(
        writes,
        vec![
            ("gameMode".to_string(), 4),
            ("gameType".to_string(), 1),
            ("player1_startLevel".to_string(), 18),
            ("player1_startHeight".to_string(), 5),
        ],
    );
}

#[test]
fn canonical_checkpoints_produce_expected_file_names() {
    let resolver = game_resolver();
    let actions = sequence(&resolver, &canonical_checkpoints(), "game").unwrap();
    assert_eq!(
        capture_names(&actions),
        vec![
            "game_legal.png".to_string(),
            "game_title.png".to_string(),
            "game_gamemenu.png".to_string(),
            "game_levelmenu.png".to_string(),
            "game_game.png".to_string(),
        ],
    );
}

#[test]
fn capture_file_name_joins_base_suffix_extension() {
    assert_eq!(capture_file_name("game", "_legal"), "game_legal.png");
    assert_eq!(capture_file_name("out/game", "_title"), "out/game_title.png");
}

#[test]
fn missing_label_fails_before_any_action() {
    let resolver = game_resolver();
    let mut script = canonical_checkpoints();
    script[1].memory_writes.push(ScriptedWrite {
        label: "@doesNotExist".to_string(),
        value: 1,
    });
    // The failure surfaces from resolution, before a single action — and so
    // before a single frame advance — is produced.
    let err = sequence(&resolver, &script, "game").unwrap_err();
    assert_eq!(err.name, "@doesNotExist");
}

#[test]
fn resolution_happens_for_all_checkpoints_up_front() {
    // A label missing from the *last* checkpoint alone still fails the run.
    let entries = vec![
        ("@mainLoop".to_string(), 0x81F0u16),
        ("gameMode".to_string(), 0x00C0u16),
    ];
    let resolver = LabelResolver::load(entries).unwrap();
    let err = sequence(&resolver, &canonical_checkpoints(), "game").unwrap_err();
    assert_eq!(err.name, "gameType");
}

#[test]
fn resolved_actions_follow_checkpoint_order() {
    let resolver = game_resolver();
    let script = vec![ScriptedCheckpoint {
        description: "one checkpoint".to_string(),
        frames_to_advance: 7,
        register_override: Some("@mainLoop".to_string()),
        memory_writes: vec![
            ScriptedWrite { label: "gameMode".to_string(), value: 3 },
            ScriptedWrite { label: "gameType".to_string(), value: 9 },
        ],
        capture_suffix: "_shot".to_string(),
    }];
    let actions = sequence(&resolver, &script, "game").unwrap();
    assert_eq!(
        actions,
        vec![
            Action::SetProgramCounter { address: 0x81F0 },
            Action::WriteMemory { address: 0x00C0, value: 3 },
            Action::WriteMemory { address: 0x00C1, value: 9 },
            Action::AdvanceFrames { frames: 7 },
            Action::Capture { file_name: "game_shot.png".to_string() },
        ],
    );
}

#[test]
fn checkpoint_without_override_emits_no_register_action() {
    let resolver = game_resolver();
    let script = canonical_checkpoints();
    let resolved = resolve_script(&resolver, &script).unwrap();
    let actions = checkpoint_actions(&resolved[0], "game");
    assert_eq!(
        actions,
        vec![
            Action::AdvanceFrames { frames: 11 },
            Action::Capture { file_name: "game_legal.png".to_string() },
        ],
    );
}

#[test]
fn canonical_plan_writes_accumulate_in_order() {
    // Writes are applied strictly in checkpoint order; no action between
    // checkpoints resets state, so earlier writes persist unless a later
    // checkpoint writes the same address again.
    let resolver = game_resolver();
    let actions = sequence(&resolver, &canonical_checkpoints(), "game").unwrap();
    let writes: Vec<(u16, u8)> = actions
        .iter()
        .filter_map(|a| match a {
            Action::WriteMemory { address, value } => Some((*address, *value)),
            _ => None,
        })
        .collect();
    assert_eq!(
        writes,
        vec![
            (0x00C0, 1),
            (0x00C0, 2),
            (0x00C0, 3),
            (0x00C0, 4),
            (0x00C1, 1),
            (0x00C2, 18),
            (0x00C3, 5),
        ],
    );
}

#[test]
fn canonical_plan_advances_and_captures_in_order() {
    let resolver = game_resolver();
    let actions = sequence(&resolver, &canonical_checkpoints(), "game").unwrap();
    let frames: Vec<u32> = actions
        .iter()
        .filter_map(|a| match a {
            Action::AdvanceFrames { frames } => Some(*frames),
            _ => None,
        })
        .collect();
    assert_eq!(frames, vec![11, 4, 4, 5, 22]);
    // Each capture follows its frame advance: the last action of the run is
    // the final capture.
    assert_eq!(
        actions.last().unwrap(),
        &Action::Capture { file_name: "game_game.png".to_string() },
    );
}
