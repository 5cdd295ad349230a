use std::collections::HashSet;

use h2ac_rs::catalog::{BuiltinStratagem, PLUGIN_SLOT_MARK};
use h2ac_rs::config::{
    hotkey_conflicts, migrated_hotkey, sanitize_loadout, slot_bindings, SLOT_COUNT,
};
use h2ac_rs::executor::{
    default_key_bindings, lookup_scancode, scancode_of_lowered, stratagem_key_actions, KeyAction,
};
use h2ac_rs::loadout_sync::catalog_bridge::{
    entries_of_kind, normalized_current_key, reference_id_aliases, resolve_current_key,
    resolve_item_id, IconCatalog,
};
use h2ac_rs::loadout_sync::controller::{
    advance_begin, check_deadlines, direct_select_verdict, max_iterations, plan_from_resolved,
    run_step, window_found, StepWork,
    selection_lines, session_plan, stage_timeout_ms, state_after_error, terminal_status,
    wall_clock_budget_ms, MachineCore, Reporter, ResolvedItem, RunAction, StepOutcome,
    SyncState,
};
use h2ac_rs::loadout_sync::direct_select::classify::{cell_kind_for, home_cell_kind_for};
use h2ac_rs::loadout_sync::direct_select::session::{SessionPlan, SessionReport};
use h2ac_rs::loadout_sync::error::LoadoutSyncError;
use h2ac_rs::loadout_sync::input::{ensure_running, DesktopBounds};
use h2ac_rs::loadout_sync::list_map::ScrollDirection;
use h2ac_rs::loadout_sync::capture::frame_from_bgra;
use h2ac_rs::loadout_sync::components::{filter_components, label_components};
use h2ac_rs::loadout_sync::config::LoadoutSyncConfig;
use h2ac_rs::loadout_sync::matcher::{
    alignment_offsets, component_verdict, search_offsets, CellKind, ComponentInfo,
    ComponentReject, ALIGN_OFFSET_RADIUS,
};
use h2ac_rs::loadout_sync::reference_vision::{
    Classification, ItemKind, ObservedSlot, SlotKind, UiState,
};
use h2ac_rs::loadout_sync::selection::{LoadoutItem, LoadoutSyncSelection};
use h2ac_rs::loadout_sync::state::{
    log_line, status_from_error, LoadoutSyncShared, SyncEvent, SyncLogLevel, SyncSnapshot,
    SyncStatus, TOTAL_STEPS,
};
use h2ac_rs::loadout_sync::types::{ImageRect, ScreenPoint};

// ── matcher ──

#[test]
fn search_offsets_match_alignment_offsets() {
    assert_eq!(search_offsets(), alignment_offsets(1));
}

#[test]
fn alignment_offsets_are_bounded_and_deterministic() {
    assert_eq!(alignment_offsets(2).len(), 25);
    assert_eq!(alignment_offsets(1).len(), 9);
    assert_eq!(alignment_offsets(0), vec![(0, 0)]);
    assert_eq!(alignment_offsets(2)[0], (0, 0));
    assert_eq!(
        alignment_offsets(99).len(),
        alignment_offsets(ALIGN_OFFSET_RADIUS).len()
    );
    assert_eq!(alignment_offsets(2), alignment_offsets(2));
    let dists: Vec<i32> = alignment_offsets(2)
        .iter()
        .map(|(x, y)| x.abs() + y.abs())
        .collect();
    assert!(dists.windows(2).all(|w| w[0] <= w[1]), "偏移应按距离从小到大");
}

#[test]
fn negative_radius_gives_only_the_origin() {
    assert_eq!(alignment_offsets(-3), vec![(0, 0)]);
}

#[test]
fn cell_kinds_and_reject_labels() {
    assert!(CellKind::HomeBooster.is_booster());
    assert!(CellKind::ListBooster.is_booster());
    assert!(!CellKind::ListStratagem.is_booster());
    assert_eq!(ComponentReject::TooSmall.label(), "area<MIN_COMPONENT_AREA");
    assert_eq!(ComponentReject::LineArtifact.label(), "line_artifact");
    assert_eq!(cell_kind_for(ItemKind::Stratagem), CellKind::ListStratagem);
    assert_eq!(cell_kind_for(ItemKind::Booster), CellKind::ListBooster);
    assert_eq!(home_cell_kind_for(ItemKind::Stratagem), CellKind::HomeStratagem);
    assert_eq!(home_cell_kind_for(ItemKind::Booster), CellKind::HomeBooster);
}

#[test]
fn key_is_booster_reads_the_first_catalog_entry() {
    let cat = vec![
        BuiltinStratagem {
            name: "增援".into(),
            icon: "reinforce".into(),
            category: "booster".into(),
        },
        BuiltinStratagem {
            name: "x".into(),
            icon: "reinforce".into(),
            category: "Orbital".into(),
        },
        BuiltinStratagem {
            name: "飞鹰空袭".into(),
            icon: "eagle_airstrike".into(),
            category: "Eagle".into(),
        },
    ];
    assert!(CellKind::key_is_booster(&cat, "reinforce"));
    assert!(!CellKind::key_is_booster(&cat, "eagle_airstrike"));
    assert!(!CellKind::key_is_booster(&cat, "unknown"));
}

// ── reference vision ──

#[test]
fn slot_kind_separates_stratagem_and_booster() {
    assert!(SlotKind::ListStratagem.is_selectable_item_for(ItemKind::Stratagem));
    assert!(!SlotKind::ListStratagem.is_selectable_item_for(ItemKind::Booster));
    assert!(SlotKind::ListBooster.is_selectable_item_for(ItemKind::Booster));
    assert!(!SlotKind::ListBooster.is_selectable_item_for(ItemKind::Stratagem));
    assert!(SlotKind::HomeBooster.is_selectable_item_for(ItemKind::Booster));
    assert!(SlotKind::HomeBooster.is_booster());
    assert!(SlotKind::ListBooster.is_booster());
    assert!(!SlotKind::HomeStratagem.is_booster());
}

#[test]
fn list_kind_maps_from_item_kind() {
    assert_eq!(SlotKind::list_kind_for(ItemKind::Stratagem), SlotKind::ListStratagem);
    assert_eq!(SlotKind::list_kind_for(ItemKind::Booster), SlotKind::ListBooster);
    assert_eq!(UiState::StratagemList.list_kind(), Some(ItemKind::Stratagem));
    assert_eq!(UiState::BoosterList.list_kind(), Some(ItemKind::Booster));
    assert_eq!(UiState::HomeFilled.list_kind(), None);
    assert!(UiState::HomeEmpty.is_home());
    assert!(UiState::HomeFilled.is_home());
    assert!(!UiState::StratagemList.is_home());
}

#[test]
fn unknown_slots_stay_none_and_do_not_block_identity_checks() {
    let unknown = ObservedSlot {
        row: 0,
        col: 0,
        rect: ImageRect::new(0, 0, 10, 10),
        kind: SlotKind::ListStratagem,
        occupied: true,
        classification: None,
    };
    assert!(!unknown.is_identity());
    assert!(unknown.as_tracked().item_id.is_none());
}

#[test]
fn observation_reports_classified_items() {
    let s = |id: &str, row: u32| ObservedSlot {
        row,
        col: 0,
        rect: ImageRect::new(0, row as i32 * 90, 80, 80),
        kind: SlotKind::ListStratagem,
        occupied: true,
        classification: Some(Classification::new(id, 80, 10, 100)),
    };
    let slots = vec![s("machine-gun", 0), s("autocannon", 1)];
    assert_eq!(slots.iter().filter(|x| x.is_identity()).count(), 2);
    assert_eq!(slots[1].as_tracked().item_id.as_deref(), Some("autocannon"));
    assert_eq!(
        slots[1].as_slot_ref().classification.map(|c| c.item_id),
        Some("autocannon".to_string())
    );
}

#[test]
fn empty_and_unknown_slots_are_different_states() {
    let home = |occupied: bool| ObservedSlot {
        row: 0,
        col: 0,
        rect: ImageRect::new(0, 0, 80, 80),
        kind: SlotKind::HomeStratagem,
        occupied,
        classification: None,
    };
    let empty = home(false);
    let unknown = home(true);
    assert!(empty.is_empty());
    assert!(!empty.is_identity());
    assert!(!unknown.is_empty());
    assert!(!unknown.is_identity());
    assert!(unknown.as_slot_ref().occupied);
    assert!(!empty.as_slot_ref().occupied);
}

// ── errors ──

#[test]
fn codes_are_stable_and_unique_per_variant() {
    let samples = [
        LoadoutSyncError::InvalidSelection { detail: "x".into() },
        LoadoutSyncError::GameNotFound,
        LoadoutSyncError::GameNotForeground,
        LoadoutSyncError::LoadoutHomeNotDetected { score: 10 },
        LoadoutSyncError::TargetNotFound { name: "n".into() },
        LoadoutSyncError::PermissionError,
        LoadoutSyncError::Timeout { stage: "home", ms: 1500 },
        LoadoutSyncError::Cancelled,
    ];
    let mut seen = HashSet::new();
    for e in &samples {
        assert!(seen.insert(e.code()), "duplicate code {}", e.code());
        assert!(!e.message().is_empty());
        assert!(e.to_display_string().contains(e.code()));
    }
}

#[test]
fn cancelled_is_not_reported_as_error() {
    assert!(LoadoutSyncError::Cancelled.is_cancelled());
    assert!(!LoadoutSyncError::GameNotFound.is_cancelled());
}

// ── catalog bridge ──

fn icon_catalog() -> IconCatalog {
    let mut c = IconCatalog::new();
    for (id, kind) in [
        ("orbital-laser", ItemKind::Stratagem),
        ("eagle-airstrike", ItemKind::Stratagem),
        ("meltagun", ItemKind::Stratagem),
        ("k-9", ItemKind::Stratagem),
        ("machine-gun", ItemKind::Stratagem),
        ("experimental-infusion", ItemKind::Booster),
        ("vitality-enhancement", ItemKind::Booster),
    ] {
        c.insert(id.to_string(), kind);
    }
    c
}

#[test]
fn normalization_resolves_matching_names() {
    let catalog = icon_catalog();
    let keys = ["orbital_laser", "eagle_airstrike"];
    assert_eq!(
        resolve_current_key(&catalog, "orbital-laser", &keys),
        Some("orbital_laser")
    );
    assert_eq!(
        resolve_current_key(&catalog, "eagle-airstrike", &keys),
        Some("eagle_airstrike")
    );
}

#[test]
fn aliases_resolve_renamed_entries() {
    let catalog = icon_catalog();
    let keys = ["40_k_meltagun", "guard_dog_k_9"];
    assert_eq!(resolve_current_key(&catalog, "meltagun", &keys), Some("40_k_meltagun"));
    assert_eq!(resolve_current_key(&catalog, "k-9", &keys), Some("guard_dog_k_9"));
}

#[test]
fn mission_stratagems_are_absent_and_never_guessed() {
    let catalog = icon_catalog();
    let keys = ["reinforce", "resupply", "hellbomb"];
    assert_eq!(resolve_current_key(&catalog, "reinforce", &keys), None);
    assert_eq!(resolve_item_id(&catalog, "reinforce"), None);
    assert_eq!(resolve_item_id(&catalog, "hellbomb"), None);
    assert_eq!(resolve_current_key(&catalog, "does-not-exist", &keys), None);
}

#[test]
fn reverse_resolution_is_deterministic_and_covers_both_kinds() {
    let catalog = icon_catalog();
    assert_eq!(resolve_item_id(&catalog, "orbital_laser"), Some("orbital-laser"));
    assert_eq!(resolve_item_id(&catalog, "40_k_meltagun"), Some("meltagun"));
    assert_eq!(entries_of_kind(&catalog, ItemKind::Booster).len(), 2);
    assert_eq!(entries_of_kind(&catalog, ItemKind::Stratagem).len(), 5);
}

#[test]
fn entries_of_kind_are_sorted_by_id() {
    let catalog = icon_catalog();
    let ids: Vec<&str> = entries_of_kind(&catalog, ItemKind::Stratagem)
        .iter()
        .map(|(id, _)| *id)
        .collect();
    assert_eq!(
        ids,
        vec!["eagle-airstrike", "k-9", "machine-gun", "meltagun", "orbital-laser"]
    );
}

#[test]
fn reverse_resolution_prefers_the_smallest_id() {
    let mut catalog = IconCatalog::new();
    catalog.insert("a_b".to_string(), ItemKind::Stratagem);
    catalog.insert("a-b".to_string(), ItemKind::Stratagem);
    // Both normalise to "a_b"; "a-b" sorts first.
    assert_eq!(resolve_item_id(&catalog, "a_b"), Some("a-b"));
    // Replacing an entry keeps one entry per id.
    catalog.insert("a-b".to_string(), ItemKind::Booster);
    assert_eq!(catalog.len(), 2);
    assert_eq!(catalog.get("a-b").map(|e| e.kind), Some(ItemKind::Booster));
}

#[test]
fn normalised_keys_and_alias_table() {
    assert_eq!(normalized_current_key("belt-fed-grenade-launcher"), "belt_fed_grenade_launcher");
    assert_eq!(normalized_current_key("plain"), "plain");
    let aliases = reference_id_aliases();
    assert_eq!(aliases.len(), 17);
    assert_eq!(aliases[0], ("meltagun", "40_k_meltagun"));
}

// ── state ──

#[test]
fn snapshot_labels_follow_the_status() {
    let mut shared = LoadoutSyncShared::new();
    assert!(shared.is_finished());
    assert_eq!(shared.snapshot().label(), "IDLE");
    shared.begin();
    assert!(!shared.is_finished());
    assert!(shared.snapshot().is_running());
    assert_eq!(shared.snapshot().label(), format!("SYNCING 1/{}", TOTAL_STEPS));
    shared.set_stage("DirectSelecting", 2, "飞鹰空袭".to_string());
    assert_eq!(shared.snapshot().label(), "SYNCING 2/5 · 飞鹰空袭");
    shared.set_stage("DirectSelecting", 0, String::new());
    assert_eq!(shared.snapshot().step, 2);
    shared.set_detail("detail".to_string());
    assert_eq!(shared.snapshot().detail, "detail");
    shared.request_cancel();
    assert!(shared.is_cancelled());
    shared.finish(SyncStatus::Cancelled);
    assert!(shared.is_finished());
    assert_eq!(shared.snapshot().label(), "SYNC CANCELLED");
    assert!(shared.snapshot().target.is_empty());
    shared.reset();
    assert!(!shared.is_cancelled());
    assert_eq!(shared.snapshot(), SyncSnapshot::default());
}

#[test]
fn begin_clears_a_previous_cancel() {
    let mut shared = LoadoutSyncShared::new();
    shared.request_cancel();
    shared.begin();
    assert!(!shared.is_cancelled());
}

#[test]
fn status_from_error_separates_cancel_and_failure() {
    assert_eq!(status_from_error(&LoadoutSyncError::Cancelled), SyncStatus::Cancelled);
    let e = LoadoutSyncError::GameNotFound;
    assert_eq!(
        status_from_error(&e),
        SyncStatus::Failed {
            code: e.code().to_string(),
            message: e.message()
        }
    );
    assert_eq!(log_line("hello"), "[LoadoutSync] hello");
}

// ── controller ──

#[test]
fn sync_state_names_and_terminals() {
    assert_eq!(SyncState::DirectSelecting.name(), "DirectSelecting");
    assert_eq!(SyncState::FindingGameWindow.name(), "FindingGameWindow");
    assert!(SyncState::Completed.is_terminal());
    assert!(SyncState::Failed.is_terminal());
    assert!(SyncState::Cancelled.is_terminal());
    assert!(!SyncState::Idle.is_terminal());
    assert!(!SyncState::DirectSelecting.is_terminal());
}

#[test]
fn stage_budgets_and_loop_caps() {
    assert_eq!(stage_timeout_ms(SyncState::FindingGameWindow, 90_000), 1_000);
    assert_eq!(stage_timeout_ms(SyncState::DirectSelecting, 90_000), 90_000);
    assert_eq!(stage_timeout_ms(SyncState::ValidatingSelection, 90_000), 2_000);
    assert_eq!(max_iterations(90_000), 9_000);
    assert_eq!(max_iterations(800), 512);
    assert_eq!(wall_clock_budget_ms(90_000), 280_000);
}

#[test]
fn deadlines_report_the_total_before_the_stage() {
    match check_deadlines(SyncState::Preparing, 5_000, 0, 100, 2_000, 4_000) {
        Err(LoadoutSyncError::Timeout { stage, ms }) => {
            assert_eq!(stage, "Total");
            assert_eq!(ms, 4_000);
        }
        other => panic!("unexpected {other:?}"),
    }
    match check_deadlines(SyncState::Preparing, 3_000, 0, 2_000, 2_000, 90_000) {
        Err(LoadoutSyncError::Timeout { stage, ms }) => {
            assert_eq!(stage, "Preparing");
            assert_eq!(ms, 2_000);
        }
        other => panic!("unexpected {other:?}"),
    }
    assert!(check_deadlines(SyncState::Idle, 3_000, 0, 2_000, 2_000, 90_000).is_ok());
    assert!(check_deadlines(SyncState::Preparing, 1_000, 0, 2_000, 2_000, 90_000).is_ok());
}

#[test]
fn machine_core_arms_the_deadline_once_per_stage() {
    let mut m = MachineCore::new(90_000);
    m.start();
    assert!(m.tick(1_000).is_ok());
    assert!(m.tick(2_900).is_ok());
    assert!(m.tick(3_100).is_err());
    let mut m = MachineCore::new(90_000);
    m.start();
    assert_eq!(advance_begin(&mut m, false, 0, &valid_selection()), Ok(StepWork::Nothing));
    assert_eq!(advance_begin(&mut m, false, 100, &valid_selection()), Ok(StepWork::Nothing));
    assert!(m.tick(200).is_ok());
    assert_eq!(
        m.transitions(),
        &vec![
            SyncState::Preparing,
            SyncState::ValidatingSelection,
            SyncState::FindingGameWindow
        ]
    );
    assert_eq!(m.state(), SyncState::FindingGameWindow);
}

#[test]
fn terminal_statuses_and_error_states() {
    assert_eq!(terminal_status(SyncState::Completed), SyncStatus::Succeeded);
    assert_eq!(terminal_status(SyncState::Cancelled), SyncStatus::Cancelled);
    assert_eq!(
        terminal_status(SyncState::Failed),
        SyncStatus::Failed {
            code: "UnexpectedState".into(),
            message: "自动装配失败：内部状态异常。".into()
        }
    );
    assert_eq!(state_after_error(&LoadoutSyncError::Cancelled), SyncState::Cancelled);
    assert_eq!(state_after_error(&LoadoutSyncError::GameNotFound), SyncState::Failed);
}

#[test]
fn session_plan_drops_repeated_ids() {
    let ids: Vec<String> = ["a", "b", "a", "c", "b"].iter().map(|s| s.to_string()).collect();
    let plan = session_plan(&ids, Some("boost".into()));
    assert_eq!(plan.stratagems, vec!["a", "b", "c"]);
    assert_eq!(plan.booster, Some("boost".to_string()));
    assert_eq!(plan.expected(), 4);
    assert!(!plan.is_empty());
    assert!(SessionPlan { stratagems: vec![], booster: None }.is_empty());
}

#[test]
fn selection_lines_list_every_slot() {
    let mut sel = LoadoutSyncSelection::empty();
    sel.stratagems[0] = Some(LoadoutItem {
        name: "飞鹰空袭".into(),
        icon: "eagle_airstrike".into(),
        base_index: Some(1),
    });
    let lines = selection_lines(&sel);
    assert_eq!(
        lines,
        vec![
            "S1: 飞鹰空袭",
            "S2: (未配置)",
            "S3: (未配置)",
            "S4: (未配置)",
            "Booster: (未配置，将跳过)"
        ]
    );
}

#[test]
fn reporter_queues_prefixed_events_and_checks_cancel() {
    let mut r = Reporter::new(LoadoutSyncShared::new());
    r.info("Triggered");
    r.warn("careful");
    r.stage(SyncState::ValidatingSelection, 0, String::new());
    assert_eq!(r.shared().snapshot().stage, "ValidatingSelection");
    assert!(r.cancel_check().is_ok());
    r.shared_mut().request_cancel();
    assert!(r.cancelled());
    assert!(matches!(r.cancel_check(), Err(LoadoutSyncError::Cancelled)));
    let events = r.take_events();
    assert_eq!(events.len(), 2);
    match &events[0] {
        SyncEvent::Log(level, text) => {
            assert_eq!(*level, SyncLogLevel::Info);
            assert_eq!(text, "[LoadoutSync] Triggered");
        }
        _ => panic!("expected a log line"),
    }
    assert!(r.take_events().is_empty());
}

#[test]
fn session_report_summary_and_success() {
    let mut report = SessionReport::new();
    report.selected = vec!["a".into()];
    report.expected = 1;
    assert!(report.is_success());
    assert_eq!(
        report.summary(),
        "direct_select: 已确认 1 项 [a]，打开列表 0 次，滚轮 0 次，点击 0 次，hover 确认 0 次"
    );
}

// ── executor ──

#[test]
fn scancodes_fold_case_and_know_the_aliases() {
    assert_eq!(lookup_scancode("W"), Ok((0x11, false)));
    assert_eq!(lookup_scancode("↑"), Ok((0x48, true)));
    assert_eq!(lookup_scancode("Control"), Ok((0x1D, false)));
    assert_eq!(lookup_scancode("return"), Ok((0x1C, false)));
    assert_eq!(lookup_scancode("right ctrl"), Ok((0x1D, true)));
    assert_eq!(lookup_scancode("f13"), Err("未知按键: f13".to_string()));
}

#[test]
fn stratagem_sequence_uses_the_bindings() {
    let bindings = default_key_bindings();
    let command: Vec<String> = ["↑", "→", "x"].iter().map(|s| s.to_string()).collect();
    let actions = stratagem_key_actions("ctrl", &bindings, &command);
    assert_eq!(
        actions,
        vec![
            KeyAction::Press("ctrl".into()),
            KeyAction::Press("w".into()),
            KeyAction::Release("w".into()),
            KeyAction::Press("d".into()),
            KeyAction::Release("d".into()),
            KeyAction::Press("x".into()),
            KeyAction::Release("x".into()),
            KeyAction::Release("ctrl".into()),
        ]
    );
}

// ── input ──

#[test]
fn desktop_normalisation_spans_the_absolute_range() {
    let d = DesktopBounds { x: 0, y: 0, w: 1920, h: 1080 };
    assert_eq!(d.normalize(ScreenPoint { x: 0, y: 0 }), (0, 0));
    assert_eq!(d.normalize(ScreenPoint { x: 1919, y: 1079 }), (65535, 65535));
    assert_eq!(d.normalize(ScreenPoint { x: 960, y: 540 }), (32784, 32797));
    assert_eq!(d.normalize(ScreenPoint { x: -10, y: 5000 }), (0, 65535));
}

// ── config ──

#[test]
fn sanitize_resizes_and_clears_out_of_range() {
    let mut loadout = vec![Some(0), Some(1), Some(999_999), Some(PLUGIN_SLOT_MARK)];
    sanitize_loadout(&mut loadout, 120);
    assert_eq!(loadout.len(), SLOT_COUNT);
    assert_eq!(loadout[0], Some(0));
    assert_eq!(loadout[1], Some(1));
    assert_eq!(loadout[2], None);
    assert_eq!(loadout[3], Some(PLUGIN_SLOT_MARK));
}

#[test]
fn legacy_hotkeys_move_only_into_blank_fields() {
    assert_eq!(migrated_hotkey(Some("f6"), None), Some("f6".to_string()));
    assert_eq!(migrated_hotkey(Some("f6"), Some("  ")), Some("f6".to_string()));
    assert_eq!(migrated_hotkey(Some("f6"), Some("f7")), None);
    assert_eq!(migrated_hotkey(Some(" "), None), None);
    assert_eq!(migrated_hotkey(None, None), None);
}

#[test]
fn scroll_direction_is_an_involution() {
    assert_eq!(ScrollDirection::Up.opposite().opposite(), ScrollDirection::Up);
    assert_eq!(ScrollDirection::Down.opposite(), ScrollDirection::Up);
}

#[test]
fn run_step_stops_with_input_released_on_every_path() {
    let mut m = MachineCore::new(4_000);
    m.start();
    let max = max_iterations(4_000);
    assert_eq!(max, 512);
    assert_eq!(run_step(&mut m, 1, 0, 100, StepOutcome::Begin), RunAction::Advance);
    assert_eq!(run_step(&mut m, 2, 50, 100, StepOutcome::Advanced(Ok(()))), RunAction::Advance);
    match run_step(&mut m, max + 1, 50, 100, StepOutcome::Advanced(Ok(()))) {
        RunAction::Stop { status, release_input } => {
            assert!(release_input);
            assert_eq!(
                status,
                SyncStatus::Failed {
                    code: "UnexpectedState".into(),
                    message: "自动装配失败：内部状态异常（状态机迭代超过上限（512））。".into()
                }
            );
        }
        other => panic!("unexpected {other:?}"),
    }
    match run_step(&mut m, 3, 101, 100, StepOutcome::Advanced(Ok(()))) {
        RunAction::Stop { status, release_input } => {
            assert!(release_input);
            assert_eq!(
                status,
                SyncStatus::Failed {
                    code: "Timeout".into(),
                    message: "自动装配失败：阶段「WallClock」超时（22000 ms）。".into()
                }
            );
        }
        other => panic!("unexpected {other:?}"),
    }
    assert_eq!(m.state(), SyncState::Preparing);
    match run_step(&mut m, 4, 60, 100, StepOutcome::Advanced(Err(LoadoutSyncError::Cancelled))) {
        RunAction::Stop { status, release_input } => {
            assert!(release_input);
            assert_eq!(status, SyncStatus::Cancelled);
        }
        other => panic!("unexpected {other:?}"),
    }
    assert_eq!(m.state(), SyncState::Cancelled);
    assert_eq!(m.transitions(), &vec![SyncState::Preparing, SyncState::Cancelled]);
    match run_step(&mut m, 5, 60, 100, StepOutcome::Advanced(Ok(()))) {
        RunAction::Stop { status, release_input } => {
            assert!(release_input);
            assert_eq!(status, SyncStatus::Cancelled);
        }
        other => panic!("unexpected {other:?}"),
    }
    let mut m = completed_machine();
    assert_eq!(
        run_step(&mut m, 1, 0, 100, StepOutcome::Begin),
        RunAction::Stop { status: SyncStatus::Succeeded, release_input: true }
    );
}

fn resolved(name: &str, icon: &str, id: Option<&str>) -> ResolvedItem {
    ResolvedItem { name: name.into(), icon: icon.into(), catalog_id: id.map(|s| s.to_string()) }
}

#[test]
fn plan_from_resolved_never_guesses() {
    let items = vec![
        resolved("机枪", "mg", Some("machine-gun")),
        resolved("机枪2", "mg", Some("machine-gun")),
        resolved("自动炮", "ac", Some("autocannon")),
    ];
    let b = resolved("增援", "rf", Some("reinforce"));
    let plan = plan_from_resolved(&items, Some(&b)).unwrap();
    assert_eq!(plan.stratagems, vec!["machine-gun".to_string(), "autocannon".to_string()]);
    assert_eq!(plan.booster, Some("reinforce".to_string()));

    let items = vec![
        resolved("机枪", "mg", Some("machine-gun")),
        resolved("未知", "zz", None),
        resolved("也未知", "yy", None),
    ];
    match plan_from_resolved(&items, Some(&b)) {
        Err(LoadoutSyncError::UnexpectedState { detail }) => {
            assert_eq!(detail, "参考目录里没有 未知（icon=zz），direct_select 无法装配")
        }
        other => panic!("unexpected {other:?}"),
    }
    let nb = resolved("神秘", "bb", None);
    match plan_from_resolved(&items[..1], Some(&nb)) {
        Err(LoadoutSyncError::UnexpectedState { detail }) => {
            assert_eq!(detail, "参考目录里没有 Booster 神秘（icon=bb）")
        }
        other => panic!("unexpected {other:?}"),
    }
    let plan = plan_from_resolved(&items[..1], None).unwrap();
    assert_eq!(plan.booster, None);
}

#[test]
fn direct_select_verdict_completes_only_a_full_report() {
    let mut m = selecting_machine();
    let mut report = SessionReport::default();
    report.expected = 2;
    report.selected = vec!["a".into()];
    report.failures = vec!["x".into(), "y".into()];
    match direct_select_verdict(&mut m, &Ok(()), &report) {
        Err(LoadoutSyncError::UnexpectedState { detail }) => {
            assert_eq!(detail, "direct_select 未完成（已确认 1/2）: x / y")
        }
        other => panic!("unexpected {other:?}"),
    }
    match direct_select_verdict(&mut m, &Err("boom".into()), &report) {
        Err(LoadoutSyncError::UnexpectedState { detail }) => {
            assert_eq!(detail, "direct_select 安全停止: boom")
        }
        other => panic!("unexpected {other:?}"),
    }
    assert_eq!(m.state(), SyncState::DirectSelecting);
    report.selected.push("b".into());
    report.failures.clear();
    assert!(direct_select_verdict(&mut m, &Ok(()), &report).is_ok());
    assert_eq!(m.state(), SyncState::Completed);
}

#[test]
fn scancode_lookup_after_lower_casing() {
    assert_eq!(scancode_of_lowered("esc"), Some((0x01, false)));
    assert_eq!(scancode_of_lowered("escape"), Some((0x01, false)));
    assert_eq!(scancode_of_lowered("control"), Some((0x1D, false)));
    assert_eq!(scancode_of_lowered("ESC"), None);
    assert_eq!(lookup_scancode("ESC"), Ok((0x01, false)));
    assert_eq!(lookup_scancode("Nope"), Err("未知按键: Nope".to_string()));
}

#[test]
fn advance_walks_the_states_and_refuses_the_background_window() {
    let selection = LoadoutSyncSelection { stratagems: [None, None, None, None], booster: None };
    let mut m = MachineCore::new(90_000);
    m.start();
    assert_eq!(advance_begin(&mut m, true, 0, &selection), Err(LoadoutSyncError::Cancelled));
    assert_eq!(advance_begin(&mut m, false, 0, &selection), Ok(StepWork::Nothing));
    assert_eq!(m.state(), SyncState::ValidatingSelection);
    match advance_begin(&mut m, false, 10, &selection) {
        Err(LoadoutSyncError::InvalidSelection { .. }) => {}
        other => panic!("unexpected {other:?}"),
    }
    assert_eq!(m.state(), SyncState::ValidatingSelection);
    let mut m = MachineCore::new(90_000);
    m.start();
    let valid = valid_selection();
    advance_begin(&mut m, false, 0, &valid).unwrap();
    advance_begin(&mut m, false, 0, &valid).unwrap();
    assert_eq!(advance_begin(&mut m, false, 0, &selection), Ok(StepWork::FindWindow));
    assert_eq!(window_found(&mut m, Ok(false)), Err(LoadoutSyncError::GameNotForeground));
    assert_eq!(m.state(), SyncState::FindingGameWindow);
    assert_eq!(window_found(&mut m, Ok(true)), Ok(()));
    assert_eq!(m.state(), SyncState::DirectSelecting);
    assert_eq!(advance_begin(&mut m, false, 100, &selection), Ok(StepWork::DirectSelect));
    match advance_begin(&mut m, false, 2_000_000, &selection) {
        Err(LoadoutSyncError::Timeout { stage, .. }) => assert_eq!(stage, "Total"),
        other => panic!("unexpected {other:?}"),
    }
}

fn valid_selection() -> LoadoutSyncSelection {
    let item = |name: &str| {
        Some(LoadoutItem { name: name.into(), icon: format!("{name}_icon"), base_index: None })
    };
    LoadoutSyncSelection { stratagems: [item("a"), item("b"), item("c"), item("d")], booster: None }
}

fn selecting_machine() -> MachineCore {
    let mut m = MachineCore::new(90_000);
    m.start();
    let valid = valid_selection();
    advance_begin(&mut m, false, 0, &valid).unwrap();
    advance_begin(&mut m, false, 0, &valid).unwrap();
    assert_eq!(advance_begin(&mut m, false, 0, &valid), Ok(StepWork::FindWindow));
    window_found(&mut m, Ok(true)).unwrap();
    assert_eq!(m.state(), SyncState::DirectSelecting);
    m
}

fn completed_machine() -> MachineCore {
    let mut m = selecting_machine();
    let mut report = SessionReport::default();
    report.expected = 1;
    report.selected = vec!["a".into()];
    direct_select_verdict(&mut m, &Ok(()), &report).unwrap();
    m
}

#[test]
fn completion_only_follows_validation_window_and_selection() {
    let m = completed_machine();
    assert_eq!(m.state(), SyncState::Completed);
    assert_eq!(
        m.transitions(),
        &vec![
            SyncState::Preparing,
            SyncState::ValidatingSelection,
            SyncState::FindingGameWindow,
            SyncState::DirectSelecting,
            SyncState::Completed
        ]
    );
}

#[test]
fn publishing_the_end_finishes_the_shared_state_last() {
    let mut shared = LoadoutSyncShared::new();
    shared.begin();
    let mut r = Reporter::new(shared);
    r.report_abort(&LoadoutSyncError::GameNotForeground);
    r.publish_final(SyncStatus::Cancelled);
    assert!(r.shared().is_finished());
    assert_eq!(r.shared().snapshot().status, SyncStatus::Cancelled);
    let events = r.take_events();
    assert_eq!(events.len(), 5);
    assert!(matches!(&events[0], SyncEvent::Log(SyncLogLevel::Error, line) if line.contains("GameNotForeground")));
    assert!(matches!(&events[1], SyncEvent::Log(SyncLogLevel::Warn, _)));
    assert!(matches!(&events[2], SyncEvent::Log(SyncLogLevel::Info, line) if line.contains("Automation aborted")));
    assert!(matches!(&events[3], SyncEvent::Log(SyncLogLevel::Info, line) if line.contains("Cancelled by user")));
    assert!(matches!(&events[4], SyncEvent::Finished(SyncStatus::Cancelled)));
}

#[test]
fn sanitize_clamps_every_integer_parameter() {
    let d = LoadoutSyncConfig::default();
    assert_eq!(d.scroll_delta, 600);
    assert_eq!(d.max_scroll_attempts, 24);
    assert_eq!(d.sanitize(), d);
    let wild = LoadoutSyncConfig {
        scroll_delta: 5,
        scroll_probe_delta: 10_000,
        hover_timeout_ms: 0,
        selection_timeout_ms: 1_000_000,
        list_timeout_ms: 50,
        home_timeout_ms: 99_999,
        max_scroll_attempts: 0,
        max_retry_attempts: 100,
        total_timeout_ms: 1,
        allow_overwrite_filled: true,
        debug_screenshots: false,
        debug_overlay: true,
    };
    let s = wild.sanitize();
    assert_eq!(s.scroll_delta, 120);
    assert_eq!(s.scroll_probe_delta, 120);
    assert_eq!(s.hover_timeout_ms, 100);
    assert_eq!(s.selection_timeout_ms, 10_000);
    assert_eq!(s.list_timeout_ms, 200);
    assert_eq!(s.home_timeout_ms, 10_000);
    assert_eq!(s.max_scroll_attempts, 1);
    assert_eq!(s.max_retry_attempts, 8);
    assert_eq!(s.total_timeout_ms, 2_000);
    assert!(s.allow_overwrite_filled && s.debug_overlay && !s.debug_screenshots);
    assert_eq!(s.sanitize(), s);
}

#[test]
fn component_verdicts_drop_small_blobs_and_thin_lines() {
    assert_eq!(component_verdict(11, (0, 0, 10, 10), 80, 80), Some(ComponentReject::TooSmall));
    // A thin full-width rule across the cell.
    assert_eq!(component_verdict(80, (0, 40, 79, 40), 80, 80), Some(ComponentReject::LineArtifact));
    // A compact blob stays.
    assert_eq!(component_verdict(200, (10, 10, 29, 29), 80, 80), None);
    // Thin but short: stays.
    assert_eq!(component_verdict(30, (0, 0, 29, 0), 80, 80), None);
    // Long but thick: stays.
    assert_eq!(component_verdict(13, (0, 0, 39, 9), 80, 80), None);
}

#[test]
fn a_cancelled_session_sends_nothing_more() {
    assert_eq!(ensure_running(None), Ok(()));
    assert_eq!(ensure_running(Some(false)), Ok(()));
    assert_eq!(ensure_running(Some(true)), Err("automation cancelled".to_string()));
}

fn binding(key: &str, owner: &str) -> (String, String) {
    (key.to_string(), owner.to_string())
}

#[test]
fn hotkey_conflicts_name_the_first_holder() {
    let mut bindings = vec![
        binding("f8", "监听开关"),
        binding("f7", "自动装配"),
        binding("", "取消装配"),
        binding("f7", "紧凑浮窗"),
    ];
    let slots = vec![(2usize, "f8".to_string()), (0usize, "x".to_string()), (1usize, "  ".to_string())];
    let slot_part = slot_bindings(&slots);
    assert_eq!(slot_part, vec![binding("x", "槽位 01"), binding("f8", "槽位 03")]);
    bindings.extend(slot_part);
    assert_eq!(
        hotkey_conflicts(&bindings),
        vec![
            "快捷键 F7 同时绑定了 自动装配 与 紧凑浮窗".to_string(),
            "快捷键 F8 同时绑定了 监听开关 与 槽位 03".to_string(),
        ]
    );
    assert!(hotkey_conflicts(&[binding("", "a"), binding("", "b")]).is_empty());
}

#[test]
fn all_black_frames_are_refused() {
    let black = vec![0u8, 0, 0, 255, 0, 0, 0, 255];
    match frame_from_bgra(&black, 2, 1) {
        Err(LoadoutSyncError::CaptureFailed { detail }) => assert!(detail.contains("全黑")),
        other => panic!("unexpected {other:?}"),
    }
    // B=10, G=20, R=30 and a white pixel.
    let buf = vec![10u8, 20, 30, 0, 255, 255, 255, 0];
    let (gray, rgba) = frame_from_bgra(&buf, 2, 1).unwrap();
    assert_eq!(gray, vec![((30 * 299 + 20 * 587 + 10 * 114) / 1000) as u8, 255]);
    assert_eq!(rgba, vec![30, 20, 10, 255, 255, 255, 255, 255]);
    // Mean luma exactly 1 is accepted, just below is refused; an empty frame is black.
    assert!(frame_from_bgra(&[0, 0, 7, 0, 0, 0, 0, 0], 2, 1).is_ok());
    assert!(frame_from_bgra(&[0, 0, 4, 0, 0, 0, 0, 0], 2, 1).is_err());
    assert!(frame_from_bgra(&[], 0, 0).is_err());
}

fn grid(width: usize, height: usize, cells: &[(usize, usize)]) -> Vec<bool> {
    let mut mask = vec![false; width * height];
    for &(x, y) in cells {
        mask[y * width + x] = true;
    }
    mask
}

#[test]
fn component_filter_drops_noise_and_grid_lines() {
    let (width, height) = (10usize, 10usize);
    // A 4x4 white block (kept), a lone coloured pixel (too small) and a
    // two-pixel-thick coloured line across the cell (a line artefact).
    let mut block = Vec::new();
    for y in 1..5 {
        for x in 1..5 {
            block.push((x, y));
        }
    }
    let mut white = grid(width, height, &block);
    let mut line = vec![(8usize, 1usize)];
    for x in 0..10 {
        line.push((x, 7));
        line.push((x, 8));
    }
    let mut color = grid(width, height, &line);
    let stats = filter_components(&mut white, &mut color, width, height);
    assert_eq!((stats.white_px, stats.color_px), (16, 0));
    assert_eq!(stats.bbox, Some((1, 1, 4, 4)));
    assert_eq!(white, grid(width, height, &block));
    assert!(color.iter().all(|&c| !c));
    // Every component is reported, kept or not, in the order of its first pixel.
    let info = |area, bbox, white_px, color_px, reject: Option<ComponentReject>| ComponentInfo {
        area,
        bbox,
        white_px,
        color_px,
        kept: reject.is_none(),
        reject,
    };
    assert_eq!(
        stats.components,
        vec![
            info(16, (1, 1, 4, 4), 16, 0, None),
            info(1, (8, 1, 8, 1), 0, 1, Some(ComponentReject::TooSmall)),
            info(20, (0, 7, 9, 8), 0, 20, Some(ComponentReject::LineArtifact)),
        ]
    );
}

#[test]
fn component_filter_judges_the_union_of_both_masks() {
    // White and coloured halves of one 4x4 block form one component of
    // area 16 and are kept together; alone each half would be too small.
    let (width, height) = (8usize, 8usize);
    let mut left = Vec::new();
    let mut right = Vec::new();
    for y in 2..6 {
        for x in 2..4 {
            left.push((x, y));
        }
        for x in 4..6 {
            right.push((x, y));
        }
    }
    let mut white = grid(width, height, &left);
    let mut color = grid(width, height, &right);
    let stats = filter_components(&mut white, &mut color, width, height);
    assert_eq!((stats.white_px, stats.color_px), (8, 8));
    assert_eq!(stats.bbox, Some((2, 2, 5, 5)));
    assert_eq!(stats.components.len(), 1);
    assert_eq!((stats.components[0].area, stats.components[0].white_px), (16, 8));
    // Nothing left: no box.
    let mut white = grid(width, height, &[(0, 0)]);
    let mut color = grid(width, height, &[]);
    let stats = filter_components(&mut white, &mut color, width, height);
    assert_eq!((stats.white_px, stats.color_px, stats.bbox), (0, 0, None));
    assert!(white.iter().all(|&w| !w));
    assert!(!stats.components[0].kept);
}

#[test]
fn labels_follow_four_neighbour_connectivity() {
    // Diagonal neighbours are not connected; a row does not wrap to the next.
    let fg = grid(3, 3, &[(0, 0), (2, 0), (0, 1), (1, 1)]);
    let (labels, starts) = label_components(&fg, 3);
    assert_eq!(starts, vec![0, 2]);
    assert_eq!(labels[0], labels[3]);
    assert_eq!(labels[3], labels[4]);
    assert_ne!(labels[2], labels[3]);
    assert_ne!(labels[2], labels[4]);
    assert_eq!(labels[1], usize::MAX);
}
