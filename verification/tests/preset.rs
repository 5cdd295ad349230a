use std::collections::HashMap;

use h2ac_rs::catalog::BuiltinStratagem;
use h2ac_rs::compact_mode::preset::{
    draft_index_of, is_loadout_slot, needs_temporary_hide, AutomationPhase, CompactPresetState,
    OverlayOutcome, OverlayPhase, PresetDraft, PresetEntry, BOOSTER_INDEX, FIRST_H2AC_SLOT,
    PRESET_SLOTS,
};
use h2ac_rs::config::SLOT_COUNT;

fn catalog() -> Vec<BuiltinStratagem> {
    let rows = [
        ("反器材步枪", "anti_materiel_rifle", "Support Weapons"),
        ("飞鹰空袭", "eagle_airstrike", "Eagle"),
        ("轨道炮攻击", "orbital_railcannon_strike", "Orbital"),
        ("类星体加农炮", "quasar_cannon", "Support Weapons"),
        ("增援", "reinforce", "Booster"),
    ];
    rows.iter()
        .map(|(name, icon, category)| BuiltinStratagem {
            name: name.to_string(),
            icon: icon.to_string(),
            category: category.to_string(),
        })
        .collect()
}

fn base_entry(name: &str) -> PresetEntry {
    let cat = catalog();
    let idx = cat
        .iter()
        .position(|s| s.name == name)
        .unwrap_or_else(|| panic!("缺少内置战备 {name}"));
    PresetEntry::from_base(&cat, idx).expect("内置战备")
}

fn full_draft() -> PresetDraft {
    let mut draft = PresetDraft::default();
    for (i, name) in ["反器材步枪", "飞鹰空袭", "轨道炮攻击", "类星体加农炮"]
        .iter()
        .enumerate()
    {
        draft.set(i, Some(base_entry(name)));
    }
    draft
}

#[test]
fn draft_maps_slot06_to_10_without_shifting() {
    let cat = catalog();
    let mut slots = vec![None; SLOT_COUNT];
    slots[FIRST_H2AC_SLOT] = Some(0);
    slots[FIRST_H2AC_SLOT + 2] = Some(2);
    let draft = PresetDraft::from_slots(&cat, &slots, &HashMap::new());
    assert!(draft.entries[0].is_some());
    assert!(draft.entries[1].is_none(), "不允许左移填充");
    assert!(draft.entries[2].is_some());
    assert!(draft.entries[3].is_none());
    assert!(draft.entries[BOOSTER_INDEX].is_none());
    assert!(draft.validate().is_err(), "缺少 Stratagem 必须校验失败");
}

#[test]
fn draft_roundtrip_through_slots() {
    let cat = catalog();
    let draft = full_draft();
    let mut slots = vec![None; SLOT_COUNT];
    let mut plugins = HashMap::new();
    draft.apply_to_slots(&mut slots, &mut plugins);
    let back = PresetDraft::from_slots(&cat, &slots, &plugins);
    assert_eq!(back, draft);
}

#[test]
fn booster_only_draft_is_invalid() {
    let mut draft = PresetDraft::default();
    draft.set(BOOSTER_INDEX, Some(base_entry("增援")));
    assert_eq!(draft.stratagem_count(), 0);
    assert!(draft.validate().is_err());
}

#[test]
fn toggle_only_changes_visibility_and_works_while_running() {
    let mut state = CompactPresetState::default();
    assert_eq!(state.phase(), OverlayPhase::Hidden);

    assert!(state.toggle());
    assert_eq!(state.phase(), OverlayPhase::Visible);
    assert!(!state.toggle());
    assert_eq!(state.phase(), OverlayPhase::Hidden);

    state.mark_running();
    assert!(state.toggle());
    assert_eq!(state.phase(), OverlayPhase::Visible);
    assert!(!state.editing_allowed(), "运行中禁止编辑");
    assert!(!state.toggle());
    assert_eq!(state.phase(), OverlayPhase::Hidden);
}

#[test]
fn auto_loadout_temporarily_hides_and_then_restores_visible_overlay() {
    let mut state = CompactPresetState::default();
    state.show();
    state.snapshot_for_automation();
    state.begin_automation_hide();
    assert_eq!(state.phase(), OverlayPhase::Hidden, "自动化开始即临时隐藏");

    state.mark_running();
    assert_eq!(state.automation, AutomationPhase::Running);
    state.show();
    assert_eq!(state.phase(), OverlayPhase::Visible);

    state.finish(OverlayOutcome::Success, "ok");
    assert_eq!(
        state.phase(),
        OverlayPhase::Visible,
        "结束后按「开始前可见」恢复显示"
    );
    assert_eq!(state.automation, AutomationPhase::Succeeded);
}

#[test]
fn auto_loadout_from_hidden_overlay_stays_hidden() {
    let mut state = CompactPresetState::default();
    assert_eq!(state.phase(), OverlayPhase::Hidden);
    state.snapshot_for_automation();
    state.begin_automation_hide();
    state.mark_running();
    state.finish(OverlayOutcome::Success, "ok");
    assert_eq!(state.phase(), OverlayPhase::Hidden);
}

#[test]
fn temporary_hide_only_applies_to_the_displayed_overlay() {
    assert!(needs_temporary_hide(true, OverlayPhase::Visible));
    assert!(needs_temporary_hide(true, OverlayPhase::Editing));
    assert!(!needs_temporary_hide(true, OverlayPhase::Hidden));
    assert!(!needs_temporary_hide(false, OverlayPhase::Visible));
    assert!(!needs_temporary_hide(false, OverlayPhase::Editing));
    assert!(!needs_temporary_hide(false, OverlayPhase::Hidden));
}

#[test]
fn begin_automation_registers_running_before_the_worker_starts() {
    let mut state = CompactPresetState::default();
    state.show();
    state.draft = full_draft();
    let snapshot = state.begin_automation();
    assert_eq!(snapshot, full_draft(), "快照在被隐藏之前冻结");
    assert_eq!(state.phase(), OverlayPhase::Hidden, "临时隐藏");
    assert!(
        state.automation.is_running(),
        "启动工作线程之前就必须标记为运行中"
    );

    state.finish(OverlayOutcome::Failed("GameNotForeground".into()), "x");
    assert_eq!(state.phase(), OverlayPhase::Visible, "秒失败也必须恢复浮窗");
    assert!(!state.automation.is_running());
}

#[test]
fn user_visibility_change_during_automation_wins_over_snapshot_restore() {
    let mut state = CompactPresetState::default();
    state.begin_automation_hide();
    state.mark_running();
    assert!(state.toggle(), "运行中允许打开浮窗（只读）");
    state.finish(OverlayOutcome::Success, "ok");
    assert_eq!(
        state.phase(),
        OverlayPhase::Visible,
        "恢复不得反手关掉用户运行中手动打开的浮窗"
    );

    let mut state = CompactPresetState::default();
    state.show();
    state.begin_automation_hide();
    state.mark_running();
    state.show();
    state.hide_overlay();
    state.finish(OverlayOutcome::Failed("X".into()), "x");
    assert_eq!(state.phase(), OverlayPhase::Hidden);
}

#[test]
fn failure_and_cancel_also_restore_visibility() {
    for outcome in [
        OverlayOutcome::Failed("GameNotForeground".into()),
        OverlayOutcome::Cancelled,
    ] {
        let mut state = CompactPresetState::default();
        state.show();
        state.snapshot_for_automation();
        state.begin_automation_hide();
        state.mark_running();
        state.finish(outcome.clone(), "done");
        assert_eq!(
            state.phase(),
            OverlayPhase::Visible,
            "失败/取消之后同样必须恢复浮窗"
        );
        assert!(!state.toggle());
        assert_eq!(state.phase(), OverlayPhase::Hidden);
    }
}

#[test]
fn repeated_automation_requests_keep_the_original_snapshot() {
    let mut state = CompactPresetState::default();
    state.show();
    state.begin_automation_hide();
    assert_eq!(state.phase(), OverlayPhase::Hidden);
    state.begin_automation_hide();
    state.finish(OverlayOutcome::Success, "ok");
    assert_eq!(state.phase(), OverlayPhase::Visible);
}

#[test]
fn status_line_reports_running_and_results() {
    let mut state = CompactPresetState::default();
    state.mark_running();
    assert!(state.status_line().contains("Running"));
    state.finish(
        OverlayOutcome::Failed("StratagemNotFound".into()),
        "AUTO LOADOUT · Failed: StratagemNotFound",
    );
    let line = state.status_line();
    assert!(
        line.contains("Failed") && line.contains("StratagemNotFound"),
        "{line}"
    );
}

#[test]
fn lifecycle_follows_spec_chain() {
    let mut state = CompactPresetState::default();
    assert_eq!(state.phase(), OverlayPhase::Hidden);
    assert!(!state.overlay_visible());

    assert!(state.toggle());
    assert_eq!(state.phase(), OverlayPhase::Visible);
    assert!(state.overlay_visible());

    assert!(state.open_editor(5, None));
    assert_eq!(state.phase(), OverlayPhase::Editing);
    assert_eq!(state.editor.as_ref().map(|e| e.slot), Some(5));

    let editor = state.take_editor().expect("编辑器状态");
    assert_eq!(editor.slot, 5);
    assert_eq!(state.phase(), OverlayPhase::Visible);

    state.draft.set(0, Some(base_entry("飞鹰空袭")));
    state.open_editor(5, None);
    let before = state.draft.duplicate();
    state.cancel_editor();
    assert_eq!(state.draft, before);

    state.snapshot_for_automation();
    state.begin_automation_hide();
    assert_eq!(state.phase(), OverlayPhase::Hidden);
    assert!(!state.overlay_visible());
    state.mark_running();
    assert_eq!(state.automation, AutomationPhase::Running);
    state.finish(OverlayOutcome::Success, "装配完成");
    assert_eq!(state.phase(), OverlayPhase::Visible, "结束后恢复原状态");

    assert!(!state.toggle());
    assert!(state.toggle());
    assert_eq!(state.phase(), OverlayPhase::Visible);
}

#[test]
fn loadout_slots_are_06_to_10_only() {
    assert!(!is_loadout_slot(0));
    assert!(!is_loadout_slot(4));
    for slot in FIRST_H2AC_SLOT..FIRST_H2AC_SLOT + PRESET_SLOTS {
        assert!(is_loadout_slot(slot), "槽位 {slot} 应属于 LOADOUT");
        assert_eq!(draft_index_of(slot), Some(slot - FIRST_H2AC_SLOT));
    }
    assert!(!is_loadout_slot(FIRST_H2AC_SLOT + PRESET_SLOTS));
    assert_eq!(draft_index_of(0), None);
    assert_eq!(FIRST_H2AC_SLOT + BOOSTER_INDEX, 9);
}

#[test]
fn running_overlay_is_view_only() {
    let mut state = CompactPresetState::default();
    state.mark_running();
    state.show();
    assert_eq!(state.phase(), OverlayPhase::Visible);
    assert!(!state.editing_allowed());
    assert!(!state.open_editor(5, None), "运行中不得打开选择器");
    assert!(state.editor.is_none());
}

#[test]
fn hide_does_not_touch_the_draft() {
    let mut state = CompactPresetState::default();
    state.show();
    state.draft = full_draft();
    let draft = state.draft.duplicate();
    state.hide_overlay();
    assert_eq!(state.draft, draft);
    assert_eq!(state.phase(), OverlayPhase::Hidden);
}

#[test]
fn snapshot_is_frozen_for_persistence() {
    let mut state = CompactPresetState::default();
    state.show();
    state.draft = full_draft();
    let snapshot = state.snapshot_for_automation();
    assert_eq!(snapshot, full_draft());
    assert_eq!(state.last_requested.as_ref(), Some(&full_draft()));
    state.draft.set(0, None);
    assert_eq!(state.last_requested.as_ref().unwrap(), &full_draft());
}

// ── further checks of the preset model ──

#[test]
fn toggling_twice_restores_visibility_and_keeps_the_draft() {
    let mut state = CompactPresetState::default();
    state.draft = full_draft();
    let before = state.phase();
    state.toggle();
    state.toggle();
    assert_eq!(state.phase(), before);
    assert_eq!(state.draft, full_draft());
}

#[test]
fn draft_summary_counts_stratagems_and_booster() {
    let mut draft = full_draft();
    assert_eq!(draft.stratagem_count(), 4);
    assert!(draft.validate().is_ok());
    draft.set(BOOSTER_INDEX, Some(base_entry("增援")));
    assert_eq!(draft.summary(), "4/4 + Booster");
    assert_eq!(draft.name(BOOSTER_INDEX), Some("增援"));
}

#[test]
fn selection_keeps_entries_in_place() {
    let mut draft = PresetDraft::default();
    draft.set(1, Some(base_entry("飞鹰空袭")));
    let sel = draft.to_selection();
    assert!(sel.stratagems[0].is_none());
    assert_eq!(sel.stratagems[1].as_ref().map(|i| i.name.as_str()), Some("飞鹰空袭"));
    assert!(sel.booster.is_none());
}

#[test]
fn failed_auto_loadout_keeps_the_preset() {
    let mut state = CompactPresetState::default();
    state.draft = full_draft();
    let snapshot = state.begin_automation();
    state.finish(OverlayOutcome::Cancelled, "AUTO LOADOUT · Cancelled");
    assert_eq!(state.draft, full_draft());
    assert_eq!(state.last_requested.as_ref(), Some(&snapshot));
    assert_eq!(state.automation, AutomationPhase::Cancelled);
}

#[test]
fn reseed_keeps_an_open_picker() {
    let mut state = CompactPresetState::default();
    state.toggle();
    assert!(state.open_editor(5, None));
    let before = state.editor.clone();
    assert!(before.is_some());
    state.reseed(full_draft());
    assert_eq!(state.draft, full_draft());
    assert_eq!(state.editor, before);
}

#[test]
fn repeated_requests_still_restore_the_visibility_from_before_the_first() {
    let mut state = CompactPresetState::default();
    state.show();
    state.begin_automation_hide();
    state.mark_running();
    state.begin_automation_hide();
    state.begin_automation();
    state.mark_running();
    assert_eq!(state.phase(), OverlayPhase::Hidden);
    state.finish(OverlayOutcome::Cancelled, "c");
    assert_eq!(state.phase(), OverlayPhase::Visible);
    assert_eq!(state.automation, AutomationPhase::Cancelled);

    let mut state = CompactPresetState::default();
    state.begin_automation();
    state.begin_automation_hide();
    state.hide_overlay();
    state.show();
    state.finish(OverlayOutcome::Success, "ok");
    assert_eq!(state.phase(), OverlayPhase::Visible, "the user's last choice stays");
}
