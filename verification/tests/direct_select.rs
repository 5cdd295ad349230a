use h2ac_rs::loadout_sync::direct_select::click_plan::{
    find_visible_target, next_visible_target, SlotRef,
};
use h2ac_rs::loadout_sync::direct_select::frame::{frame_changed, luma601_u8};
use h2ac_rs::loadout_sync::direct_select::home_activation::{
    find_home_slot_kinded, find_home_slot_only, list_opened, no_empty_slot_reason,
    ActivationOutcome, BOOSTER_COL,
};
use h2ac_rs::loadout_sync::direct_select::list_map::{
    dominant_value, GridPosition, ListMap, NavigationHint,
};
use h2ac_rs::loadout_sync::direct_select::machine::{
    post_click_window_closed, relocation_moved, DirectSelectFailure, DirectSelectMachine,
    DirectSelectOutcome, DirectSelectPhase, PostClick, SelectAction,
    SelectEvent,
};
use h2ac_rs::loadout_sync::direct_select::page_navigation::{
    navigation_delta, NavInput, NavigationOutcome, NavigationTracker, MAX_FULL_TURNS,
    MAX_PROBES, NO_MOVEMENT_FRAMES, PAGE_BOUNDARY_PROBE_DELTA, PAGE_WHEEL_DELTA,
};
use h2ac_rs::loadout_sync::direct_select::session::{
    session_step, SessionAction, SessionEvent, SessionPlan, SessionStage, SessionState,
};
use h2ac_rs::loadout_sync::direct_select::selection_verify::{
    terminal_home_step, TerminalHomeOutcome, TerminalStep, MAX_HOVER_RELOCATIONS, MAX_TARGET_CLICK_ATTEMPTS, MAX_WHEEL_INPUTS,
    POST_CLICK_MIN_OBSERVATIONS,
};
use h2ac_rs::loadout_sync::list_map::ScrollDirection;
use h2ac_rs::loadout_sync::reference_vision::{
    Classification, ItemKind, ObservedSlot, SlotKind, UiState,
};
use h2ac_rs::loadout_sync::types::ImageRect;

/// Order key of a score: a strictly increasing map from `f32` to `i32`.
fn key(x: f32) -> i32 {
    let b = x.to_bits() as i32;
    if b < 0 {
        b ^ 0x7fff_ffff
    } else {
        b
    }
}

fn class(id: &str, score: f32, margin: f32, gate: f32) -> Classification {
    Classification::new(id, key(score), key(margin), key(gate))
}

// ── frame ──

#[test]
fn luma601_matches_weights() {
    assert_eq!(luma601_u8(255, 255, 255), 255);
    assert_eq!(luma601_u8(0, 0, 0), 0);
    assert!(luma601_u8(0, 255, 0) > luma601_u8(255, 0, 0));
    assert!(luma601_u8(0, 255, 0) > luma601_u8(0, 0, 255));
}

#[test]
fn fingerprint_is_stable_for_identical_images() {
    let fa = vec![100u8; 1024];
    let fb = vec![100u8; 1024];
    assert!(!frame_changed(&fa, &fb));
}

#[test]
fn fingerprint_detects_a_change_above_threshold() {
    let a = vec![100u8; 1024];
    let b = vec![110u8; 1024];
    assert!(frame_changed(&a, &b));
    let c = vec![103u8; 1024];
    assert!(!frame_changed(&a, &c));
}

#[test]
fn fingerprint_handles_degenerate_input() {
    assert!(frame_changed(&[], &[1, 2]));
    assert!(frame_changed(&[], &[]));
    assert!(frame_changed(&[1, 2], &[1]));
}

#[test]
fn frame_change_threshold_is_a_mean_of_six() {
    // Mean difference exactly 6 counts as changed, just below does not.
    assert!(frame_changed(&[0, 0], &[6, 6]));
    assert!(!frame_changed(&[0, 0], &[6, 5]));
    assert!(frame_changed(&[10, 0], &[0, 2]));
}

// ── list map ──

fn page(entries: &[(u32, u32, Option<&str>)]) -> Vec<ObservedSlot> {
    entries
        .iter()
        .map(|(row, col, id)| ObservedSlot {
            row: *row,
            col: *col,
            rect: ImageRect::new(*col as i32 * 90, *row as i32 * 90, 80, 80),
            kind: SlotKind::ListStratagem,
            occupied: true,
            classification: id.map(|i| class(i, 0.8, 0.1, 1.0)),
        })
        .collect()
}

#[test]
fn new_records_the_first_window_at_row_base_zero() {
    let p = page(&[(0, 0, Some("a")), (1, 0, Some("b"))]);
    let m = ListMap::new(&p, ItemKind::Stratagem);
    assert_eq!(m.row_base(), 0);
    assert_eq!(m.get("a"), Some(GridPosition { row: 0, col: 0 }));
    assert_eq!(m.get("b"), Some(GridPosition { row: 1, col: 0 }));
    assert_eq!(m.len(), 2);
}

#[test]
fn relocalize_recovers_row_base_from_shared_identity() {
    let first = page(&[(0, 0, Some("a")), (1, 0, Some("b"))]);
    let mut m = ListMap::new(&first, ItemKind::Stratagem);
    let second = page(&[(3, 0, Some("a")), (4, 0, Some("b")), (5, 0, Some("c"))]);
    assert!(m.relocalize(&second, ItemKind::Stratagem), "有共同身份");
    assert_eq!(m.row_base(), -3);
    assert_eq!(m.get("a").map(|g| g.row), Some(0));
    assert_eq!(m.get("c").map(|g| g.row), Some(2));
}

#[test]
fn relocalize_uses_dominant_value_and_ignores_outliers() {
    let first = page(&[
        (0, 0, Some("a")),
        (1, 0, Some("b")),
        (2, 0, Some("c")),
        (3, 0, Some("d")),
    ]);
    let mut m = ListMap::new(&first, ItemKind::Stratagem);
    let second = page(&[
        (5, 0, Some("a")),
        (6, 0, Some("b")),
        (7, 0, Some("c")),
        (102, 0, Some("d")),
    ]);
    assert!(m.relocalize(&second, ItemKind::Stratagem));
    assert_eq!(m.row_base(), -5, "众数应压掉离群候选");
}

#[test]
fn cross_column_match_is_rejected() {
    let first = page(&[(0, 0, Some("a"))]);
    let mut m = ListMap::new(&first, ItemKind::Stratagem);
    let second = page(&[(0, 2, Some("a"))]);
    assert!(!m.relocalize(&second, ItemKind::Stratagem));
    assert_eq!(m.row_base(), 0, "relocalize 失败不得修改状态");
}

#[test]
fn advance_falls_back_to_range_splicing_without_landmarks() {
    let first = page(&[(0, 0, Some("a")), (1, 0, Some("b"))]);
    let mut m = ListMap::new(&first, ItemKind::Stratagem);
    let second = page(&[(0, 0, Some("x")), (1, 0, Some("y")), (2, 0, Some("z"))]);
    m.advance(&first, &second, ItemKind::Stratagem, ScrollDirection::Down);
    assert_eq!(m.row_base(), 2);
    assert_eq!(m.get("x").map(|g| g.row), Some(2));

    let third = page(&[(0, 0, Some("p")), (1, 0, Some("q"))]);
    m.advance(&second, &third, ItemKind::Stratagem, ScrollDirection::Up);
    assert_eq!(m.row_base(), 0);
    assert_eq!(m.get("p").map(|g| g.row), Some(0));
}

#[test]
fn navigation_hint_points_to_the_target_direction() {
    let p = page(&[(0, 0, Some("a")), (1, 0, Some("b"))]);
    let mut m = ListMap::new(&p, ItemKind::Stratagem);
    m.insert_position("far-below", GridPosition { row: 50, col: 0 });
    assert_eq!(
        m.navigation_hint("far-below", &p, ItemKind::Stratagem),
        NavigationHint::Scroll(ScrollDirection::Down)
    );
    m.insert_position("far-above", GridPosition { row: -50, col: 0 });
    assert_eq!(
        m.navigation_hint("far-above", &p, ItemKind::Stratagem),
        NavigationHint::Scroll(ScrollDirection::Up)
    );
    assert_eq!(
        m.navigation_hint("never-seen", &p, ItemKind::Stratagem),
        ListMap::unknown_target_hint()
    );
}

#[test]
fn navigation_hint_recenters_at_window_edges() {
    let p = page(&[(0, 0, Some("top")), (1, 0, Some("mid")), (2, 0, Some("bot"))]);
    let m = ListMap::new(&p, ItemKind::Stratagem);
    assert_eq!(
        m.navigation_hint("top", &p, ItemKind::Stratagem),
        NavigationHint::Recenter(ScrollDirection::Up)
    );
    assert_eq!(
        m.navigation_hint("bot", &p, ItemKind::Stratagem),
        NavigationHint::Recenter(ScrollDirection::Down)
    );
    assert_eq!(
        m.navigation_hint("mid", &p, ItemKind::Stratagem),
        NavigationHint::ExpectedVisible
    );
}

#[test]
fn single_visible_row_never_recenters() {
    let p = page(&[(0, 0, Some("only"))]);
    let m = ListMap::new(&p, ItemKind::Stratagem);
    assert_eq!(
        m.navigation_hint("only", &p, ItemKind::Stratagem),
        NavigationHint::ExpectedVisible
    );
}

#[test]
fn booster_map_is_separate_from_stratagem_map() {
    let strat = page(&[(0, 0, Some("machine-gun"))]);
    let booster = vec![ObservedSlot {
        row: 0,
        col: 0,
        rect: ImageRect::new(0, 0, 80, 80),
        kind: SlotKind::ListBooster,
        occupied: true,
        classification: Some(class("experimental-infusion", 0.9, 0.2, 1.0)),
    }];
    let m = ListMap::new(&strat, ItemKind::Stratagem);
    assert!(m.get("experimental-infusion").is_none());
    let b = ListMap::new(&booster, ItemKind::Booster);
    assert!(b.get("experimental-infusion").is_some());
    let empty = ListMap::new(&booster, ItemKind::Stratagem);
    assert!(empty.is_empty());
}

#[test]
fn dominant_value_picks_mode_with_deterministic_tie_break() {
    assert_eq!(dominant_value(&[]), None);
    assert_eq!(dominant_value(&[7]), Some(7));
    assert_eq!(dominant_value(&[1, 2, 2, 3, 3, 3]), Some(3));
    assert_eq!(dominant_value(&[1, 1, 2, 2]), Some(2));
}

#[test]
fn inserted_position_is_read_back() {
    let p = page(&[(0, 0, Some("a"))]);
    let mut m = ListMap::new(&p, ItemKind::Stratagem);
    m.insert_position("a", GridPosition { row: 7, col: 3 });
    assert_eq!(m.get("a"), Some(GridPosition { row: 7, col: 3 }));
    assert_eq!(m.len(), 1);
}

// ── machine ──

#[test]
fn phases_and_failures_have_stable_labels() {
    assert_eq!(DirectSelectPhase::Hovering.label(), "hovering");
    assert_eq!(DirectSelectPhase::Done.label(), "done");
    let f = DirectSelectFailure::TargetNotFound {
        item_id: "x".into(),
        wheel_inputs: 20,
    };
    assert_eq!(f.label(), "target_not_found");
    assert!(f.message().contains("x"));
    let o = DirectSelectOutcome::Succeeded { selected: vec![] };
    assert!(o.is_success());
    assert!(o.failure().is_none());
    let o2 = DirectSelectOutcome::Failed {
        failure: DirectSelectFailure::HoverNotConfirmed {
            item_id: "y".into(),
        },
        selected: vec!["a".into()],
    };
    assert!(!o2.is_success());
    assert_eq!(o2.selected(), &["a".to_string()]);
}

#[test]
fn failure_message_renders_counts() {
    let f = DirectSelectFailure::TargetNotFound {
        item_id: "railgun".into(),
        wheel_inputs: 20,
    };
    assert_eq!(f.message(), "目标「railgun」在 20 次滚轮输入内未找到（列表边界）");
}

fn slot_at(id: &str, rect: ImageRect) -> SlotRef {
    SlotRef {
        row: 0,
        col: 0,
        rect,
        selectable: true,
        occupied: true,
        classification: Some(class(id, 0.80, 0.10, 1.0)),
    }
}

fn page_with(id: &str, rect: ImageRect) -> SelectEvent {
    SelectEvent::Page { slots: vec![slot_at(id, rect)], hint: NavigationHint::ExpectedVisible }
}

fn empty_page(hint: NavigationHint) -> SelectEvent {
    SelectEvent::Page { slots: Vec::new(), hint }
}

fn relocated(id: &str, rect: ImageRect) -> SelectEvent {
    SelectEvent::Relocated { slots: vec![slot_at(id, rect)] }
}

/// Drives one visible target from the page to a confirmed click.
fn select_visible(m: &mut DirectSelectMachine, id: &str, rect: ImageRect) -> SelectAction {
    assert_eq!(m.step(page_with(id, rect)), SelectAction::MoveCursor(rect));
    assert_eq!(
        m.step(relocated(id, rect)),
        SelectAction::WaitHover
    );
    assert_eq!(m.step(SelectEvent::Hover { confirmed: true }), SelectAction::Click);
    m.step(SelectEvent::PostClick(PostClick::Selected))
}

#[test]
fn machine_records_each_phase_once_in_a_row() {
    let mut m = DirectSelectMachine::new(vec!["a".into(), "b".into()], ItemKind::Stratagem);
    let down = NavigationHint::Scroll(ScrollDirection::Down);
    assert_eq!(
        m.step(empty_page(down)),
        SelectAction::Scroll(navigation_delta(NavInput::Full(ScrollDirection::Down)))
    );
    assert_eq!(m.step(SelectEvent::TurnFrame { moved: true }), SelectAction::Observe);
    assert!(matches!(m.step(empty_page(down)), SelectAction::Scroll(_)));
    assert_eq!(m.step(SelectEvent::TurnFrame { moved: true }), SelectAction::Observe);
    let r = ImageRect::new(0, 0, 80, 80);
    assert_eq!(m.step(page_with("a", r)), SelectAction::MoveCursor(r));
    assert_eq!(
        m.trace().phases,
        vec![DirectSelectPhase::PlanningTarget, DirectSelectPhase::Hovering]
    );
    assert_eq!(m.trace().wheel_inputs, 2);
}

#[test]
fn confirmed_target_leaves_the_remaining_list() {
    let mut m = DirectSelectMachine::new(
        vec!["a".into(), "b".into(), "a".into()],
        ItemKind::Stratagem,
    );
    let r = ImageRect::new(0, 0, 80, 80);
    assert_eq!(select_visible(&mut m, "a", r), SelectAction::Observe);
    assert_eq!(m.selected(), &["a".to_string()]);
    assert_eq!(m.remaining(), &["b".to_string()]);
    assert!(!m.is_done());
    assert_eq!(select_visible(&mut m, "b", r), SelectAction::WaitHome);
    assert!(m.is_done());
    let outcome = match m.step(SelectEvent::Home(TerminalHomeOutcome::Settled)) {
        SelectAction::Finish(o) => o,
        other => panic!("unexpected {other:?}"),
    };
    assert!(outcome.is_success());
    assert_eq!(outcome.selected(), &["a".to_string(), "b".to_string()]);
    assert_eq!(m.phase(), DirectSelectPhase::Done);
    assert_eq!(m.trace().clicks, 2);
    assert_eq!(m.step(SelectEvent::Cancelled), SelectAction::Stopped);
}

#[test]
fn wheel_budget_ends_the_page_turns() {
    let mut m = DirectSelectMachine::new(vec!["far".into()], ItemKind::Stratagem);
    let up = NavigationHint::Scroll(ScrollDirection::Up);
    for _ in 0..MAX_WHEEL_INPUTS {
        assert!(matches!(m.step(empty_page(up)), SelectAction::Scroll(_)));
        assert_eq!(m.step(SelectEvent::TurnFrame { moved: true }), SelectAction::Observe);
    }
    assert_eq!(m.trace().wheel_inputs, MAX_WHEEL_INPUTS);
    match m.step(empty_page(up)) {
        SelectAction::Finish(DirectSelectOutcome::Failed {
            failure: DirectSelectFailure::TargetNotFound { item_id, wheel_inputs },
            ..
        }) => {
            assert_eq!(item_id, "far");
            assert_eq!(wheel_inputs, MAX_WHEEL_INPUTS);
        }
        other => panic!("unexpected {other:?}"),
    }
    assert_eq!(m.phase(), DirectSelectPhase::Failed);
    assert_eq!(m.wheel_inputs(), MAX_WHEEL_INPUTS);
}

#[test]
fn a_page_item_that_is_not_a_target_is_never_clicked() {
    let mut m = DirectSelectMachine::new(vec!["a".into()], ItemKind::Stratagem);
    let r = ImageRect::new(0, 0, 80, 80);
    match m.step(page_with("b", r)) {
        SelectAction::Finish(DirectSelectOutcome::Failed { failure, selected }) => {
            assert!(matches!(failure, DirectSelectFailure::TargetNotFound { .. }));
            assert!(selected.is_empty());
        }
        other => panic!("unexpected {other:?}"),
    }
    assert_eq!(m.trace().clicks, 0);
}

#[test]
fn expected_visible_target_is_never_scrolled_for() {
    let mut m = DirectSelectMachine::new(vec!["far".into()], ItemKind::Stratagem);
    match m.step(empty_page(NavigationHint::ExpectedVisible)) {
        SelectAction::Finish(DirectSelectOutcome::Failed {
            failure: DirectSelectFailure::TargetNotFound { wheel_inputs, .. },
            ..
        }) => assert_eq!(wheel_inputs, 0),
        other => panic!("unexpected {other:?}"),
    }
}

#[test]
fn happy_path_selects_every_visible_target() {
    let targets = ["machine-gun", "autocannon", "stalwart", "railgun"];
    let mut m = DirectSelectMachine::new(
        targets.iter().map(|t| t.to_string()).collect(),
        ItemKind::Stratagem,
    );
    let mut moves = 0;
    for (i, t) in targets.iter().enumerate() {
        let r = ImageRect::new(0, 100 * i as i32, 80, 80);
        let a = select_visible(&mut m, t, r);
        moves += 1;
        if i + 1 < targets.len() {
            assert_eq!(a, SelectAction::Observe);
        } else {
            assert_eq!(a, SelectAction::WaitHome);
        }
    }
    match m.step(SelectEvent::Home(TerminalHomeOutcome::Settled)) {
        SelectAction::Finish(DirectSelectOutcome::Succeeded { selected }) => {
            assert_eq!(selected.len(), 4)
        }
        other => panic!("unexpected {other:?}"),
    }
    assert_eq!(m.trace().clicks, 4);
    assert!(!m.trace().phases.contains(&DirectSelectPhase::Failed));
    assert_eq!(moves, 4);
}

#[test]
fn target_absent_from_every_page_fails_safely_within_the_wheel_cap() {
    let mut m = DirectSelectMachine::new(vec!["nonexistent".into()], ItemKind::Stratagem);
    let down = NavigationHint::Scroll(ScrollDirection::Down);
    assert!(matches!(m.step(empty_page(down)), SelectAction::Scroll(_)));
    for _ in 0..NO_MOVEMENT_FRAMES - 1 {
        assert_eq!(m.step(SelectEvent::TurnFrame { moved: false }), SelectAction::Observe);
    }
    // The page does not move: one boundary probe, then a safe failure.
    assert_eq!(
        m.step(SelectEvent::TurnFrame { moved: false }),
        SelectAction::Scroll(navigation_delta(NavInput::Probe(ScrollDirection::Down)))
    );
    for _ in 0..NO_MOVEMENT_FRAMES - 1 {
        assert_eq!(m.step(SelectEvent::TurnFrame { moved: false }), SelectAction::Observe);
    }
    let last = m.step(SelectEvent::TurnFrame { moved: false });
    match last {
        SelectAction::Finish(o) => {
            assert!(!o.is_success());
            assert!(matches!(o.failure(), Some(DirectSelectFailure::TargetNotFound { .. })));
        }
        other => panic!("unexpected {other:?}"),
    }
    assert_eq!(m.trace().clicks, 0);
    assert!(m.trace().wheel_inputs <= 20);
}

#[test]
fn unconfirmed_hover_never_clicks() {
    let mut m = DirectSelectMachine::new(vec!["machine-gun".into()], ItemKind::Stratagem);
    let r = ImageRect::new(0, 0, 80, 80);
    assert_eq!(m.step(page_with("machine-gun", r)), SelectAction::MoveCursor(r));
    let mut last = SelectAction::Observe;
    for _ in 0..10 {
        last = m.step(relocated("machine-gun", r));
        if last != SelectAction::WaitHover {
            break;
        }
        last = m.step(SelectEvent::Hover { confirmed: false });
        if matches!(last, SelectAction::Finish(_)) {
            break;
        }
    }
    match last {
        SelectAction::Finish(o) => {
            assert!(!o.is_success());
            assert!(matches!(o.failure(), Some(DirectSelectFailure::HoverNotConfirmed { .. })));
        }
        other => panic!("unexpected {other:?}"),
    }
    assert_eq!(m.trace().clicks, 0);
}

#[test]
fn unselected_after_click_retries_then_fails_within_the_cap() {
    let mut m = DirectSelectMachine::new(vec!["machine-gun".into()], ItemKind::Stratagem);
    let r = ImageRect::new(0, 0, 80, 80);
    m.step(page_with("machine-gun", r));
    m.step(relocated("machine-gun", r));
    assert_eq!(m.step(SelectEvent::Hover { confirmed: true }), SelectAction::Click);
    let mut last = SelectAction::Click;
    for _ in 0..10 {
        assert_eq!(
            m.step(SelectEvent::PostClick(PostClick::Unchanged { window_closed: false })),
            SelectAction::Observe
        );
        last = m.step(SelectEvent::PostClick(PostClick::Unchanged { window_closed: true }));
        if last != SelectAction::Click {
            break;
        }
    }
    match last {
        SelectAction::Finish(o) => {
            assert!(!o.is_success());
            match o.failure() {
                Some(DirectSelectFailure::SelectionUnchanged { attempts, .. }) => {
                    assert_eq!(*attempts, MAX_TARGET_CLICK_ATTEMPTS)
                }
                other => panic!("unexpected {other:?}"),
            }
        }
        other => panic!("unexpected {other:?}"),
    }
    assert!(m.trace().clicks <= 3);
}

#[test]
fn page_turn_advances_the_map_and_finds_a_target_on_a_later_page() {
    let mut m = DirectSelectMachine::new(vec!["machine-gun".into()], ItemKind::Stratagem);
    let down = NavigationHint::Scroll(ScrollDirection::Down);
    assert!(matches!(m.step(empty_page(down)), SelectAction::Scroll(_)));
    assert_eq!(m.step(SelectEvent::TurnFrame { moved: true }), SelectAction::Observe);
    let r = ImageRect::new(0, 0, 80, 80);
    assert_eq!(select_visible(&mut m, "machine-gun", r), SelectAction::WaitHome);
    match m.step(SelectEvent::Home(TerminalHomeOutcome::Settled)) {
        SelectAction::Finish(DirectSelectOutcome::Succeeded { selected }) => {
            assert_eq!(selected, vec!["machine-gun".to_string()])
        }
        other => panic!("unexpected {other:?}"),
    }
    assert_eq!(m.trace().clicks, 1);
}

#[test]
fn no_success_is_reported_when_home_never_settles() {
    let mut m = DirectSelectMachine::new(vec!["machine-gun".into()], ItemKind::Stratagem);
    let r = ImageRect::new(0, 0, 80, 80);
    assert_eq!(select_visible(&mut m, "machine-gun", r), SelectAction::WaitHome);
    match m.step(SelectEvent::Home(TerminalHomeOutcome::Timeout { elapsed_ms: 600 })) {
        SelectAction::Finish(o) => {
            assert!(!o.is_success());
            match o.failure() {
                Some(DirectSelectFailure::TerminalHomeNotReached { detail }) => {
                    assert_eq!(detail, "timeout（600）")
                }
                other => panic!("unexpected {other:?}"),
            }
        }
        other => panic!("unexpected {other:?}"),
    }
}

#[test]
fn empty_target_list_settles_home_and_succeeds() {
    let mut m = DirectSelectMachine::new(Vec::new(), ItemKind::Stratagem);
    assert_eq!(
        m.step(empty_page(NavigationHint::ExpectedVisible)),
        SelectAction::WaitHome
    );
    match m.step(SelectEvent::Home(TerminalHomeOutcome::Settled)) {
        SelectAction::Finish(o) => assert!(o.is_success()),
        other => panic!("unexpected {other:?}"),
    }
    assert_eq!(m.trace().clicks, 0);
}

#[test]
fn cancel_stops_safely_with_what_was_confirmed() {
    let mut m = DirectSelectMachine::new(vec!["a".into(), "b".into()], ItemKind::Stratagem);
    let r = ImageRect::new(0, 0, 80, 80);
    select_visible(&mut m, "a", r);
    match m.step(SelectEvent::Cancelled) {
        SelectAction::Finish(DirectSelectOutcome::Failed { failure, selected }) => {
            assert_eq!(failure, DirectSelectFailure::Io { detail: "已取消".into() });
            assert_eq!(selected, vec!["a".to_string()]);
        }
        other => panic!("unexpected {other:?}"),
    }
    assert_eq!(m.step(SelectEvent::Hover { confirmed: true }), SelectAction::Stopped);
}

#[test]
fn moving_target_is_followed_up_to_the_relocation_cap() {
    let mut m = DirectSelectMachine::new(vec!["a".into()], ItemKind::Stratagem);
    let mut r = ImageRect::new(0, 0, 80, 80);
    m.step(page_with("a", r));
    let mut last = SelectAction::Observe;
    for k in 1..10 {
        let next = ImageRect::new(10 * k, 0, 80, 80);
        last = m.step(relocated("a", next));
        r = next;
        if last != SelectAction::MoveCursor(r) {
            break;
        }
    }
    match last {
        SelectAction::Finish(o) => {
            assert!(matches!(o.failure(), Some(DirectSelectFailure::HoverNotConfirmed { .. })))
        }
        other => panic!("unexpected {other:?}"),
    }
    assert_eq!(m.trace().clicks, 0);
    let _ = MAX_HOVER_RELOCATIONS;
}

#[test]
fn relocation_and_click_window_rules() {
    let a = ImageRect::new(100, 100, 80, 80);
    assert!(!relocation_moved(a, ImageRect::new(102, 98, 80, 80)));
    assert!(relocation_moved(a, ImageRect::new(103, 100, 80, 80)));
    assert!(relocation_moved(a, ImageRect::new(100, 97, 80, 80)));
    assert!(!post_click_window_closed(399, 5));
    assert!(!post_click_window_closed(400, 1));
    assert!(post_click_window_closed(400, 2));
}

// ── page navigation ──

#[test]
fn navigation_delta_signs_match_direction() {
    assert_eq!(navigation_delta(NavInput::Full(ScrollDirection::Up)), PAGE_WHEEL_DELTA);
    assert_eq!(navigation_delta(NavInput::Full(ScrollDirection::Down)), -PAGE_WHEEL_DELTA);
    assert_eq!(
        navigation_delta(NavInput::Probe(ScrollDirection::Up)),
        PAGE_BOUNDARY_PROBE_DELTA
    );
    assert_eq!(
        navigation_delta(NavInput::Probe(ScrollDirection::Down)),
        -PAGE_BOUNDARY_PROBE_DELTA
    );
    assert!(NavInput::Full(ScrollDirection::Up).is_full());
    assert!(NavInput::Probe(ScrollDirection::Up).is_probe());
}

#[test]
fn tracker_enforces_hard_caps_and_boundary_rule() {
    let mut t = NavigationTracker::default();
    assert!(t.can_continue(ScrollDirection::Down));
    assert!(!t.boundary_confirmed(), "还没探测过，不能确认边界");
    for _ in 0..MAX_FULL_TURNS {
        t.record(NavInput::Full(ScrollDirection::Down), &NavigationOutcome::Moved);
    }
    assert!(!t.can_continue(ScrollDirection::Down), "整页次数到达硬上限后必须停");

    let mut t2 = NavigationTracker::default();
    t2.record(NavInput::Probe(ScrollDirection::Down), &NavigationOutcome::NoMovement);
    assert!(!t2.boundary_confirmed(), "仅整页无位移还不算边界，必须先探测");
    t2.record(NavInput::Probe(ScrollDirection::Down), &NavigationOutcome::NoMovement);
    assert!(t2.boundary_confirmed(), "探测也无位移 → 确认边界");

    let mut t3 = NavigationTracker::default();
    for _ in 0..MAX_PROBES {
        t3.record(NavInput::Probe(ScrollDirection::Down), &NavigationOutcome::NoMovement);
    }
    assert!(!t3.can_continue(ScrollDirection::Down));

    let mut t4 = NavigationTracker::default();
    let uncertain = NavigationOutcome::Uncertain;
    assert_eq!(uncertain.label(), "uncertain");
    t4.record(NavInput::Full(ScrollDirection::Down), &uncertain);
    assert_eq!(t4.consecutive_no_movement, 0);
    assert_eq!(t4.full_turns, 1);
}

#[test]
fn full_turns_without_movement_never_confirm_a_boundary() {
    let mut t = NavigationTracker::new();
    for _ in 0..5 {
        t.record(NavInput::Full(ScrollDirection::Up), &NavigationOutcome::NoMovement);
    }
    assert!(!t.boundary_confirmed());
}

// ── selection verify ──

#[test]
fn click_attempts_are_bounded_by_a_hard_cap() {
    assert_eq!(MAX_TARGET_CLICK_ATTEMPTS, 3);
    assert_eq!(MAX_HOVER_RELOCATIONS, 4);
    assert_eq!(MAX_WHEEL_INPUTS, 20);
    assert!(POST_CLICK_MIN_OBSERVATIONS >= 2);
}

#[test]
fn terminal_home_outcome_labels_are_stable() {
    assert_eq!(TerminalHomeOutcome::Settled.label(), "settled");
    assert!(TerminalHomeOutcome::Settled.is_settled());
    assert!(!TerminalHomeOutcome::StillInList.is_settled());
    assert!(!TerminalHomeOutcome::Timeout { elapsed_ms: 1 }.is_settled());
}

// ── click plan ──

fn slot(row: u32, col: u32, x: i32, y: i32, id: Option<&str>) -> SlotRef {
    SlotRef {
        row,
        col,
        rect: ImageRect::new(x, y, 80, 80),
        selectable: true,
        occupied: true,
        classification: id.map(|i| class(i, 0.80, 0.10, 1.0)),
    }
}

fn with_scores(row: u32, x: i32, y: i32, id: &str, score: f32, margin: f32, gate: f32) -> SlotRef {
    SlotRef {
        row,
        col: 0,
        rect: ImageRect::new(x, y, 80, 80),
        selectable: true,
        occupied: true,
        classification: Some(class(id, score, margin, gate)),
    }
}

#[test]
fn finds_target_by_catalog_id() {
    let slots = vec![
        slot(0, 0, 0, 0, Some("machine-gun")),
        slot(0, 1, 100, 0, Some("autocannon")),
    ];
    let t = find_visible_target(&slots, "autocannon", ItemKind::Stratagem).expect("应命中");
    assert_eq!(t.item_id, "autocannon");
    assert_eq!(t.slot.center(), (140, 40));
}

#[test]
fn missing_or_unclassified_target_is_none() {
    let slots = vec![slot(0, 0, 0, 0, Some("machine-gun")), slot(0, 1, 100, 0, None)];
    assert!(find_visible_target(&slots, "railgun", ItemKind::Stratagem).is_none());
    assert!(find_visible_target(&slots, "autocannon", ItemKind::Stratagem).is_none());
}

#[test]
fn non_selectable_slots_are_ignored() {
    let mut s = slot(0, 0, 0, 0, Some("machine-gun"));
    s.selectable = false;
    assert!(find_visible_target(&[s], "machine-gun", ItemKind::Stratagem).is_none());
}

#[test]
fn duplicate_hits_prefer_gate_then_margin_then_score() {
    let slots = vec![
        with_scores(0, 0, 0, "machine-gun", 0.99, 0.50, 0.60),
        with_scores(1, 100, 0, "machine-gun", 0.70, 0.10, 0.95),
    ];
    let t = find_visible_target(&slots, "machine-gun", ItemKind::Stratagem).expect("命中");
    assert_eq!(t.gate_quality, key(0.95), "应优先 gate_quality");

    let slots2 = vec![
        with_scores(0, 0, 0, "x", 0.99, 0.05, 0.90),
        with_scores(1, 100, 0, "x", 0.70, 0.30, 0.90),
    ];
    let t2 = find_visible_target(&slots2, "x", ItemKind::Stratagem).expect("命中");
    assert_eq!(t2.match_margin, key(0.30), "gate 相同时应优先 margin");

    let slots3 = vec![
        with_scores(0, 0, 0, "y", 0.71, 0.20, 0.90),
        with_scores(1, 100, 0, "y", 0.88, 0.20, 0.90),
    ];
    let t3 = find_visible_target(&slots3, "y", ItemKind::Stratagem).expect("命中");
    assert_eq!(t3.match_score, key(0.88), "应优先 score");
}

#[test]
fn next_visible_target_picks_topmost_then_leftmost() {
    let slots = vec![
        slot(0, 0, 0, 300, Some("c")),
        slot(0, 1, 100, 100, Some("b")),
        slot(0, 2, 50, 100, Some("a")),
        slot(1, 0, 0, 500, Some("d")),
    ];
    let remaining = vec!["c".to_string(), "b".to_string(), "a".to_string(), "d".to_string()];
    let t = next_visible_target(&slots, &remaining, ItemKind::Stratagem).expect("命中");
    assert_eq!(t.item_id, "a", "应选最靠上再靠左的可见目标");
}

#[test]
fn next_visible_target_is_none_when_nothing_visible() {
    let slots = vec![slot(0, 0, 0, 0, Some("machine-gun"))];
    let remaining = vec!["railgun".to_string()];
    assert!(next_visible_target(&slots, &remaining, ItemKind::Stratagem).is_none());
    assert!(next_visible_target(&slots, &[], ItemKind::Stratagem).is_none());
}

#[test]
fn visible_priority_avoids_scrolling_for_an_invisible_target() {
    let slots = vec![
        slot(0, 0, 0, 10, Some("visible-far")),
        slot(1, 0, 0, 200, Some("visible-near")),
    ];
    let remaining = vec!["offscreen".to_string(), "visible-far".to_string()];
    let t = next_visible_target(&slots, &remaining, ItemKind::Stratagem).expect("命中");
    assert_eq!(t.item_id, "visible-far");
}

// ── home activation ──

fn home_slot(col: u32, x: i32, occupied: bool) -> SlotRef {
    SlotRef {
        row: 0,
        col,
        rect: ImageRect::new(x, 600, 80, 80),
        selectable: true,
        occupied,
        classification: if occupied { Some(class("machine-gun", 0.9, 0.2, 1.0)) } else { None },
    }
}

fn home_layout(occupied: [bool; 4]) -> Vec<(SlotRef, SlotKind)> {
    let mut v: Vec<(SlotRef, SlotKind)> = occupied
        .iter()
        .enumerate()
        .map(|(i, occ)| (home_slot(i as u32, 10 + i as i32 * 100, *occ), SlotKind::HomeStratagem))
        .collect();
    v.push((home_slot(BOOSTER_COL, 10 + 4 * 100, false), SlotKind::HomeBooster));
    v
}

fn stratagem_target(slots: &[(SlotRef, SlotKind)]) -> Option<(ItemKind, (i32, i32))> {
    find_home_slot_kinded(slots, ItemKind::Stratagem).map(|s| (ItemKind::Stratagem, s.center()))
}

fn booster_target(slots: &[(SlotRef, SlotKind)]) -> Option<(ItemKind, (i32, i32))> {
    find_home_slot_kinded(slots, ItemKind::Booster).map(|s| (ItemKind::Booster, s.center()))
}

#[test]
fn picks_first_empty_stratagem_slot() {
    let slots = home_layout([true, true, false, false]);
    let t = stratagem_target(&slots).expect("应找到空槽");
    assert_eq!(t.0, ItemKind::Stratagem);
    assert_eq!(t.1, (250, 640));
}

#[test]
fn booster_slot_is_never_used_for_stratagems() {
    let slots = home_layout([true, true, true, true]);
    assert!(stratagem_target(&slots).is_none());
    let b = booster_target(&slots).expect("Booster 槽应可用");
    assert_eq!(b.0, ItemKind::Booster);
}

#[test]
fn kinded_lookup_does_not_depend_on_column_convention() {
    let strat = SlotRef {
        row: 0,
        col: 0,
        rect: ImageRect::new(0, 0, 80, 80),
        selectable: true,
        occupied: false,
        classification: None,
    };
    let boost = SlotRef {
        row: 0,
        col: 1,
        rect: ImageRect::new(200, 0, 80, 80),
        selectable: true,
        occupied: false,
        classification: None,
    };
    let pairs = vec![(strat, SlotKind::HomeStratagem), (boost, SlotKind::HomeBooster)];
    let s = find_home_slot_kinded(&pairs, ItemKind::Stratagem).expect("战备槽");
    assert_eq!(s.rect.x, 0);
    let b = find_home_slot_kinded(&pairs, ItemKind::Booster).expect("Booster 槽");
    assert_eq!(b.rect.x, 200);
}

#[test]
fn no_empty_slot_means_no_target() {
    let slots = home_layout([true, true, true, true]);
    assert!(stratagem_target(&slots).is_none());
}

#[test]
fn occupied_slots_are_never_clicked() {
    let slots = home_layout([true, false, false, false]);
    let t = stratagem_target(&slots).expect("应找到空槽");
    assert_eq!(t.1 .0, 10 + 100 + 40, "应选第二个槽");
}

#[test]
fn occupied_but_unrecognized_slot_is_not_treated_as_empty() {
    let unknown = SlotRef {
        row: 0,
        col: 0,
        rect: ImageRect::new(0, 600, 80, 80),
        selectable: true,
        occupied: true,
        classification: None,
    };
    let empty = SlotRef {
        row: 0,
        col: 1,
        rect: ImageRect::new(100, 600, 80, 80),
        selectable: true,
        occupied: false,
        classification: None,
    };
    let unknown_pair = (unknown.clone(), SlotKind::HomeStratagem);
    assert!(find_home_slot_kinded(&[unknown_pair.clone()], ItemKind::Stratagem).is_none());
    let pairs = vec![unknown_pair, (empty, SlotKind::HomeStratagem)];
    let picked = find_home_slot_kinded(&pairs, ItemKind::Stratagem).expect("应选到真正的空槽");
    assert_eq!(picked.center().0, 100 + 40);
    let only_unknown = vec![(unknown, SlotKind::HomeStratagem)];
    assert!(find_home_slot_kinded(&only_unknown, ItemKind::Booster).is_none());
}

#[test]
fn terminal_home_wait_is_bounded_by_the_timeout() {
    assert_eq!(
        terminal_home_step(Some(true), 0, 600),
        TerminalStep::Done(TerminalHomeOutcome::Settled)
    );
    assert_eq!(terminal_home_step(None, 100, 600), TerminalStep::Wait(100));
    assert_eq!(
        terminal_home_step(None, 600, 600),
        TerminalStep::Done(TerminalHomeOutcome::Timeout { elapsed_ms: 600 })
    );
    assert_eq!(terminal_home_step(Some(false), 599, 600), TerminalStep::Wait(599));
    assert_eq!(
        terminal_home_step(Some(false), 700, 600),
        TerminalStep::Done(TerminalHomeOutcome::StillInList)
    );
    // Never observed: the wait ends once the clock passes the timeout.
    let mut now = 0u64;
    let outcome = loop {
        match terminal_home_step(None, now, 600) {
            TerminalStep::Done(o) => break o,
            TerminalStep::Wait(_) => now += 16,
        }
    };
    assert!(matches!(outcome, TerminalHomeOutcome::Timeout { .. }));
}

fn plan(stratagems: &[&str], booster: Option<&str>) -> SessionPlan {
    SessionPlan {
        stratagems: stratagems.iter().map(|s| s.to_string()).collect(),
        booster: booster.map(|b| b.to_string()),
    }
}

/// Feeds the session the events of a selection that confirms `id` on the
/// open list; returns the session's action after the last one.
fn select_in_session(s: SessionState, id: &str) -> (SessionState, SessionAction) {
    let r = ImageRect::new(0, 0, 80, 80);
    let (s, a) = session_step(s, SessionEvent::Select(page_with(id, r)));
    assert_eq!(a, SessionAction::Select(SelectAction::MoveCursor(r)));
    let (s, a) = session_step(s, SessionEvent::Select(relocated(id, r)));
    assert_eq!(a, SessionAction::Select(SelectAction::WaitHover));
    let (s, a) = session_step(s, SessionEvent::Select(SelectEvent::Hover { confirmed: true }));
    assert_eq!(a, SessionAction::Select(SelectAction::Click));
    let (s, a) = session_step(s, SessionEvent::Select(SelectEvent::PostClick(PostClick::Selected)));
    assert_eq!(a, SessionAction::Select(SelectAction::WaitHome));
    session_step(s, SessionEvent::Select(SelectEvent::Home(TerminalHomeOutcome::Settled)))
}

#[test]
fn session_opens_each_slot_after_the_previous_target() {
    let s = SessionState::new(&plan(&["mg", "ac"], Some("boost")));
    let (s, a) = session_step(s, SessionEvent::Begin);
    assert_eq!(a, SessionAction::OpenSlot(ItemKind::Stratagem));
    assert_eq!(s.report().expected, 3);
    let (s, a) = session_step(s, SessionEvent::SlotOpened(Ok(())));
    assert_eq!(a, SessionAction::Select(SelectAction::Observe));
    let (s, a) = select_in_session(s, "mg");
    assert_eq!(a, SessionAction::OpenSlot(ItemKind::Stratagem));
    assert_eq!(s.stage(), SessionStage::Opening(1));
    let (s, _) = session_step(s, SessionEvent::SlotOpened(Ok(())));
    let (s, a) = select_in_session(s, "ac");
    assert_eq!(a, SessionAction::OpenSlot(ItemKind::Booster));
    let (s, a) = session_step(s, SessionEvent::SlotOpened(Ok(())));
    assert_eq!(a, SessionAction::Select(SelectAction::Observe));
    let (s, a) = select_in_session(s, "boost");
    assert_eq!(a, SessionAction::Finish(Ok(())));
    assert_eq!(s.stage(), SessionStage::Done);
    let r = s.report();
    assert_eq!(r.selected, vec!["mg".to_string(), "ac".to_string(), "boost".to_string()]);
    assert_eq!(r.opened_lists, 3);
    assert_eq!(r.clicks, 3);
    assert_eq!(r.hovers_confirmed, 3);
    assert!(r.phases.contains(&"done".to_string()));
    assert!(r.is_success());
}

#[test]
fn session_never_confirms_an_id_outside_its_plan() {
    let s = SessionState::new(&plan(&["mg"], None));
    let (s, _) = session_step(s, SessionEvent::Begin);
    let (s, _) = session_step(s, SessionEvent::SlotOpened(Ok(())));
    let r = ImageRect::new(0, 0, 80, 80);
    // A page that shows only another item: the machine scrolls instead of
    // going for it.
    let down = NavigationHint::Scroll(ScrollDirection::Down);
    let (s, a) = session_step(
        s,
        SessionEvent::Select(SelectEvent::Page { slots: vec![slot_at("other", r)], hint: down }),
    );
    assert!(matches!(a, SessionAction::Select(SelectAction::Scroll(_))));
    assert_eq!(s.report().selected, Vec::<String>::new());
}

#[test]
fn session_failure_stops_with_the_done_prefix() {
    let s = SessionState::new(&plan(&["mg", "ac"], None));
    let (s, _) = session_step(s, SessionEvent::Begin);
    let (s, _) = session_step(s, SessionEvent::SlotOpened(Ok(())));
    let (s, _) = select_in_session(s, "mg");
    let (s, _) = session_step(s, SessionEvent::SlotOpened(Ok(())));
    let r = ImageRect::new(0, 0, 80, 80);
    let (s, _) = session_step(s, SessionEvent::Select(page_with("ac", r)));
    let (s, a) = session_step(s, SessionEvent::Select(SelectEvent::Relocated { slots: Vec::new() }));
    let failure = DirectSelectFailure::TargetLostWhileRelocating { item_id: "ac".into() };
    let reason = format!("ac: {} — {}", failure.label(), failure.message());
    assert_eq!(a, SessionAction::Finish(Err(reason.clone())));
    assert_eq!(s.stage(), SessionStage::Failed(1));
    assert_eq!(s.report().selected, vec!["mg".to_string()]);
    assert_eq!(s.report().failures, vec![reason]);
    assert!(!s.report().is_success());
    let (s, a) = session_step(s, SessionEvent::SlotOpened(Ok(())));
    assert_eq!(a, SessionAction::Stopped);
    assert_eq!(s.stage(), SessionStage::Failed(1));
}

#[test]
fn session_refuses_a_slot_that_did_not_open() {
    let s = SessionState::new(&plan(&["mg"], None));
    let (s, _) = session_step(s, SessionEvent::Begin);
    let (s, a) = session_step(s, SessionEvent::SlotOpened(Err("打开列表失败: timeout".into())));
    assert_eq!(a, SessionAction::Finish(Err("打开列表失败: timeout".into())));
    assert_eq!(s.report().opened_lists, 0);
    assert_eq!(s.stage(), SessionStage::Failed(0));
}

#[test]
fn empty_session_plan_finishes_at_once() {
    let s = SessionState::new(&plan(&[], None));
    let (s, a) = session_step(s, SessionEvent::Begin);
    assert_eq!(a, SessionAction::Finish(Ok(())));
    assert_eq!(s.report().expected, 0);
    assert!(s.report().is_success());
}

#[test]
fn home_slot_choice_skips_list_slots_and_explains_a_refusal() {
    let mut slots = home_layout([true, true, false, false]);
    let list_slot = SlotRef {
        row: 0,
        col: 0,
        rect: ImageRect::new(0, 0, 80, 80),
        selectable: true,
        occupied: false,
        classification: None,
    };
    slots.insert(0, (list_slot, SlotKind::ListStratagem));
    assert_eq!(find_home_slot_only(&slots, ItemKind::Stratagem), Some(3));
    assert_eq!(find_home_slot_only(&slots, ItemKind::Booster), Some(5));

    let full = vec![
        (home_slot(0, 10, true), SlotKind::HomeStratagem),
        (list_slot_at(1, 2), SlotKind::ListStratagem),
    ];
    assert_eq!(find_home_slot_only(&full, ItemKind::Stratagem), None);
    assert_eq!(
        no_empty_slot_reason(ItemKind::Stratagem, Some(UiState::HomeFilled), &full),
        "Home 上没有可用的空槽（Stratagem）；界面状态=home_filled，槽位: [home_stratagem(0,0 occupied=true), list_stratagem(1,2 occupied=false)]"
    );
    assert_eq!(
        no_empty_slot_reason(ItemKind::Booster, None, &[]),
        "Home 上没有可用的空槽（Booster）；界面状态=unknown，槽位: []"
    );
    assert_eq!(list_opened(&ActivationOutcome::ListOpened), Ok(()));
    assert_eq!(
        list_opened(&ActivationOutcome::Timeout { elapsed_ms: 1500 }),
        Err("打开列表失败: timeout".to_string())
    );
}

fn list_slot_at(row: u32, col: u32) -> SlotRef {
    SlotRef {
        row,
        col,
        rect: ImageRect::new(0, 0, 80, 80),
        selectable: true,
        occupied: false,
        classification: None,
    }
}
