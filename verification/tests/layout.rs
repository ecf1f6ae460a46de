use lazybar_core::bar::{Alignment, Bar, CenterState, DrawCmd, Margins};
use lazybar_core::panel::{Dependence, Panel, PanelDrawInfo, PanelStatus};

fn margins() -> Margins {
    Margins { left: 10, internal: 5, right: 10 }
}

fn info(w: i32) -> PanelDrawInfo {
    PanelDrawInfo::new((w, 20), Dependence::Independent, 0, None, None, None)
}

fn panel(name: &str, w: i32) -> Panel {
    Panel::new(Some(info(w)), name.to_string(), None, true)
}

/// Builds the scenario bar: width 1000, margins {left: 10, right: 10,
/// internal: 5}, left panels A (100) and B (50), center C (200), right
/// D (80).
fn scenario_bar() -> Bar {
    let mut bar = Bar::new("demo".to_string(), 1000, 20, margins(), false, false);
    bar.add_panel(Alignment::Left, panel("A", 100));
    bar.add_panel(Alignment::Left, panel("B", 50));
    bar.add_panel(Alignment::Center, panel("C", 200));
    bar.add_panel(Alignment::Right, panel("D", 80));
    bar.redraw_bar();
    bar
}

#[test]
fn new_bar_initial_state() {
    let bar = Bar::new("demo".to_string(), 1000, 20, margins(), false, true);
    assert_eq!(bar.extents.left, 0);
    assert_eq!(bar.extents.center, (500, 500));
    assert_eq!(bar.extents.right, 1000);
    assert!(bar.mapped);
    assert_eq!(bar.center_state, CenterState::Center);
    assert!(bar.ipc);
}

#[test]
fn initial_placement() {
    let bar = scenario_bar();
    assert_eq!(bar.left_panels[0].x, 10);
    assert_eq!(bar.left_panels[1].x, 110);
    assert_eq!(bar.center_panels[0].x, 400);
    assert_eq!(bar.right_panels[0].x, 910);
    assert_eq!(bar.extents.center.0, 400);
    assert_eq!(bar.extents.center.1, 600);
    assert_eq!(bar.center_state, CenterState::Center);
    assert_eq!(bar.extents.left, 160);
    assert_eq!(bar.extents.right, 910);
}

#[test]
fn widening_left_panel_overflows_center() {
    let mut bar = scenario_bar();
    bar.update_panel(Alignment::Left, 1, info(700));
    // left = 10 + 100 + 700 = 810 exceeds mid = 500; the remaining room
    // 910 - 810 - 10 = 90 cannot hold the 200-wide center block, so the
    // overflow branch anchors it at left + internal = 815.
    assert_eq!(bar.extents.left, 810);
    assert_eq!(bar.extents.center.0, 815);
    assert_eq!(bar.center_state, CenterState::Unknown);
    assert_eq!(bar.left_panels[1].x, 110);
}

#[test]
fn hiding_center_panel_recenters() {
    let mut bar = scenario_bar();
    let outcome = bar.send_message("#c0.hide");
    assert!(matches!(outcome, lazybar_core::bar::MessageOutcome::Repaint(_)));
    assert!(!bar.center_panels[0].visible);
    // C is no longer shown, so the center block is empty and centers on
    // the bar's midpoint, and D keeps its natural place.
    assert_eq!(bar.extents.center.0, 500);
    assert_eq!(bar.extents.center.1, 500);
    assert_eq!(bar.center_state, CenterState::Center);
    assert_eq!(bar.right_panels[0].x, 910);
}

#[test]
fn hiding_center_panel_after_left_overflow() {
    let mut bar = scenario_bar();
    bar.update_panel(Alignment::Left, 1, info(700));
    bar.send_message("#c0.hide");
    // The left region still ends at 810, past the midpoint, so even the
    // empty center block is pushed right against it.
    assert_eq!(bar.extents.center.0, 815);
    assert_eq!(bar.center_state, CenterState::Right);
    assert_eq!(bar.right_panels[0].x, 910);
}

#[test]
fn unchanged_width_repaints_only_one_panel() {
    let mut bar = scenario_bar();
    let before = (
        bar.left_panels[0].x,
        bar.left_panels[1].x,
        bar.center_panels[0].x,
        bar.right_panels[0].x,
    );
    let cmds = bar.update_panel(Alignment::Left, 1, info(50));
    assert_eq!(
        cmds,
        vec![
            DrawCmd::ClearRect { start_x: 110, end_x: 160 },
            DrawCmd::DrawPanel { alignment: Alignment::Left, idx: 1, x: 110 },
        ]
    );
    let after = (
        bar.left_panels[0].x,
        bar.left_panels[1].x,
        bar.center_panels[0].x,
        bar.right_panels[0].x,
    );
    assert_eq!(before, after);
}

#[test]
fn widening_right_panel_within_slack_repaints_right_only() {
    let mut bar = scenario_bar();
    // 90 = right(910) - delta(10) - internal(5) - cursor(600) leaves
    // room, so only the right region repaints.
    let cmds = bar.update_panel(Alignment::Right, 0, info(90));
    assert!(cmds.iter().all(|c| !matches!(
        c,
        DrawCmd::DrawPanel { alignment: Alignment::Left, .. }
            | DrawCmd::DrawPanel { alignment: Alignment::Center, .. }
    )));
    assert_eq!(bar.extents.right, 900);
    assert_eq!(bar.right_panels[0].x, 900);
}

#[test]
fn full_repaint_starts_with_full_clear() {
    let mut bar = scenario_bar();
    let cmds = bar.redraw_bar();
    assert_eq!(cmds[0], DrawCmd::ClearRect { start_x: 0, end_x: 1000 });
    assert!(cmds.contains(&DrawCmd::DrawPanel { alignment: Alignment::Left, idx: 0, x: 10 }));
    assert!(cmds.contains(&DrawCmd::DrawPanel { alignment: Alignment::Center, idx: 0, x: 400 }));
    assert!(cmds.contains(&DrawCmd::DrawPanel { alignment: Alignment::Right, idx: 0, x: 910 }));
}

#[test]
fn right_region_keeps_internal_margin_from_center() {
    // The natural right position (1000 - 300 - 8 = 692) clears the
    // center cursor (690) but not by the internal margin, so the right
    // region is clamped to cursor + internal = 695.
    let mut bar = Bar::new(
        "demo".to_string(),
        1000,
        20,
        Margins { left: 0, internal: 5, right: 8 },
        false,
        false,
    );
    bar.add_panel(Alignment::Center, panel("C", 400));
    bar.add_panel(Alignment::Right, panel("R", 300));
    bar.redraw_bar();
    assert_eq!(bar.center_state, CenterState::Left);
    assert_eq!(bar.extents.center.0, 290);
    assert_eq!(bar.extents.center.1, 690);
    assert_eq!(bar.extents.right, 695);
    assert!(bar.extents.right - bar.extents.center.1 >= 5);
}

#[test]
fn extents_stay_ordered_across_repaints() {
    let mut bar = scenario_bar();
    for w in [1, 50, 700, 480, 0] {
        bar.update_panel(Alignment::Left, 1, info(w));
        assert!(bar.extents.left <= bar.extents.center.0);
        assert!(bar.extents.center.0 <= bar.extents.center.1);
        assert!(bar.extents.center.1 <= bar.extents.right);
        assert!(bar.extents.right - bar.extents.center.1 >= 5);
    }
}

#[test]
fn show_and_hide_hooks_fire_on_transitions_only() {
    let mut bar = Bar::new("demo".to_string(), 1000, 20, margins(), false, false);
    let di = PanelDrawInfo::new((100, 20), Dependence::Independent, 0, Some(7), Some(8), None);
    bar.add_panel(Alignment::Left, Panel::new(Some(di), "A".to_string(), None, true));
    let cmds = bar.redraw_bar();
    assert_eq!(
        cmds.iter()
            .filter(|c| matches!(c, DrawCmd::ShowHook { .. }))
            .count(),
        1
    );
    // A second pass with no transition fires no hook.
    let cmds = bar.redraw_bar();
    assert!(cmds.iter().all(|c| !matches!(c, DrawCmd::ShowHook { .. } | DrawCmd::HideHook { .. })));
    // Hiding the panel fires the hide hook exactly once, during the
    // repaint the command triggers.
    let outcome = bar.send_message("#l0.hide");
    let cmds = match outcome {
        lazybar_core::bar::MessageOutcome::Repaint(c) => c,
        _ => panic!("expected a repaint"),
    };
    assert_eq!(
        cmds.iter()
            .filter(|c| matches!(c, DrawCmd::HideHook { .. }))
            .count(),
        1
    );
    // And never again while the panel stays hidden.
    let cmds = bar.redraw_bar();
    assert!(cmds.iter().all(|c| !matches!(c, DrawCmd::ShowHook { .. } | DrawCmd::HideHook { .. })));
}

#[test]
fn dependent_panel_follows_neighbor() {
    // A panel with left dependence and an empty panel before it: the
    // resolver yields ZeroWidth for both, and neither is rendered.
    let empty = Panel::new(None, "empty".to_string(), None, true);
    let dep = Panel::new(
        Some(PanelDrawInfo::new((30, 20), Dependence::Left, 0, None, None, None)),
        "dep".to_string(),
        None,
        true,
    );
    let statuses = Bar::apply_dependence(&vec![empty, dep]);
    assert_eq!(statuses, vec![PanelStatus::ZeroWidth, PanelStatus::ZeroWidth]);
}

#[test]
fn dependence_is_not_transitive() {
    // A shown panel, then a right-dependent panel, then a left-dependent
    // panel.  Each dependent panel takes its neighbor at its primary
    // status, so the neighbor's own dependence shows through instead of
    // being resolved transitively; neither dependent panel is Shown.
    let a = panel("a", 10);
    let b = Panel::new(
        Some(PanelDrawInfo::new((10, 20), Dependence::Right, 0, None, None, None)),
        "b".to_string(),
        None,
        true,
    );
    let c = Panel::new(
        Some(PanelDrawInfo::new((10, 20), Dependence::Left, 0, None, None, None)),
        "c".to_string(),
        None,
        true,
    );
    let statuses = Bar::apply_dependence(&vec![a, b, c]);
    assert_eq!(statuses[0], PanelStatus::Shown);
    assert_eq!(statuses[1], PanelStatus::Dependent(Dependence::Left));
    assert_eq!(statuses[2], PanelStatus::Dependent(Dependence::Right));
}

#[test]
fn zero_width_independent_panel_is_not_shown() {
    let z = panel("z", 0);
    let statuses = Bar::apply_dependence(&vec![z]);
    assert_eq!(statuses, vec![PanelStatus::ZeroWidth]);
}

#[test]
fn invisible_panel_is_zero_width() {
    let mut p = panel("p", 42);
    p.visible = false;
    let statuses = Bar::apply_dependence(&vec![p]);
    assert_eq!(statuses, vec![PanelStatus::ZeroWidth]);
}

#[test]
fn shutdown_collects_hook_handles_in_order() {
    let mut bar = Bar::new("demo".to_string(), 1000, 20, margins(), false, false);
    let with_shutdown = |h: usize| {
        Panel::new(
            Some(PanelDrawInfo::new((10, 20), Dependence::Independent, 0, None, None, Some(h))),
            format!("p{h}"),
            None,
            true,
        )
    };
    bar.add_panel(Alignment::Left, with_shutdown(3));
    bar.add_panel(Alignment::Center, panel("plain", 10));
    bar.add_panel(Alignment::Center, with_shutdown(5));
    bar.add_panel(Alignment::Right, with_shutdown(9));
    assert_eq!(bar.shutdown(), vec![3, 5, 9]);
}
