use lazybar_core::bar::{Alignment, Bar, DrawCmd, EventAction, Margins, MessageOutcome};
use lazybar_core::events::{Event, EventResponse, IpcError, MouseButton, MouseEvent, XEvent};
use lazybar_core::panel::{Dependence, Panel, PanelDrawInfo};

fn margins() -> Margins {
    Margins { left: 10, internal: 5, right: 10 }
}

fn info(w: i32) -> PanelDrawInfo {
    PanelDrawInfo::new((w, 20), Dependence::Independent, 0, None, None, None)
}

fn named_panel(name: &str, w: i32, endpoint: Option<usize>) -> Panel {
    Panel::new(Some(info(w)), name.to_string(), endpoint, true)
}

fn scenario_bar() -> Bar {
    let mut bar = Bar::new("demo".to_string(), 1000, 20, margins(), false, true);
    bar.add_panel(Alignment::Left, named_panel("A", 100, None));
    bar.add_panel(Alignment::Left, named_panel("B", 700, Some(1)));
    bar.add_panel(Alignment::Center, named_panel("C", 200, None));
    bar.add_panel(Alignment::Right, named_panel("D", 80, None));
    bar.redraw_bar();
    bar
}

fn press(x: i16, y: i16, detail: u8) -> XEvent {
    XEvent::ButtonPress {
        detail,
        same_screen: true,
        event_x: x,
        event_y: y,
        root_x: 0,
        root_y: 0,
    }
}

#[test]
fn click_lands_on_containing_panel() {
    let mut bar = scenario_bar();
    // B occupies [110, 810); a left press at x = 125 reaches it with the
    // offset translated to panel coordinates.
    let action = bar.process_event(&press(125, 10, 1));
    match action {
        EventAction::Forward { alignment, idx, event } => {
            assert_eq!(alignment, Alignment::Left);
            assert_eq!(idx, 1);
            assert_eq!(
                event,
                Event::Mouse(MouseEvent { button: MouseButton::Left, x: 15, y: 10 })
            );
        },
        _ => panic!("expected a forwarded event"),
    }
}

#[test]
fn click_on_panel_without_endpoint_is_dropped() {
    let mut bar = scenario_bar();
    let action = bar.process_event(&press(15, 3, 1));
    assert!(matches!(action, EventAction::Ignored));
}

#[test]
fn click_outside_every_panel_is_dropped() {
    let mut bar = scenario_bar();
    // No panel of a fresh, empty bar can contain the press.
    let mut empty = Bar::new("demo".to_string(), 1000, 20, margins(), false, false);
    assert!(matches!(empty.process_event(&press(500, 3, 1)), EventAction::Ignored));
    // Detail codes outside 1..=5 are dropped too.
    assert!(matches!(bar.process_event(&press(125, 3, 6)), EventAction::Ignored));
    assert!(matches!(bar.process_event(&press(125, 3, 0)), EventAction::Ignored));
}

#[test]
fn off_screen_press_uses_root_coordinates() {
    let mut bar = scenario_bar();
    let action = bar.process_event(&XEvent::ButtonPress {
        detail: 2,
        same_screen: false,
        event_x: 5,
        event_y: 5,
        root_x: 120,
        root_y: 9,
    });
    match action {
        EventAction::Forward { idx, event, .. } => {
            assert_eq!(idx, 1);
            assert_eq!(
                event,
                Event::Mouse(MouseEvent { button: MouseButton::Middle, x: 10, y: 9 })
            );
        },
        _ => panic!("expected a forwarded event"),
    }
}

#[test]
fn expose_repaints_whole_bar() {
    let mut bar = scenario_bar();
    match bar.process_event(&XEvent::Expose) {
        EventAction::Repaint(cmds) => {
            assert_eq!(cmds[0], DrawCmd::ClearRect { start_x: 0, end_x: 1000 });
        },
        _ => panic!("expected a repaint"),
    }
}

#[test]
fn scroll_mapping_honors_reverse_flag() {
    assert_eq!(MouseButton::try_parse(1, false), Ok(MouseButton::Left));
    assert_eq!(MouseButton::try_parse(2, false), Ok(MouseButton::Middle));
    assert_eq!(MouseButton::try_parse(3, false), Ok(MouseButton::Right));
    assert_eq!(MouseButton::try_parse(4, false), Ok(MouseButton::ScrollUp));
    assert_eq!(MouseButton::try_parse(5, false), Ok(MouseButton::ScrollDown));
    assert_eq!(MouseButton::try_parse(4, true), Ok(MouseButton::ScrollDown));
    assert_eq!(MouseButton::try_parse(5, true), Ok(MouseButton::ScrollUp));
    assert!(MouseButton::try_parse(0, false).is_err());
    assert!(MouseButton::try_parse(6, true).is_err());
}

#[test]
fn visibility_command_round_trip() {
    let mut bar = Bar::new("demo".to_string(), 1000, 20, margins(), false, true);
    for i in 0..4 {
        bar.add_panel(Alignment::Left, named_panel(&format!("p{i}"), 50, None));
    }
    bar.send_message("#l3.hide");
    assert!(!bar.left_panels[3].visible);
    bar.send_message("#l3.show");
    assert!(bar.left_panels[3].visible);
    let before: Vec<bool> = bar.left_panels.iter().map(|p| p.visible).collect();
    bar.send_message("#l3.toggle");
    assert!(!bar.left_panels[3].visible);
    bar.send_message("#l3.toggle");
    let after: Vec<bool> = bar.left_panels.iter().map(|p| p.visible).collect();
    assert_eq!(before, after);
}

#[test]
fn visibility_command_errors() {
    let mut bar = scenario_bar();
    match bar.send_message("#l0.blah") {
        MessageOutcome::Rejected(IpcError::UnknownMessage(m)) => assert_eq!(m, "blah"),
        _ => panic!("expected an unknown-message error"),
    }
    match bar.send_message("#l99999999999999999999.show") {
        MessageOutcome::Rejected(IpcError::BadIndex) => {},
        _ => panic!("expected a bad-index error"),
    }
    // An index beyond the region is silently ignored.
    match bar.send_message("#l9.hide") {
        MessageOutcome::Repaint(cmds) => assert!(cmds.is_empty()),
        _ => panic!("expected a silent no-op"),
    }
    // Text not of the command shape is silently ignored.
    match bar.send_message("#what") {
        MessageOutcome::Repaint(cmds) => assert!(cmds.is_empty()),
        _ => panic!("expected a silent no-op"),
    }
}

#[test]
fn bar_level_messages() {
    let mut bar = scenario_bar();
    assert!(matches!(bar.send_message("quit"), MessageOutcome::Terminate));
    match bar.send_message("hide") {
        MessageOutcome::Repaint(cmds) => {
            assert_eq!(cmds[0], DrawCmd::UnmapWindow);
            assert!(!bar.mapped);
        },
        _ => panic!("expected a repaint"),
    }
    match bar.send_message("toggle") {
        MessageOutcome::Repaint(cmds) => {
            assert_eq!(cmds[0], DrawCmd::MapWindow);
            assert!(bar.mapped);
        },
        _ => panic!("expected a repaint"),
    }
    match bar.send_message("nonsense") {
        MessageOutcome::Repaint(cmds) => assert!(cmds.is_empty()),
        _ => panic!("expected a silent no-op"),
    }
}

#[test]
fn panel_message_reaches_unique_endpoint() {
    let mut bar = scenario_bar();
    match bar.send_message("B.refresh") {
        MessageOutcome::Forward { alignment, idx, action } => {
            assert_eq!(alignment, Alignment::Left);
            assert_eq!(idx, 1);
            assert_eq!(action, "refresh");
        },
        _ => panic!("expected a forwarded action"),
    }
}

#[test]
fn panel_message_errors() {
    let mut bar = scenario_bar();
    match bar.send_message("nosuch.refresh") {
        MessageOutcome::Reply(EventResponse::Failure(e)) => {
            assert_eq!(e, "No panel with name nosuch was found");
        },
        _ => panic!("expected a failure reply"),
    }
    // A named panel without an endpoint cannot be messaged.
    match bar.send_message("A.refresh") {
        MessageOutcome::Reply(EventResponse::Failure(e)) => {
            assert_eq!(e, "The target panel has no associated sender and cannot be messaged");
        },
        _ => panic!("expected a failure reply"),
    }
}

#[test]
fn duplicate_panel_names_are_ambiguous() {
    let mut bar = Bar::new("demo".to_string(), 1000, 20, margins(), false, true);
    bar.add_panel(Alignment::Left, named_panel("clock", 50, Some(1)));
    bar.add_panel(Alignment::Right, named_panel("clock", 50, Some(2)));
    match bar.send_message("clock.refresh") {
        MessageOutcome::Reply(resp) => {
            assert_eq!(
                resp.to_line(),
                "FAILURE: This panel has multiple instances and cannot be messaged"
            );
        },
        _ => panic!("expected a failure reply"),
    }
}

#[test]
fn response_lines() {
    assert_eq!(EventResponse::Success.to_line(), "SUCCESS");
    assert_eq!(EventResponse::Failure("oops".to_string()).to_line(), "FAILURE: oops");
    assert_eq!(IpcError::UnknownMessage("blah".to_string()).text(), "Unknown message blah");
    assert_eq!(IpcError::BadIndex.text(), "Invalid panel index");
}

#[test]
fn decimal_parsing() {
    assert_eq!(lazybar_core::text::parse_decimal("123"), Some(123));
    assert_eq!(lazybar_core::text::parse_decimal("0"), Some(0));
    assert_eq!(lazybar_core::text::parse_decimal(""), None);
    assert_eq!(lazybar_core::text::parse_decimal("12a"), None);
    assert_eq!(lazybar_core::text::parse_decimal("99999999999999999999999"), None);
    assert!(lazybar_core::text::str_eq("abc", "abc"));
    assert!(!lazybar_core::text::str_eq("abc", "abd"));
    assert!(!lazybar_core::text::str_eq("abc", "ab"));
}
