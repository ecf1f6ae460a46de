use lazybar_core::ramp::Ramp;

fn ramp(icons: &[&str]) -> Ramp {
    Ramp { icons: icons.iter().map(|s| s.to_string()).collect() }
}

#[test]
fn choose_maps_value_proportionally() {
    let r = ramp(&["low", "mid", "high"]);
    assert_eq!(r.choose_icon(0, 0, 100), "low");
    assert_eq!(r.choose_icon(20, 0, 100), "low");
    assert_eq!(r.choose_icon(50, 0, 100), "mid");
    assert_eq!(r.choose_icon(67, 0, 100), "high");
    assert_eq!(r.choose_icon(100, 0, 100), "high");
}

#[test]
fn choose_clamps_out_of_range_values() {
    let r = ramp(&["a", "b"]);
    assert_eq!(r.choose_icon(-1000, 0, 10), "a");
    assert_eq!(r.choose_icon(1000, 0, 10), "b");
}

#[test]
fn choose_on_empty_ramp_is_empty() {
    let r = Ramp::empty();
    assert_eq!(r.choose_icon(5, 0, 10), "");
}

#[test]
fn choose_on_degenerate_range_takes_first_icon() {
    let r = ramp(&["only", "other"]);
    assert_eq!(r.choose_icon(7, 7, 7), "only");
}

#[test]
fn choose_with_negative_range() {
    let r = ramp(&["cold", "warm", "hot"]);
    assert_eq!(r.choose_icon(-30, -40, -10), "warm");
    assert_eq!(r.choose_icon(-40, -40, -10), "cold");
    assert_eq!(r.choose_icon(-10, -40, -10), "hot");
}

#[test]
fn parse_collects_consecutive_keys() {
    let ramps = vec![(
        "volume".to_string(),
        vec![
            (1u64, "mid".to_string()),
            (0u64, "low".to_string()),
            (2u64, "high".to_string()),
        ],
    )];
    let r = Ramp::parse("volume", &ramps).unwrap();
    assert_eq!(r.icons, vec!["low", "mid", "high"]);
}

#[test]
fn parse_stops_at_first_gap() {
    let ramps = vec![(
        "battery".to_string(),
        vec![(0u64, "empty".to_string()), (2u64, "full".to_string())],
    )];
    let r = Ramp::parse("battery", &ramps).unwrap();
    assert_eq!(r.icons, vec!["empty"]);
}

#[test]
fn parse_unknown_name_is_none() {
    let ramps = vec![("volume".to_string(), vec![(0u64, "low".to_string())])];
    assert!(Ramp::parse("battery", &ramps).is_none());
}
