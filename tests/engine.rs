use gamma_backlight::reactor::{SETTLE_RETRIES, SETTLE_TIMEOUT_MS, WAIT_FOREVER};
use gamma_backlight::{
    classify_display_event, fraction_of, name_matches, parse_level, scale_for, select_crtc,
    value_at, BrightnessError, Event, GammaTable, LevelSource, Reactor, SourceTag, WatchRegistry,
    CHANNEL_MAX,
};

#[test]
fn identity_ramp_endpoints_and_floor() {
    assert_eq!(value_at(0, 256, None), 0);
    assert_eq!(value_at(255, 256, None), CHANNEL_MAX);
    assert_eq!(value_at(128, 256, None), 32896);
    // 0.5 * 65535 = 32767.5 is truncated.
    assert_eq!(value_at(1, 3, None), 32767);
}

#[test]
fn identity_ramp_is_non_decreasing() {
    for n in [2usize, 3, 17, 256, 1024] {
        let mut prev = 0u16;
        for i in 0..n {
            let v = value_at(i, n, None);
            assert!(v >= prev);
            prev = v;
        }
        assert_eq!(prev, 65535);
    }
}

#[test]
fn scaling_never_brightens() {
    for p in [1u64, 30, 50, 99, 100] {
        for i in 0..256usize {
            assert!(value_at(i, 256, Some(p)) <= value_at(i, 256, None));
        }
    }
}

#[test]
fn top_of_scaled_ramp() {
    assert_eq!(value_at(9, 10, Some(50)), 32767);
    assert_eq!(value_at(255, 256, Some(100)), 65535);
    assert_eq!(value_at(255, 256, Some(10)), 6553);
    assert_eq!(value_at(255, 256, Some(0)), 0);
}

#[test]
fn scale_above_one_is_clamped() {
    assert_eq!(value_at(9, 10, Some(200)), 65535);
    assert_eq!(value_at(1, 3, Some(150)), 49151);
    assert_eq!(value_at(2, 3, Some(150)), 65535);
}

#[test]
fn fraction_half_and_full() {
    assert_eq!(fraction_of(128, 255), Ok(50));
    assert_eq!(fraction_of(255, 255), Ok(100));
    assert_eq!(scale_for(100), None);
    assert_eq!(scale_for(50), Some(50));
    assert_eq!(fraction_of(0, 255), Ok(0));
    assert_eq!(fraction_of(300, 255), Ok(117));
}

#[test]
fn fraction_zero_maximum_is_fatal() {
    assert_eq!(fraction_of(128, 0), Err(BrightnessError::ZeroMaximum));
    assert_eq!(fraction_of(0, 0), Err(BrightnessError::ZeroMaximum));
}

#[test]
fn fraction_overflow() {
    assert_eq!(fraction_of(u64::MAX, 1), Err(BrightnessError::FractionOverflow));
    assert_eq!(fraction_of(u64::MAX, 100), Ok(u64::MAX));
}

#[test]
fn parse_level_accepts_trimmed_decimal() {
    assert_eq!(parse_level(b"128\n"), Ok(128));
    assert_eq!(parse_level(b"  +42 \t\r\n"), Ok(42));
    assert_eq!(parse_level(b"0"), Ok(0));
    assert_eq!(parse_level(b"18446744073709551615"), Ok(u64::MAX));
}

#[test]
fn parse_level_rejects_malformed() {
    for text in [
        &b""[..],
        b"  \n",
        b"+",
        b"-1",
        b"12a",
        b"1 2",
        b"++1",
        b"18446744073709551616",
        b"99999999999999999999999",
    ] {
        assert_eq!(parse_level(text), Err(BrightnessError::MalformedLevel));
    }
}

#[test]
fn output_names_match_by_prefix() {
    assert!(name_matches(b"eDP-1", b"eDP-1"));
    assert!(name_matches(b"eDP-1-2", b"eDP-1"));
    assert!(!name_matches(b"eDP", b"eDP-1"));
    assert!(!name_matches(b"HDMI-1", b"eDP-1"));
    assert!(!name_matches(&[b'e', b'D', b'P', b'-', b'1', 0xff], b"eDP-1"));
}

#[test]
fn crtc_selection() {
    assert_eq!(select_crtc(b"eDP-1", 0x42, b"eDP-1"), Some(0x42));
    assert_eq!(select_crtc(b"eDP-1-2", 7, b"eDP-1"), Some(7));
    assert_eq!(select_crtc(b"eDP-1", 0, b"eDP-1"), None);
    assert_eq!(select_crtc(b"DP-2", 0x42, b"eDP-1"), None);
}

#[test]
fn gamma_table_requires_equal_channels() {
    assert!(GammaTable::from_channels(vec![0; 4], vec![0; 4], vec![0; 3]).is_none());
    let t = GammaTable::from_channels(vec![0; 4], vec![0; 4], vec![0; 4]).unwrap();
    assert_eq!(t.size(), 4);
}

#[test]
fn gamma_table_identity_and_scaled() {
    let mut t = GammaTable::from_channels(vec![7; 4], vec![8; 4], vec![9; 4]).unwrap();
    t.apply_scale(None);
    let (r, g, b) = t.into_channels();
    assert_eq!(r, vec![0, 21845, 43690, 65535]);
    assert_eq!(g, r);
    assert_eq!(b, r);

    let mut t = GammaTable::from_channels(vec![1; 4], vec![2; 4], vec![3; 4]).unwrap();
    t.apply_scale(Some(50));
    let (r, g, b) = t.into_channels();
    assert_eq!(r, vec![0, 10922, 21845, 32767]);
    assert_eq!(g, r);
    assert_eq!(b, r);
}

#[test]
fn gamma_table_single_entry_is_top() {
    let mut t = GammaTable::from_channels(vec![0], vec![0], vec![0]).unwrap();
    t.apply_scale(None);
    assert_eq!(t.into_channels(), (vec![65535], vec![65535], vec![65535]));
    let mut t = GammaTable::from_channels(vec![0], vec![0], vec![0]).unwrap();
    t.apply_scale(Some(50));
    assert_eq!(t.into_channels(), (vec![32767], vec![32767], vec![32767]));
}

fn started(requested: &[u8], maximum: &[u8]) -> Reactor {
    let mut r = Reactor::new();
    assert!(r.needs_read(LevelSource::Requested));
    assert!(r.needs_read(LevelSource::Maximum));
    r.record_level(LevelSource::Requested, requested).unwrap();
    r.record_level(LevelSource::Maximum, maximum).unwrap();
    assert!(!r.needs_read(LevelSource::Requested));
    assert!(!r.needs_read(LevelSource::Maximum));
    r
}

#[test]
fn reactor_applies_half_brightness() {
    let mut r = started(b"128\n", b"255\n");
    assert_eq!(r.reconcile(), Ok(Some(Some(50))));
    assert_eq!(r.applied, Some(50));
    assert_eq!(r.wait_timeout(), WAIT_FOREVER);
}

#[test]
fn reactor_full_brightness_uses_identity() {
    let mut r = started(b"255\n", b"255\n");
    assert_eq!(r.reconcile(), Ok(Some(None)));
}

#[test]
fn reactor_reconcile_is_idempotent() {
    let mut r = started(b"128\n", b"255\n");
    assert_eq!(r.reconcile(), Ok(Some(Some(50))));
    let before = r;
    assert_eq!(r.reconcile(), Ok(None));
    assert_eq!(r, before);
}

#[test]
fn reactor_zero_maximum_is_fatal() {
    let mut r = started(b"10\n", b"0\n");
    assert_eq!(r.reconcile(), Err(BrightnessError::ZeroMaximum));
    assert_eq!(r.applied, None);
}

#[test]
fn reactor_malformed_level_keeps_state() {
    let mut r = Reactor::new();
    assert_eq!(
        r.record_level(LevelSource::Requested, b"abc"),
        Err(BrightnessError::MalformedLevel)
    );
    assert_eq!(r, Reactor::new());
}

#[test]
fn reactor_level_change_marks_dirty() {
    let mut r = started(b"128\n", b"255\n");
    r.reconcile().unwrap();
    r.handle(Event::LevelChanged(LevelSource::Requested));
    assert!(r.needs_read(LevelSource::Requested));
    assert!(!r.needs_read(LevelSource::Maximum));
    r.record_level(LevelSource::Requested, b"51\n").unwrap();
    assert_eq!(r.reconcile(), Ok(Some(Some(20))));
    r.handle(Event::LevelChanged(LevelSource::Maximum));
    assert!(r.needs_read(LevelSource::Maximum));
}

#[test]
fn reactor_display_change_forces_reapply() {
    let mut r = started(b"128\n", b"255\n");
    r.reconcile().unwrap();
    r.handle(Event::DisplayChanged);
    assert_eq!(r.applied, None);
    assert_eq!(r.reconcile(), Ok(Some(Some(50))));
    assert_eq!(r.wait_timeout(), WAIT_FOREVER);
}

#[test]
fn reactor_settle_window() {
    let mut r = started(b"128\n", b"255\n");
    r.reconcile().unwrap();
    r.handle(Event::BusSignal);
    let mut applications = 0u64;
    let mut short_waits = 0u64;
    loop {
        if r.reconcile().unwrap().is_some() {
            applications += 1;
        }
        let timeout = r.wait_timeout();
        if timeout == WAIT_FOREVER {
            break;
        }
        assert_eq!(timeout, SETTLE_TIMEOUT_MS);
        short_waits += 1;
        r.handle(Event::TimedOut);
    }
    assert_eq!(short_waits, SETTLE_RETRIES);
    assert_eq!(short_waits, 10);
    assert_eq!(applications, SETTLE_RETRIES + 1);
}

#[test]
fn reactor_timeout_outside_settle_window_does_nothing() {
    let mut r = started(b"128\n", b"255\n");
    r.reconcile().unwrap();
    let before = r;
    r.handle(Event::TimedOut);
    assert_eq!(r, before);
}

#[test]
fn display_events_are_classified() {
    assert_eq!(classify_display_event(90, 89, 1), Some(Event::DisplayChanged));
    assert_eq!(classify_display_event(89, 89, 1), None);
    assert_eq!(classify_display_event(12, 89, 1), None);
}

#[test]
fn registry_reports_ready_slots_in_order() {
    let mut reg = WatchRegistry::new();
    assert_eq!(reg.register(SourceTag::LevelFiles), 0);
    assert_eq!(reg.register(SourceTag::Display), 1);
    assert_eq!(reg.register(SourceTag::SystemBus), 2);
    assert_eq!(reg.register(SourceTag::SessionBus), 3);
    assert_eq!(reg.len(), 4);
    assert_eq!(reg.tag_at(2), Some(SourceTag::SystemBus));
    assert_eq!(reg.tag_at(4), None);
    assert_eq!(
        reg.ready_slots(&[0, 1, 0, 4]),
        vec![(1, SourceTag::Display), (3, SourceTag::SessionBus)]
    );
    assert_eq!(reg.ready_slots(&[0, 0, 0, 0]), vec![]);
}
