use liischte::mako::Mako;
use liischte::shell::{ConfigClock, ConfigOsd, OsdAction, OsdHandler, WindowLayer};

#[test]
fn disabling_a_mode_filters_the_list() {
    let mut mako = Mako::new();
    mako.set_modes(vec![
        "do-not-disturb".to_string(),
        "away".to_string(),
        "do-not-disturb".to_string(),
    ]);
    assert_eq!(mako.modes_without("do-not-disturb"), vec!["away".to_string()]);
    assert_eq!(mako.modes_without("other"), mako.modes);
}

#[test]
fn stock_settings() {
    let osd = ConfigOsd::default();
    assert!(osd.enabled);
    assert_eq!(osd.layer, WindowLayer::Overlay);
    assert_eq!(osd.timeout, 4000);
    assert_eq!(osd.respawn_time, 200);
    assert!(ConfigClock::default().seconds);
}

#[test]
fn osd_lifecycle_spawns_respawns_and_keeps() {
    let mut osd = OsdHandler::new();

    // a dead surface is created
    assert_eq!(osd.request_osd(1, 10), OsdAction::CreateSurface);
    assert_eq!(osd.active(), Some((1, 10)));

    // the same event again keeps the surface
    assert_eq!(osd.request_osd(1, 10), OsdAction::Keep);

    // a different event respawns the surface
    assert_eq!(osd.request_osd(2, 20), OsdAction::RespawnLater);
    // while respawning, further requests keep
    assert_eq!(osd.request_osd(3, 30), OsdAction::Keep);

    // the pause passed: the surface comes back
    assert_eq!(osd.on_respawn(), OsdAction::CreateSurface);
    assert_eq!(osd.active(), Some((3, 30)));

    // the timeout closes it, but rendering still sees the last event
    osd.on_close();
    assert_eq!(osd.active(), Some((3, 30)));
}
