use lib::resource_scan::{ResourceReport, ScanOptions};
use lib::resource_scan_view::{ResourceClass, ResourceKey};
use lib::scan_session::{should_send_progress, ResourceScanUi, ScanMsg, ScanState, ScanView};

fn report() -> ResourceReport {
    ResourceReport {
        per_level: vec![],
        levels_scanned: 3,
        levels_skipped: 0,
        submap_music: None,
        exgfx_installed: vec![],
        options: ScanOptions::all(),
    }
}

#[test]
fn a_scan_runs_reports_progress_and_finishes() {
    let (s, spawn) = ScanState::Idle.start();
    assert!(spawn);
    assert!(s.is_running());
    let (s, clear) = s.on_message(ScanMsg::Progress(40));
    assert!(!clear);
    assert!(matches!(s, ScanState::Running { scanned: 40 }));
    let (s, spawn) = s.start();
    assert!(!spawn, "a running scan is not restarted");
    let (s, clear) = s.on_message(ScanMsg::Finished(Ok(report())));
    assert!(clear);
    assert!(s.has_report());
    assert!(matches!(&s, ScanState::Done(r) if r.levels_scanned == 3));
    // Messages after the end change nothing.
    let (s, _) = s.on_message(ScanMsg::Progress(1));
    assert!(s.has_report());
}

#[test]
fn cancelled_and_failed_scans() {
    let (s, _) = ScanState::Idle.start();
    let (s, _) = s.on_message(ScanMsg::Finished(Err("scan cancelled".to_string())));
    assert!(matches!(s, ScanState::Idle));
    let (s, _) = s.start();
    let (s, clear) = s.on_message(ScanMsg::Finished(Err("parsing ROM image".to_string())));
    assert!(!clear);
    assert!(matches!(&s, ScanState::Failed(m) if m == "parsing ROM image"));
    let (s, stop_worker) = s.cancel();
    assert!(!stop_worker);
    assert!(matches!(s, ScanState::Idle));
    let (s, _) = ScanState::Idle.start();
    let (s, stop_worker) = s.cancel();
    assert!(stop_worker);
    assert!(matches!(s, ScanState::Idle));
}

#[test]
fn progress_is_throttled() {
    assert!(!should_send_progress(0, 3));
    assert!(should_send_progress(0, 4));
    assert!(!should_send_progress(508, 511));
    assert!(should_send_progress(510, 512));
}

#[test]
fn results_window_follows_the_scan() {
    let mut ui = ResourceScanUi::new();
    assert!(!ui.is_running() && !ui.has_report());
    assert_eq!(ui.view, ScanView::ByResource);
    assert_eq!(ui.class, ResourceClass::Music);
    ui.save_ok = Some("Report saved".to_string());
    ui.selected = Some(ResourceKey::Sprite(3));
    assert!(ui.start());
    assert!(ui.is_running());
    assert!(ui.save_ok.is_none());
    assert!(!ui.start());
    ui.on_message(ScanMsg::Progress(8));
    assert!(matches!(ui.state, ScanState::Running { scanned: 8 }));
    assert_eq!(ui.selected, Some(ResourceKey::Sprite(3)));
    ui.on_message(ScanMsg::Finished(Ok(report())));
    assert!(ui.has_report());
    assert_eq!(ui.selected, None);
    assert!(!ui.cancel());
    assert!(matches!(ui.state, ScanState::Idle));
}
