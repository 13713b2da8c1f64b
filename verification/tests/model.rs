use tategoto::model::{AppModel, InputDeviceMode, Settings, TranscriptionStatus};
use tategoto::tray::{click_shows_window, tray_menu_action, tray_menu_items, tray_status_label, tray_title, tray_tooltip, PointerButton, PointerButtonState, TrayAction};

#[test]
fn start_stop_and_error_transitions() {
    let mut model: AppModel<u32> = AppModel::new(Settings::default());
    assert_eq!(model.status, TranscriptionStatus::Idle);
    let settings = model.begin_recording().unwrap();
    assert_eq!(settings.input_device_mode, InputDeviceMode::SystemDefault);
    assert_eq!(model.status, TranscriptionStatus::Recording);
    model.attach_runtime(7);
    assert!(model.begin_recording().is_none());
    assert_eq!(model.take_runtime(), Some(7));
    model.settle_after_stop();
    assert_eq!(model.status, TranscriptionStatus::Idle);

    model.begin_recording().unwrap();
    model.attach_runtime(8);
    model.record_error("disk full".to_string());
    assert!(model.runtime.is_none());
    model.settle_after_stop();
    assert_eq!(model.status, TranscriptionStatus::StoppedWithError);
    assert_eq!(model.last_error.as_deref(), Some("disk full"));
    model.begin_recording().unwrap();
    assert_eq!(model.last_error, None);
}

#[test]
fn snapshot_copies_the_model() {
    let mut model: AppModel<()> = AppModel::new(Settings::default());
    model.record_warning("careful".to_string());
    let snap = model.snapshot(Vec::new(), "/out".into(), "/out/a.md".into(), "/out/a.jsonl".into());
    assert_eq!(snap.status, TranscriptionStatus::Idle);
    assert_eq!(snap.last_warning.as_deref(), Some("careful"));
    assert_eq!(snap.today_markdown_path, "/out/a.md");
}

#[test]
fn tray_labels_per_status() {
    assert_eq!(tray_status_label(&TranscriptionStatus::Idle), ("○", "待機中"));
    assert_eq!(tray_status_label(&TranscriptionStatus::Recording), ("●", "録音中"));
    assert_eq!(tray_status_label(&TranscriptionStatus::StoppedWithError), ("!", "エラー"));
    assert_eq!(tray_title(&TranscriptionStatus::Idle), "○ 待機中");
    assert_eq!(tray_tooltip(&TranscriptionStatus::Recording), "Tategoto: 録音中");
}

#[test]
fn tray_menu_and_clicks() {
    let ids: Vec<String> = tray_menu_items().into_iter().map(|i| i.id).collect();
    assert_eq!(ids, vec!["show", "start", "stop", "quit"]);
    assert_eq!(tray_menu_action("start"), Some(TrayAction::StartRecording));
    assert_eq!(tray_menu_action("quit"), Some(TrayAction::Quit));
    assert_eq!(tray_menu_action("other"), None);
    assert!(click_shows_window(PointerButton::Left, PointerButtonState::Up));
    assert!(!click_shows_window(PointerButton::Left, PointerButtonState::Down));
    assert!(!click_shows_window(PointerButton::Right, PointerButtonState::Up));
}
