use messauto::config::{delivery_steps, next_step, Config, DeliveryStep};
use messauto::monitor::{initial_commands, MonitorAction, MonitorCommand, MonitorState, WatcherKind};
use messauto::tray::{handle_menu_click, menu_layout, menu_logic, MenuAction, MenuCommand, MenuEntry, MenuToggle, TrayEffect};

fn config() -> Config {
    Config {
        auto_paste: false,
        auto_enter: false,
        direct_input: false,
        launch_at_login: false,
        listen_email: true,
        listen_message: true,
        floating_window: false,
    }
}

#[test]
fn delivery_plans() {
    let c = config();
    assert_eq!(delivery_steps(&c), vec![DeliveryStep::CopyToClipboard]);
    let c2 = Config { auto_paste: true, auto_enter: true, ..c };
    assert_eq!(delivery_steps(&c2), vec![DeliveryStep::CopyToClipboard, DeliveryStep::Paste, DeliveryStep::PressEnter]);
    let c3 = Config { direct_input: true, auto_enter: true, ..c };
    assert_eq!(delivery_steps(&c3), vec![DeliveryStep::DirectInput, DeliveryStep::PressEnter]);
    let c4 = Config { floating_window: true, direct_input: true, auto_enter: true, ..c };
    assert_eq!(delivery_steps(&c4), vec![DeliveryStep::ShowFloatingWindow]);
    let c5 = Config { auto_enter: true, ..c };
    assert_eq!(delivery_steps(&c5), vec![DeliveryStep::CopyToClipboard, DeliveryStep::PressEnter]);
}

#[test]
fn delivery_stops_at_first_failure() {
    let plan = vec![DeliveryStep::CopyToClipboard, DeliveryStep::Paste];
    assert_eq!(next_step(&plan, 0, true), Some(DeliveryStep::CopyToClipboard));
    assert_eq!(next_step(&plan, 1, false), None);
    assert_eq!(next_step(&plan, 2, true), None);
}

#[test]
fn monitor_start_stop_and_status() {
    let mut m = MonitorState::new();
    assert_eq!(m.handle_command(MonitorCommand::StartMessageMonitoring), MonitorAction::StartWatcher(WatcherKind::Message));
    assert!(!m.message_running);
    m.report_start(WatcherKind::Message, true);
    assert!(m.message_running);
    assert_eq!(m.handle_command(MonitorCommand::StartMessageMonitoring), MonitorAction::AlreadyRunning(WatcherKind::Message));
    assert_eq!(
        m.handle_command(MonitorCommand::GetStatus),
        MonitorAction::ReportStatus("Monitoring Status:\n- Message Monitoring: Running\n- Email Monitoring: Stopped".to_string())
    );
    assert_eq!(m.handle_command(MonitorCommand::StopEmailMonitoring), MonitorAction::NotRunning(WatcherKind::Email));
    assert_eq!(m.handle_command(MonitorCommand::StopMessageMonitoring), MonitorAction::StopWatcher(WatcherKind::Message));
    assert_eq!(m, MonitorState::new());
    assert_eq!(m.handle_command(MonitorCommand::StartEmailMonitoring), MonitorAction::StartWatcher(WatcherKind::Email));
    m.report_start(WatcherKind::Email, false);
    assert!(!m.email_running);
}

#[test]
fn monitor_initial_commands() {
    assert_eq!(initial_commands(true, true), vec![MonitorCommand::StartMessageMonitoring, MonitorCommand::StartEmailMonitoring]);
    assert_eq!(initial_commands(false, true), vec![MonitorCommand::StartEmailMonitoring]);
    assert!(initial_commands(false, false).is_empty());
}

#[test]
fn tray_layout_and_logic() {
    let c = config();
    let layout = menu_layout(&c);
    assert_eq!(layout.len(), 16);
    assert_eq!(layout[0], MenuEntry::Check(MenuToggle::AutoPaste, false));
    assert_eq!(layout[4], MenuEntry::Check(MenuToggle::ListenMessage, true));
    assert_eq!(layout[3], MenuEntry::Separator);
    assert_eq!(layout[15], MenuEntry::Item(MenuCommand::Exit));
    let l = menu_logic(&Config { floating_window: true, direct_input: true, ..c });
    assert!(!l.direct_input_enabled && !l.auto_paste_enabled);
    assert_eq!(l.direct_input_checked, Some(true));
    let l2 = menu_logic(&Config { direct_input: true, ..c });
    assert!(l2.direct_input_enabled && !l2.auto_paste_enabled);
    assert_eq!(l2.auto_paste_checked, Some(false));
    let l3 = menu_logic(&c);
    assert!(l3.direct_input_enabled && l3.auto_paste_enabled && l3.auto_paste_checked.is_none());
}

#[test]
fn tray_clicks() {
    let mut c = Config { auto_paste: true, ..config() };
    let e = handle_menu_click(&mut c, MenuAction::Toggle(MenuToggle::DirectInput));
    assert!(c.direct_input && !c.auto_paste);
    assert_eq!(e, vec![TrayEffect::SaveConfig, TrayEffect::ApplyMenuLogic]);
    let e = handle_menu_click(&mut c, MenuAction::Toggle(MenuToggle::ListenEmail));
    assert!(!c.listen_email);
    assert_eq!(
        e,
        vec![
            TrayEffect::SetChecked(MenuToggle::ListenEmail, false),
            TrayEffect::SaveConfig,
            TrayEffect::SendMonitorCommand(MonitorCommand::StopEmailMonitoring)
        ]
    );
    let mut f = config();
    let e = handle_menu_click(&mut f, MenuAction::Toggle(MenuToggle::FloatingWindow));
    assert!(f.floating_window && f.direct_input && !f.auto_paste);
    assert_eq!(e.len(), 4);
    let e = handle_menu_click(&mut f, MenuAction::Toggle(MenuToggle::FloatingWindow));
    assert!(!f.floating_window && f.direct_input);
    assert_eq!(e, vec![TrayEffect::SaveConfig, TrayEffect::ApplyMenuLogic]);
    let before = f;
    let e = handle_menu_click(&mut f, MenuAction::Command(MenuCommand::Exit));
    assert_eq!(f, before);
    assert_eq!(e, vec![TrayEffect::Exit]);
    let e = handle_menu_click(&mut f, MenuAction::Toggle(MenuToggle::LaunchAtLogin));
    assert!(f.launch_at_login);
    assert_eq!(e, vec![TrayEffect::SaveConfig, TrayEffect::SyncLaunchAtLogin]);
}

#[test]
fn tray_clicks_keep_settings_consistent() {
    let mut c = config();
    let actions = [
        MenuAction::Toggle(MenuToggle::AutoPaste),
        MenuAction::Toggle(MenuToggle::DirectInput),
        MenuAction::Toggle(MenuToggle::FloatingWindow),
        MenuAction::Toggle(MenuToggle::FloatingWindow),
        MenuAction::Toggle(MenuToggle::DirectInput),
        MenuAction::Toggle(MenuToggle::AutoPaste),
    ];
    for a in actions {
        let l = menu_logic(&c);
        let offered = match a {
            MenuAction::Toggle(MenuToggle::AutoPaste) => l.auto_paste_enabled,
            MenuAction::Toggle(MenuToggle::DirectInput) => l.direct_input_enabled,
            _ => true,
        };
        if offered {
            handle_menu_click(&mut c, a);
        }
        assert!(!c.floating_window || c.direct_input);
        assert!(!c.direct_input || !c.auto_paste);
    }
}

#[test]
fn monitor_command_sequence() {
    let mut m = MonitorState::new();
    let cmds = [
        MonitorCommand::StartMessageMonitoring,
        MonitorCommand::StartEmailMonitoring,
        MonitorCommand::GetStatus,
        MonitorCommand::StopMessageMonitoring,
        MonitorCommand::StartMessageMonitoring,
        MonitorCommand::StartMessageMonitoring,
        MonitorCommand::StopEmailMonitoring,
    ];
    for c in cmds {
        if let MonitorAction::StartWatcher(k) = m.handle_command(c) {
            m.report_start(k, true);
        }
    }
    assert!(m.message_running);
    assert!(!m.email_running);
}
