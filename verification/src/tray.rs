//! The tray menu's decisions: its layout, which of its switches can be
//! used, and what each click changes in the settings and asks the caller
//! to do.
use vstd::prelude::*;
use crate::config::Config;
use crate::monitor::{run_commands, MonitorCommand, MonitorState};

verus! {

/// The on/off items of the menu, one for each setting.
#[derive(Debug, Clone, Copy, PartialEq, Eq, Structural)]
pub enum MenuToggle {
    AutoPaste,
    AutoEnter,
    DirectInput,
    LaunchAtLogin,
    ListenEmail,
    ListenMessage,
    FloatingWindow,
}

/// The plain items of the menu.
#[derive(Debug, Clone, Copy, PartialEq, Eq, Structural)]
pub enum MenuCommand {
    OpenConfig,
    OpenLog,
    CheckUpdate,
    HideTray,
    Exit,
}

/// A click on an item.
#[derive(Debug, Clone, Copy, PartialEq, Eq, Structural)]
pub enum MenuAction {
    Toggle(MenuToggle),
    Command(MenuCommand),
}

/// One entry of the menu, top to bottom.
#[derive(Debug, Clone, Copy, PartialEq, Eq, Structural)]
pub enum MenuEntry {
    /// An on/off item, with its initial check mark.
    Check(MenuToggle, bool),
    /// A plain item.
    Item(MenuCommand),
    Separator,
}

/// Something the caller must do after a click.
#[derive(Debug, Clone, Copy, PartialEq, Eq, Structural)]
pub enum TrayEffect {
    /// Set the check mark of an item.
    SetChecked(MenuToggle, bool),
    /// Save the settings.
    SaveConfig,
    /// Apply `menu_logic` of the new settings to the menu.
    ApplyMenuLogic,
    /// Bring launch at login in line with the settings.
    SyncLaunchAtLogin,
    /// Send a command to the monitor.
    SendMonitorCommand(MonitorCommand),
    OpenConfigFile,
    OpenLogFile,
    CheckForUpdates,
    HideTray,
    /// Record that quitting was asked for and leave the event loop.
    Exit,
}

/// Which switches the menu offers for the settings, and the check marks it
/// forces; `None` leaves a mark as it is.
#[derive(Debug, Clone, Copy, PartialEq, Eq, Structural)]
pub struct MenuLogic {
    pub direct_input_enabled: bool,
    pub auto_paste_enabled: bool,
    pub direct_input_checked: Option<bool>,
    pub auto_paste_checked: Option<bool>,
}

/// The floating window takes the code in directly, so it fixes "direct
/// input" on and "auto paste" off; direct input leaves nothing to paste, so
/// it fixes "auto paste" off; otherwise both can be used.
pub open spec fn menu_logic_of(c: Config) -> MenuLogic {
    if c.floating_window {
        MenuLogic {
            direct_input_enabled: false,
            auto_paste_enabled: false,
            direct_input_checked: Some(true),
            auto_paste_checked: Some(false),
        }
    } else if c.direct_input {
        MenuLogic {
            direct_input_enabled: true,
            auto_paste_enabled: false,
            direct_input_checked: None,
            auto_paste_checked: Some(false),
        }
    } else {
        MenuLogic {
            direct_input_enabled: true,
            auto_paste_enabled: true,
            direct_input_checked: None,
            auto_paste_checked: None,
        }
    }
}

/// The switches and forced check marks for the settings `config`.
pub fn menu_logic(config: &Config) -> (m: MenuLogic)
    ensures
        m == menu_logic_of(*config),
{
    if config.floating_window {
        MenuLogic {
            direct_input_enabled: false,
            auto_paste_enabled: false,
            direct_input_checked: Some(true),
            auto_paste_checked: Some(false),
        }
    } else if config.direct_input {
        MenuLogic {
            direct_input_enabled: true,
            auto_paste_enabled: false,
            direct_input_checked: None,
            auto_paste_checked: Some(false),
        }
    } else {
        MenuLogic {
            direct_input_enabled: true,
            auto_paste_enabled: true,
            direct_input_checked: None,
            auto_paste_checked: None,
        }
    }
}

/// The menu, top to bottom, for the settings `c`.
pub open spec fn menu_layout_of(c: Config) -> Seq<MenuEntry> {
    seq![
        MenuEntry::Check(MenuToggle::AutoPaste, c.auto_paste),
        MenuEntry::Check(MenuToggle::AutoEnter, c.auto_enter),
        MenuEntry::Check(MenuToggle::DirectInput, c.direct_input),
        MenuEntry::Separator,
        MenuEntry::Check(MenuToggle::ListenMessage, c.listen_message),
        MenuEntry::Check(MenuToggle::ListenEmail, c.listen_email),
        MenuEntry::Separator,
        MenuEntry::Check(MenuToggle::LaunchAtLogin, c.launch_at_login),
        MenuEntry::Check(MenuToggle::FloatingWindow, c.floating_window),
        MenuEntry::Separator,
        MenuEntry::Item(MenuCommand::OpenConfig),
        MenuEntry::Item(MenuCommand::OpenLog),
        MenuEntry::Item(MenuCommand::CheckUpdate),
        MenuEntry::Separator,
        MenuEntry::Item(MenuCommand::HideTray),
        MenuEntry::Item(MenuCommand::Exit),
    ]
}

/// The entries of the menu for the settings `config` (all of them usable
/// until `menu_logic` is applied).
pub fn menu_layout(config: &Config) -> (r: Vec<MenuEntry>)
    ensures
        r@ == menu_layout_of(*config),
{
    let r = vec![
        MenuEntry::Check(MenuToggle::AutoPaste, config.auto_paste),
        MenuEntry::Check(MenuToggle::AutoEnter, config.auto_enter),
        MenuEntry::Check(MenuToggle::DirectInput, config.direct_input),
        MenuEntry::Separator,
        MenuEntry::Check(MenuToggle::ListenMessage, config.listen_message),
        MenuEntry::Check(MenuToggle::ListenEmail, config.listen_email),
        MenuEntry::Separator,
        MenuEntry::Check(MenuToggle::LaunchAtLogin, config.launch_at_login),
        MenuEntry::Check(MenuToggle::FloatingWindow, config.floating_window),
        MenuEntry::Separator,
        MenuEntry::Item(MenuCommand::OpenConfig),
        MenuEntry::Item(MenuCommand::OpenLog),
        MenuEntry::Item(MenuCommand::CheckUpdate),
        MenuEntry::Separator,
        MenuEntry::Item(MenuCommand::HideTray),
        MenuEntry::Item(MenuCommand::Exit),
    ];
    assert(r@ =~= menu_layout_of(*config));
    r
}

/// The settings after a click, and what the caller must then do, in order.
pub open spec fn click_of(c: Config, a: MenuAction) -> (Config, Seq<TrayEffect>) {
    match a {
        MenuAction::Toggle(MenuToggle::AutoPaste) => {
            let n = Config { auto_paste: !c.auto_paste, ..c };
            (n, seq![TrayEffect::SetChecked(MenuToggle::AutoPaste, n.auto_paste), TrayEffect::SaveConfig])
        },
        MenuAction::Toggle(MenuToggle::AutoEnter) => {
            let n = Config { auto_enter: !c.auto_enter, ..c };
            (n, seq![TrayEffect::SetChecked(MenuToggle::AutoEnter, n.auto_enter), TrayEffect::SaveConfig])
        },
        MenuAction::Toggle(MenuToggle::DirectInput) => {
            let n = Config {
                direct_input: !c.direct_input,
                auto_paste: if !c.direct_input { false } else { c.auto_paste },
                ..c
            };
            (n, seq![TrayEffect::SaveConfig, TrayEffect::ApplyMenuLogic])
        },
        MenuAction::Toggle(MenuToggle::LaunchAtLogin) => {
            let n = Config { launch_at_login: !c.launch_at_login, ..c };
            (n, seq![TrayEffect::SaveConfig, TrayEffect::SyncLaunchAtLogin])
        },
        MenuAction::Toggle(MenuToggle::ListenEmail) => {
            let n = Config { listen_email: !c.listen_email, ..c };
            let cmd = if n.listen_email {
                MonitorCommand::StartEmailMonitoring
            } else {
                MonitorCommand::StopEmailMonitoring
            };
            (
                n,
                seq![
                    TrayEffect::SetChecked(MenuToggle::ListenEmail, n.listen_email),
                    TrayEffect::SaveConfig,
                    TrayEffect::SendMonitorCommand(cmd),
                ],
            )
        },
        MenuAction::Toggle(MenuToggle::ListenMessage) => {
            let n = Config { listen_message: !c.listen_message, ..c };
            let cmd = if n.listen_message {
                MonitorCommand::StartMessageMonitoring
            } else {
                MonitorCommand::StopMessageMonitoring
            };
            (
                n,
                seq![
                    TrayEffect::SetChecked(MenuToggle::ListenMessage, n.listen_message),
                    TrayEffect::SaveConfig,
                    TrayEffect::SendMonitorCommand(cmd),
                ],
            )
        },
        MenuAction::Toggle(MenuToggle::FloatingWindow) => {
            if !c.floating_window {
                let n = Config { floating_window: true, direct_input: true, auto_paste: false, ..c };
                (
                    n,
                    seq![
                        TrayEffect::SetChecked(MenuToggle::DirectInput, true),
                        TrayEffect::SetChecked(MenuToggle::AutoPaste, false),
                        TrayEffect::SaveConfig,
                        TrayEffect::ApplyMenuLogic,
                    ],
                )
            } else {
                let n = Config { floating_window: false, ..c };
                (n, seq![TrayEffect::SaveConfig, TrayEffect::ApplyMenuLogic])
            }
        },
        MenuAction::Command(MenuCommand::OpenConfig) => (c, seq![TrayEffect::OpenConfigFile]),
        MenuAction::Command(MenuCommand::OpenLog) => (c, seq![TrayEffect::OpenLogFile]),
        MenuAction::Command(MenuCommand::CheckUpdate) => (c, seq![TrayEffect::CheckForUpdates]),
        MenuAction::Command(MenuCommand::HideTray) => (c, seq![TrayEffect::HideTray]),
        MenuAction::Command(MenuCommand::Exit) => (c, seq![TrayEffect::Exit]),
    }
}

/// Applies a click to the settings and returns what the caller must then
/// do, in order (see `click_of`).
pub fn handle_menu_click(config: &mut Config, action: MenuAction) -> (r: Vec<TrayEffect>)
    ensures
        (*final(config), r@) == click_of(*old(config), action),
{
    let mut r: Vec<TrayEffect> = Vec::new();
    match action {
        MenuAction::Toggle(MenuToggle::AutoPaste) => {
            config.auto_paste = !config.auto_paste;
            r.push(TrayEffect::SetChecked(MenuToggle::AutoPaste, config.auto_paste));
            r.push(TrayEffect::SaveConfig);
        },
        MenuAction::Toggle(MenuToggle::AutoEnter) => {
            config.auto_enter = !config.auto_enter;
            r.push(TrayEffect::SetChecked(MenuToggle::AutoEnter, config.auto_enter));
            r.push(TrayEffect::SaveConfig);
        },
        MenuAction::Toggle(MenuToggle::DirectInput) => {
            config.direct_input = !config.direct_input;
            if config.direct_input {
                config.auto_paste = false;
            }
            r.push(TrayEffect::SaveConfig);
            r.push(TrayEffect::ApplyMenuLogic);
        },
        MenuAction::Toggle(MenuToggle::LaunchAtLogin) => {
            config.launch_at_login = !config.launch_at_login;
            r.push(TrayEffect::SaveConfig);
            r.push(TrayEffect::SyncLaunchAtLogin);
        },
        MenuAction::Toggle(MenuToggle::ListenEmail) => {
            config.listen_email = !config.listen_email;
            r.push(TrayEffect::SetChecked(MenuToggle::ListenEmail, config.listen_email));
            r.push(TrayEffect::SaveConfig);
            let cmd = if config.listen_email {
                MonitorCommand::StartEmailMonitoring
            } else {
                MonitorCommand::StopEmailMonitoring
            };
            r.push(TrayEffect::SendMonitorCommand(cmd));
        },
        MenuAction::Toggle(MenuToggle::ListenMessage) => {
            config.listen_message = !config.listen_message;
            r.push(TrayEffect::SetChecked(MenuToggle::ListenMessage, config.listen_message));
            r.push(TrayEffect::SaveConfig);
            let cmd = if config.listen_message {
                MonitorCommand::StartMessageMonitoring
            } else {
                MonitorCommand::StopMessageMonitoring
            };
            r.push(TrayEffect::SendMonitorCommand(cmd));
        },
        MenuAction::Toggle(MenuToggle::FloatingWindow) => {
            config.floating_window = !config.floating_window;
            if config.floating_window {
                config.direct_input = true;
                config.auto_paste = false;
                r.push(TrayEffect::SetChecked(MenuToggle::DirectInput, true));
                r.push(TrayEffect::SetChecked(MenuToggle::AutoPaste, false));
            }
            r.push(TrayEffect::SaveConfig);
            r.push(TrayEffect::ApplyMenuLogic);
        },
        MenuAction::Command(MenuCommand::OpenConfig) => r.push(TrayEffect::OpenConfigFile),
        MenuAction::Command(MenuCommand::OpenLog) => r.push(TrayEffect::OpenLogFile),
        MenuAction::Command(MenuCommand::CheckUpdate) => r.push(TrayEffect::CheckForUpdates),
        MenuAction::Command(MenuCommand::HideTray) => r.push(TrayEffect::HideTray),
        MenuAction::Command(MenuCommand::Exit) => r.push(TrayEffect::Exit),
    }
    assert(r@ =~= click_of(*old(config), action).1);
    r
}

/// The settings agree with each other: the floating window goes with direct
/// input, and neither goes with auto paste.
pub open spec fn settings_consistent(c: Config) -> bool {
    &&& c.floating_window ==> c.direct_input
    &&& c.direct_input ==> !c.auto_paste
}

/// The menu offers this click for the settings `c`: "auto paste" and
/// "direct input" only while `menu_logic` leaves them usable.
pub open spec fn click_offered(c: Config, a: MenuAction) -> bool {
    match a {
        MenuAction::Toggle(MenuToggle::AutoPaste) => menu_logic_of(c).auto_paste_enabled,
        MenuAction::Toggle(MenuToggle::DirectInput) => menu_logic_of(c).direct_input_enabled,
        _ => true,
    }
}

/// Every click that the menu offers keeps consistent settings consistent.
pub proof fn lemma_clicks_keep_settings_consistent(c: Config, a: MenuAction)
    requires
        settings_consistent(c),
        click_offered(c, a),
    ensures
        settings_consistent(click_of(c, a).0),
{
}

/// Turning the floating window on always leaves consistent settings, and
/// applies the same marks to "direct input" and "auto paste" that
/// `menu_logic` then forces.
pub proof fn lemma_floating_window_on(c: Config)
    requires
        !c.floating_window,
    ensures
        ({
            let (n, effects) = click_of(c, MenuAction::Toggle(MenuToggle::FloatingWindow));
            &&& n.floating_window
            &&& settings_consistent(n)
            &&& menu_logic_of(n).direct_input_checked == Some(n.direct_input)
            &&& menu_logic_of(n).auto_paste_checked == Some(n.auto_paste)
            &&& effects.contains(TrayEffect::SaveConfig)
        }),
{
    let effects = click_of(c, MenuAction::Toggle(MenuToggle::FloatingWindow)).1;
    assert(effects[2] == TrayEffect::SaveConfig);
}

/// Clicking one of the on/off items that change a single setting twice
/// gives the settings back.
pub proof fn lemma_toggle_twice(c: Config, t: MenuToggle)
    requires
        t != MenuToggle::DirectInput,
        t != MenuToggle::FloatingWindow,
    ensures
        click_of(click_of(c, MenuAction::Toggle(t)).0, MenuAction::Toggle(t)).0 == c,
{
}

/// Clicking "listen to messages" flips that setting and ends by sending
/// the monitor the command that, from any monitor state (its start
/// succeeding), leaves the message watcher running exactly when the new
/// setting is on and the mail watcher as it was; "listen to mail" likewise.
pub proof fn lemma_listen_click_matches_watcher(c: Config, s: MonitorState)
    ensures
        ({
            let (n, e) = click_of(c, MenuAction::Toggle(MenuToggle::ListenMessage));
            &&& n.listen_message == !c.listen_message
            &&& e.last() matches TrayEffect::SendMonitorCommand(cmd) && {
                &&& run_commands(s, seq![cmd]).message_running == n.listen_message
                &&& run_commands(s, seq![cmd]).email_running == s.email_running
            }
        }),
        ({
            let (n, e) = click_of(c, MenuAction::Toggle(MenuToggle::ListenEmail));
            &&& n.listen_email == !c.listen_email
            &&& e.last() matches TrayEffect::SendMonitorCommand(cmd) && {
                &&& run_commands(s, seq![cmd]).email_running == n.listen_email
                &&& run_commands(s, seq![cmd]).message_running == s.message_running
            }
        }),
{
    let cm = if !c.listen_message { MonitorCommand::StartMessageMonitoring } else { MonitorCommand::StopMessageMonitoring };
    let ce = if !c.listen_email { MonitorCommand::StartEmailMonitoring } else { MonitorCommand::StopEmailMonitoring };
    reveal_with_fuel(run_commands, 2);
    assert(seq![cm].drop_last() =~= Seq::<MonitorCommand>::empty());
    assert(seq![ce].drop_last() =~= Seq::<MonitorCommand>::empty());
    let (n, e) = click_of(c, MenuAction::Toggle(MenuToggle::ListenMessage));
    assert(e.last() == TrayEffect::SendMonitorCommand(cm));
    let (n2, e2) = click_of(c, MenuAction::Toggle(MenuToggle::ListenEmail));
    assert(e2.last() == TrayEffect::SendMonitorCommand(ce));
}

} // verus!
