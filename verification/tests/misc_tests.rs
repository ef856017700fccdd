use messauto::floating::{button_background, button_text_color, close_button_color, floating_window_args, maybe_start_floating_window, parse_args, Rgb, VerificationCodeApp};
use messauto::config::DeliveryStep;
use messauto::language::choose_locale;
use messauto::notification::{dialog_accepted, dialog_script, icon_script_part, launch_sync, LaunchSync};

fn strings(v: &[&str]) -> Vec<String> {
    v.iter().map(|s| s.to_string()).collect()
}

#[test]
fn floating_args_parse() {
    assert_eq!(parse_args(&strings(&["app", "--floating-window", "123456", "Mail"])), Some(("123456".to_string(), "Mail".to_string())));
    assert_eq!(parse_args(&strings(&["app", "--floating-window", "123456"])), None);
    assert_eq!(parse_args(&strings(&["app", "--test", "1", "2"])), None);
    assert_eq!(parse_args(&strings(&["app"])), None);
}

#[test]
fn floating_args_round_trip() {
    let mut args = strings(&["/Applications/Messauto.app/Contents/MacOS/messauto"]);
    args.extend(floating_window_args("654321", "iMessage"));
    assert_eq!(parse_args(&args), Some(("654321".to_string(), "iMessage".to_string())));
}

#[test]
fn floating_window_start_and_close() {
    let app = maybe_start_floating_window(&strings(&["x", "--floating-window", "1", "Test"])).unwrap();
    assert_eq!(app.code, "1");
    assert_eq!(app.source, "Test");
    assert!(!app.closes_after(600_000_000_000));
    assert!(app.closes_after(600_000_000_001));
    assert!(!app.closes_now());
    assert!(maybe_start_floating_window(&strings(&["x"])).is_none());
    let mut app2 = VerificationCodeApp::new("2".to_string(), "Mail".to_string());
    assert_eq!(app2.on_code_clicked(Some(true)), vec![DeliveryStep::DirectInput, DeliveryStep::PressEnter]);
    assert!(app2.should_close && app2.closes_after(0));
    assert_eq!(app2.on_code_clicked(None), vec![DeliveryStep::DirectInput]);
}

#[test]
fn floating_colors() {
    assert_eq!(button_background(true, true, true), Rgb { r: 0x3C, g: 0x3C, b: 0x3C });
    assert_eq!(button_background(false, true, false), Rgb { r: 0xD8, g: 0xD8, b: 0xD8 });
    assert_eq!(button_background(false, false, false), Rgb { r: 0xE6, g: 0xE6, b: 0xE6 });
    assert_eq!(button_text_color(true), Rgb { r: 255, g: 255, b: 255 });
    assert_eq!(close_button_color(false), Rgb { r: 237, g: 106, b: 94 });
}

#[test]
fn locales() {
    assert_eq!(choose_locale(None), "en");
    assert_eq!(choose_locale(Some("en")), "en");
    assert_eq!(choose_locale(Some("zh-CN")), "zh-CN");
    assert_eq!(choose_locale(Some("zh-TW")), "zh-CN");
    assert_eq!(choose_locale(Some("zh-Hans-CN")), "zh-CN");
    assert_eq!(choose_locale(Some("en-GB")), "en");
    assert_eq!(choose_locale(Some("fr-FR")), "en");
    assert_eq!(choose_locale(Some("z")), "zh-CN");
    assert_eq!(choose_locale(Some("")), "en");
}

#[test]
fn dialog_script_and_answer() {
    let icon = icon_script_part(Some("/A/Messauto.icns"));
    assert_eq!(icon, "with icon (POSIX file \"/A/Messauto.icns\")");
    assert_eq!(icon_script_part(None), "");
    assert_eq!(
        dialog_script("T", "Body", "Open", "Later", ""),
        "display dialog \"Body\" with title \"T\"  buttons {\"Later\", \"Open\"} default button \"Open\" cancel button \"Later\""
    );
    assert!(dialog_accepted(true, "button returned:Open\n", "Open"));
    assert!(!dialog_accepted(false, "button returned:Open\n", "Open"));
    assert!(!dialog_accepted(true, "button returned:Later\n", "Open"));
}

#[test]
fn launch_sync_decisions() {
    assert_eq!(launch_sync(true, Some(false)), LaunchSync::Enable);
    assert_eq!(launch_sync(true, None), LaunchSync::Enable);
    assert_eq!(launch_sync(false, Some(true)), LaunchSync::Disable);
    assert_eq!(launch_sync(false, None), LaunchSync::Keep);
    assert_eq!(launch_sync(true, Some(true)), LaunchSync::Keep);
}
