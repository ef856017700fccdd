use messauto::updater::{
    check_due_now, check_time_record, get_current_arch, get_endpoint, get_system_proxy_url, load_last_check_time,
    proxy_url, save_last_check_time, should_check_for_updates, start_update_check, update_step, CheckOutcome,
    ProxySettings, UpdateAction, UpdateEvent, UpdateStage, UtcInstant,
};

#[test]
fn arch_and_endpoint() {
    assert_eq!(get_current_arch("aarch64"), "aarch64");
    assert_eq!(get_current_arch("x86_64"), "x86_64");
    assert_eq!(get_current_arch("riscv64"), "universal");
    assert_eq!(
        get_endpoint("aarch64"),
        "https://github.com/LeeeSe/MessAuto/releases/latest/download/update-aarch64.json"
    );
}

#[test]
fn proxy_urls() {
    let p = ProxySettings { enable: true, host: "127.0.0.1".to_string(), port: 7890 };
    assert_eq!(proxy_url(&p), Some("http://127.0.0.1:7890".to_string()));
    let off = ProxySettings { enable: false, host: "h".to_string(), port: 0 };
    assert_eq!(proxy_url(&off), None);
    let zero = ProxySettings { enable: true, host: "h".to_string(), port: 0 };
    assert_eq!(get_system_proxy_url(Some(zero)), Some("http://h:0".to_string()));
    assert_eq!(get_system_proxy_url(None), None);
}

#[test]
fn check_time_round_trip() {
    let t = load_last_check_time("2024-03-01T10:00:00+08:00").unwrap();
    assert_eq!(t, UtcInstant { secs: 1709258400, nanos: 0 });
    assert_eq!(check_time_record(t), Some("2024-03-01T02:00:00+00:00".to_string()));
    assert_eq!(load_last_check_time("yesterday"), None);
    let (now, text) = save_last_check_time();
    let now = now.unwrap();
    let again = load_last_check_time(&text.unwrap()).unwrap();
    assert_eq!(again, now);
    assert!(!check_due_now(Some(now)));
    let far = UtcInstant { secs: 253_402_300_799, nanos: 123_000_000 };
    assert_eq!(load_last_check_time(&check_time_record(far).unwrap()), Some(far));
    assert!(check_due_now(None));
}

#[test]
fn check_time_round_trip_before_1970() {
    let year_zero = UtcInstant { secs: -62_167_219_200, nanos: 5 };
    let text = check_time_record(year_zero).unwrap();
    assert_eq!(text, "0000-01-01T00:00:00.000000005+00:00");
    assert_eq!(load_last_check_time(&text), Some(year_zero));
    let just_before = UtcInstant { secs: -1, nanos: 999_999_999 };
    let text = check_time_record(just_before).unwrap();
    assert_eq!(text, "1969-12-31T23:59:59.999999999+00:00");
    assert_eq!(load_last_check_time(&text), Some(just_before));
}

#[test]
fn update_check_due_after_a_day() {
    let last = UtcInstant { secs: 1_000_000, nanos: 500 };
    assert!(should_check_for_updates(last, None));
    assert!(!should_check_for_updates(last, Some(last)));
    assert!(!should_check_for_updates(UtcInstant { secs: 1_000_000 + 24 * 3600, nanos: 499 }, Some(last)));
    assert!(should_check_for_updates(UtcInstant { secs: 1_000_000 + 24 * 3600, nanos: 500 }, Some(last)));
    assert!(!should_check_for_updates(UtcInstant { secs: 1_000_000 - 30 * 3600, nanos: 0 }, Some(last)));
}

#[test]
fn version_parsing() {
    let (v, s, a) = start_update_check("0.3.1");
    assert!(v.is_some());
    assert_eq!((s, a), (UpdateStage::Checking, UpdateAction::CheckForUpdate));
    let (v, s, a) = start_update_check("1.2");
    assert!(v.is_none());
    assert_eq!((s, a), (UpdateStage::Finished, UpdateAction::Stop));
    assert!(start_update_check("").0.is_none());
}

#[test]
fn update_flow() {
    let (s, a) = update_step(UpdateStage::ParsingVersion, UpdateEvent::VersionParsed(true));
    assert_eq!((s, a), (UpdateStage::Checking, UpdateAction::CheckForUpdate));
    let (s, a) = update_step(s, UpdateEvent::CheckDone(CheckOutcome::NewVersion));
    assert_eq!((s, a), (UpdateStage::Downloading, UpdateAction::DownloadUpdate));
    let (s, a) = update_step(s, UpdateEvent::DownloadDone(true));
    assert_eq!((s, a), (UpdateStage::Installing, UpdateAction::InstallUpdate));
    let (s, a) = update_step(s, UpdateEvent::InstallDone(false));
    assert_eq!((s, a), (UpdateStage::AskingRestart, UpdateAction::AskToRestart));
    assert_eq!(update_step(s, UpdateEvent::RestartChosen(true)), (UpdateStage::Finished, UpdateAction::RestartApp));
    assert_eq!(update_step(s, UpdateEvent::RestartChosen(false)), (UpdateStage::Finished, UpdateAction::Stop));
    assert_eq!(
        update_step(UpdateStage::Checking, UpdateEvent::CheckDone(CheckOutcome::UpToDate)),
        (UpdateStage::Finished, UpdateAction::Stop)
    );
    assert_eq!(
        update_step(UpdateStage::ParsingVersion, UpdateEvent::VersionParsed(false)),
        (UpdateStage::Finished, UpdateAction::Stop)
    );
}
