//! Self-update: where updates are looked up, through which proxy, when a
//! check is due, and the steps of one check.
use vstd::prelude::*;
use crate::numbers::{decimal, push_decimal};

verus! {

/// The update channel for a target architecture: `aarch64` and `x86_64`
/// have their own, every other architecture takes the universal one.
pub open spec fn arch_label_of(target_arch: Seq<char>) -> Seq<char> {
    if target_arch == "aarch64"@ {
        "aarch64"@
    } else if target_arch == "x86_64"@ {
        "x86_64"@
    } else {
        "universal"@
    }
}

/// The update channel for the architecture the program was built for
/// (`std::env::consts::ARCH`, which the caller passes in).
pub fn get_current_arch(target_arch: &str) -> (r: &'static str)
    ensures
        r@ == arch_label_of(target_arch@),
{
    let t = String::from_str(target_arch);
    if t == String::from_str("aarch64") {
        "aarch64"
    } else if t == String::from_str("x86_64") {
        "x86_64"
    } else {
        "universal"
    }
}

/// The address of the update manifest for an update channel.
pub open spec fn endpoint_for(arch: Seq<char>) -> Seq<char> {
    "https://github.com/LeeeSe/MessAuto/releases/latest/download/update-"@ + arch + ".json"@
}

/// The address of the update manifest for the update channel `arch`.
pub fn get_endpoint(arch: &str) -> (r: String)
    ensures
        r@ == endpoint_for(arch@),
{
    let mut r = String::from_str("https://github.com/LeeeSe/MessAuto/releases/latest/download/update-");
    r.append(arch);
    r.append(".json");
    r
}

/// The system's proxy settings, as far as the update check reads them.
pub struct ProxySettings {
    pub enable: bool,
    pub host: String,
    pub port: u16,
}

/// The proxy address to fetch updates through: `http://host:port` where
/// the system proxy is switched on, none where it is off.
pub open spec fn proxy_url_for(enable: bool, host: Seq<char>, port: u16) -> Option<Seq<char>> {
    if enable {
        Some("http://"@ + host + ":"@ + decimal(port as nat))
    } else {
        None
    }
}

/// The proxy address for the proxy settings `p` (see `proxy_url_for`).
pub fn proxy_url(p: &ProxySettings) -> (r: Option<String>)
    ensures
        r matches Some(u) ==> proxy_url_for(p.enable, p.host@, p.port) == Some(u@),
        r is None ==> proxy_url_for(p.enable, p.host@, p.port) is None,
{
    if !p.enable {
        return None;
    }
    let mut u = String::from_str("http://");
    u.append(p.host.as_str());
    u.append(":");
    push_decimal(&mut u, p.port as u64);
    Some(u)
}

/// The proxy to fetch updates through, from the system's proxy settings
/// (none where they could not be read): the system's, where it is switched on.
pub fn get_system_proxy_url(settings: Option<ProxySettings>) -> (r: Option<String>)
    ensures
        r matches Some(u) ==> (settings matches Some(p) && proxy_url_for(p.enable, p.host@, p.port) == Some(u@)),
        r is None ==> (settings matches Some(p) ==> !p.enable),
{
    match settings {
        Some(p) => proxy_url(&p),
        None => None,
    }
}

/// A moment in UTC: whole seconds since the Unix epoch and nanoseconds
/// past them (from `1_000_000_000` on within a leap second).
#[derive(Debug, Clone, Copy, PartialEq, Eq, Structural)]
pub struct UtcInstant {
    pub secs: i64,
    pub nanos: u32,
}

/// What `chrono::DateTime::parse_from_rfc3339` reads out of `s`, converted
/// to UTC, as seconds and nanoseconds, or `None` where it refuses `s`.
pub uninterp spec fn rfc3339_instant(s: Seq<char>) -> Option<(i64, u32)>;

/// What `chrono::DateTime::<Utc>::to_rfc3339` writes for the moment
/// `secs`/`nanos`, or `None` where `DateTime::from_timestamp` cannot hold it.
pub uninterp spec fn rfc3339_text(secs: i64, nanos: u32) -> Option<Seq<char>>;

/// What `(later - earlier).num_hours()` gives for two chrono moments, or
/// `None` where `DateTime::from_timestamp` cannot hold one of them.
pub uninterp spec fn chrono_whole_hours(later_secs: i64, later_nanos: u32, earlier_secs: i64, earlier_nanos: u32) -> Option<i64>;

/// `x / d` rounded toward zero.
pub open spec fn div_toward_zero(x: int, d: int) -> int {
    if x >= 0 {
        x / d
    } else {
        -((-x) / d)
    }
}

#[verifier::external_type_specification]
#[verifier::external_body]
pub struct ExSystemTime(std::time::SystemTime);

/// `SystemTime::now`: the current moment of the system clock, the moment
/// `chrono::Utc::now` reads.
#[verifier::external_body]
fn system_now() -> (t: std::time::SystemTime) {
    std::time::SystemTime::now()
}

/// `SystemTime::duration_since(UNIX_EPOCH)`: the time from 1970 to `t`,
/// none where `t` is before 1970.
#[verifier::external_body]
fn since_unix_epoch(t: &std::time::SystemTime) -> (d: Option<core::time::Duration>) {
    t.duration_since(std::time::UNIX_EPOCH).ok()
}

/// `Duration::as_secs`: the whole seconds of `d`.
#[verifier::external_body]
fn duration_secs(d: &core::time::Duration) -> (n: u64) {
    d.as_secs()
}

/// `Duration::subsec_nanos`: the nanoseconds of `d` past its whole
/// seconds, always below one second.
#[verifier::external_body]
fn duration_subsec_nanos(d: &core::time::Duration) -> (n: u32)
    ensures
        n < 1_000_000_000,
{
    d.subsec_nanos()
}

/// The current moment of the system clock, the moment `chrono::Utc::now`
/// reads; none where the clock reads before 1970 (or past what an `i64` of
/// seconds holds).
fn system_clock() -> (r: Option<UtcInstant>)
    ensures
        r matches Some(t) ==> t.secs >= 0 && t.nanos < 1_000_000_000,
{
    let now = system_now();
    let d = match since_unix_epoch(&now) {
        Some(d) => d,
        None => return None,
    };
    let secs = duration_secs(&d);
    if secs > 9_223_372_036_854_775_807u64 {
        return None;
    }
    Some(UtcInstant { secs: secs as i64, nanos: duration_subsec_nanos(&d) })
}

/// `chrono::DateTime::parse_from_rfc3339`, converted to UTC.
#[verifier::external_body]
fn parse_rfc3339(s: &str) -> (r: Option<UtcInstant>)
    ensures
        r matches Some(t) ==> rfc3339_instant(s@) == Some((t.secs, t.nanos)),
        r is None ==> rfc3339_instant(s@) is None,
{
    match chrono::DateTime::parse_from_rfc3339(s) {
        Ok(dt) => {
            let utc = dt.with_timezone(&chrono::Utc);
            Some(UtcInstant { secs: utc.timestamp(), nanos: utc.timestamp_subsec_nanos() })
        },
        Err(_) => None,
    }
}

/// The moments from the year 0 through the year 9999, outside leap
/// seconds: those that `to_rfc3339` writes with a four-digit year and whole
/// seconds below 60.
pub open spec fn plain_rfc3339_moment(t: UtcInstant) -> bool {
    -62_167_219_200 <= t.secs <= 253_402_300_799 && t.nanos < 1_000_000_000
}

/// `chrono::DateTime::<Utc>::to_rfc3339` of the moment `t`. For a moment
/// from the year 0 through 9999 outside a leap second, `from_timestamp` holds it
/// and the text (`YYYY-MM-DDTHH:MM:SS`, the fraction in 3, 6 or 9 digits where
/// it is not zero, then `+00:00`) is read back by `parse_from_rfc3339` as
/// the same moment.
#[verifier::external_body]
fn format_rfc3339(t: UtcInstant) -> (r: Option<String>)
    ensures
        r matches Some(s) ==> rfc3339_text(t.secs, t.nanos) == Some(s@),
        r is None ==> rfc3339_text(t.secs, t.nanos) is None,
        r is None ==> !plain_rfc3339_moment(t),
        r matches Some(s) ==> (plain_rfc3339_moment(t) ==> rfc3339_instant(s@) == Some((t.secs, t.nanos))),
{
    chrono::DateTime::<chrono::Utc>::from_timestamp(t.secs, t.nanos).map(|dt| dt.to_rfc3339())
}

/// `(later - earlier).num_hours()` of two chrono moments: where neither is
/// within a leap second, the whole hours between them, rounded toward zero.
#[verifier::external_body]
fn whole_hours_between(later: UtcInstant, earlier: UtcInstant) -> (r: Option<i64>)
    ensures
        r == chrono_whole_hours(later.secs, later.nanos, earlier.secs, earlier.nanos),
        r matches Some(h) ==> (later.nanos < 1_000_000_000 && earlier.nanos < 1_000_000_000 ==> h
            == div_toward_zero(
            (later.secs - earlier.secs) * 1_000_000_000 + later.nanos - earlier.nanos,
            3_600_000_000_000,
        )),
{
    let a = chrono::DateTime::<chrono::Utc>::from_timestamp(later.secs, later.nanos)?;
    let b = chrono::DateTime::<chrono::Utc>::from_timestamp(earlier.secs, earlier.nanos)?;
    Some((a - b).num_hours())
}

/// A check is due when none was recorded, when a day (24 whole hours) or
/// more has passed since the last one, and when the two moments cannot be
/// compared.
pub open spec fn check_due(now: UtcInstant, last: Option<UtcInstant>) -> bool {
    match last {
        None => true,
        Some(l) => match chrono_whole_hours(now.secs, now.nanos, l.secs, l.nanos) {
            Some(h) => h >= 24,
            None => true,
        },
    }
}

/// Whether an update check is due at `now`, the last one having been
/// recorded at `last` (see `check_due`).
pub fn should_check_for_updates(now: UtcInstant, last: Option<UtcInstant>) -> (b: bool)
    ensures
        b == check_due(now, last),
        last matches Some(l) ==> (now.nanos < 1_000_000_000 && l.nanos < 1_000_000_000
            && chrono_whole_hours(now.secs, now.nanos, l.secs, l.nanos) is Some ==> b == (div_toward_zero(
            (now.secs - l.secs) * 1_000_000_000 + now.nanos - l.nanos,
            3_600_000_000_000,
        ) >= 24)),
        last == Some(now) && now.nanos < 1_000_000_000 && chrono_whole_hours(
            now.secs,
            now.nanos,
            now.secs,
            now.nanos,
        ) is Some ==> !b,
{
    match last {
        None => true,
        Some(l) => match whole_hours_between(now, l) {
            Some(h) => h >= 24,
            None => true,
        },
    }
}

/// Whether a check is due at the moment the clock read (`None` where it
/// read before 1970): as `check_due` says, and where the clock gave no
/// moment, only where no check was ever recorded.
pub open spec fn due_at(now: Option<UtcInstant>, last: Option<UtcInstant>) -> bool {
    match now {
        Some(n) => check_due(n, last),
        None => last is None,
    }
}

/// How often the automatic update loop asks whether a check is due, in seconds.
pub const AUTO_UPDATE_INTERVAL_SECS: u64 = 300;

/// Whether an update check is due now, the last one having been recorded
/// at `last` (see `due_at`); one is always due where none was recorded.
pub fn check_due_now(last: Option<UtcInstant>) -> (b: bool)
    ensures
        exists|now: Option<UtcInstant>|
            (now matches Some(n) ==> n.secs >= 0 && n.nanos < 1_000_000_000) && #[trigger] due_at(now, last) == b,
        last is None ==> b,
{
    let now = system_clock();
    let b = match now {
        Some(n) => should_check_for_updates(n, last),
        None => last.is_none(),
    };
    assert(due_at(now, last) == b);
    b
}

/// The record of a check made at `now`, in RFC 3339 (none where chrono
/// cannot hold the moment); a moment from the year 0 through 9999 outside a
/// leap second always has one, and it reads back as that moment.
pub fn check_time_record(now: UtcInstant) -> (r: Option<String>)
    ensures
        r matches Some(s) ==> rfc3339_text(now.secs, now.nanos) == Some(s@),
        r is None ==> rfc3339_text(now.secs, now.nanos) is None,
        plain_rfc3339_moment(now) ==> (r matches Some(s) && rfc3339_instant(s@) == Some((now.secs, now.nanos))),
{
    format_rfc3339(now)
}

/// The moment the clock reads now (none where it reads before 1970), and
/// the record of a check made then (none where there is no moment, or
/// chrono cannot hold it); a moment before the year 10000 always has a
/// record, and it reads back as that moment.
pub fn save_last_check_time() -> (r: (Option<UtcInstant>, Option<String>))
    ensures
        r.0 is None ==> r.1 is None,
        r.0 matches Some(t) ==> {
            &&& t.secs >= 0 && t.nanos < 1_000_000_000
            &&& r.1 matches Some(s) ==> rfc3339_text(t.secs, t.nanos) == Some(s@)
            &&& r.1 is None ==> rfc3339_text(t.secs, t.nanos) is None
            &&& t.secs <= 253_402_300_799 ==> (r.1 matches Some(s) && rfc3339_instant(s@) == Some((t.secs, t.nanos)))
        },
{
    match system_clock() {
        Some(now) => (Some(now), check_time_record(now)),
        None => (None, None),
    }
}

/// Reads the recorded time of the last check, in RFC 3339.
pub fn load_last_check_time(recorded: &str) -> (r: Option<UtcInstant>)
    ensures
        r matches Some(t) ==> rfc3339_instant(recorded@) == Some((t.secs, t.nanos)),
        r is None ==> rfc3339_instant(recorded@) is None,
{
    parse_rfc3339(recorded)
}

#[verifier::external_type_specification]
#[verifier::external_body]
pub struct ExVersion(cargo_packager_updater::semver::Version);

/// Whether `semver::Version::parse` accepts `s`.
pub uninterp spec fn semver_accepts(s: Seq<char>) -> bool;

/// `semver::Version::parse`: the version that `s` writes, where it is a
/// valid semantic version.
#[verifier::external_body]
fn parse_version(s: &str) -> (r: Option<cargo_packager_updater::semver::Version>)
    ensures
        r is Some <==> semver_accepts(s@),
{
    cargo_packager_updater::semver::Version::parse(s).ok()
}

/// Where one update check stands.
#[derive(Debug, Clone, Copy, PartialEq, Eq, Structural)]
pub enum UpdateStage {
    ParsingVersion,
    Checking,
    Downloading,
    Installing,
    AskingRestart,
    Finished,
}

/// What the update server answered.
#[derive(Debug, Clone, Copy, PartialEq, Eq, Structural)]
pub enum CheckOutcome {
    UpToDate,
    NewVersion,
    Failed,
}

/// What the caller reports back after doing an action.
#[derive(Debug, Clone, Copy, PartialEq, Eq, Structural)]
pub enum UpdateEvent {
    /// Whether the running version parsed.
    VersionParsed(bool),
    CheckDone(CheckOutcome),
    /// Whether the download succeeded.
    DownloadDone(bool),
    /// Whether the installation succeeded.
    InstallDone(bool),
    /// Whether the user chose to restart now.
    RestartChosen(bool),
}

/// What the caller must do next.
#[derive(Debug, Clone, Copy, PartialEq, Eq, Structural)]
pub enum UpdateAction {
    CheckForUpdate,
    DownloadUpdate,
    InstallUpdate,
    AskToRestart,
    RestartApp,
    Stop,
}

/// One step of an update check: a parsed version is checked, a new version
/// is downloaded and installed, and the user is then asked whether to
/// restart (also where the installation failed, which is only reported);
/// anything else, and an event that does not fit the stage, ends the check.
pub open spec fn update_step_of(stage: UpdateStage, event: UpdateEvent) -> (UpdateStage, UpdateAction) {
    match (stage, event) {
        (UpdateStage::ParsingVersion, UpdateEvent::VersionParsed(true)) => (UpdateStage::Checking, UpdateAction::CheckForUpdate),
        (UpdateStage::Checking, UpdateEvent::CheckDone(CheckOutcome::NewVersion)) => (UpdateStage::Downloading, UpdateAction::DownloadUpdate),
        (UpdateStage::Downloading, UpdateEvent::DownloadDone(true)) => (UpdateStage::Installing, UpdateAction::InstallUpdate),
        (UpdateStage::Installing, UpdateEvent::InstallDone(_)) => (UpdateStage::AskingRestart, UpdateAction::AskToRestart),
        (UpdateStage::AskingRestart, UpdateEvent::RestartChosen(true)) => (UpdateStage::Finished, UpdateAction::RestartApp),
        _ => (UpdateStage::Finished, UpdateAction::Stop),
    }
}

/// The next stage and action of an update check (see `update_step_of`).
pub fn update_step(stage: UpdateStage, event: UpdateEvent) -> (r: (UpdateStage, UpdateAction))
    ensures
        r == update_step_of(stage, event),
{
    match (stage, event) {
        (UpdateStage::ParsingVersion, UpdateEvent::VersionParsed(true)) => (UpdateStage::Checking, UpdateAction::CheckForUpdate),
        (UpdateStage::Checking, UpdateEvent::CheckDone(CheckOutcome::NewVersion)) => (UpdateStage::Downloading, UpdateAction::DownloadUpdate),
        (UpdateStage::Downloading, UpdateEvent::DownloadDone(true)) => (UpdateStage::Installing, UpdateAction::InstallUpdate),
        (UpdateStage::Installing, UpdateEvent::InstallDone(_)) => (UpdateStage::AskingRestart, UpdateAction::AskToRestart),
        (UpdateStage::AskingRestart, UpdateEvent::RestartChosen(true)) => (UpdateStage::Finished, UpdateAction::RestartApp),
        _ => (UpdateStage::Finished, UpdateAction::Stop),
    }
}

pub open spec fn stage_rank(s: UpdateStage) -> int {
    match s {
        UpdateStage::ParsingVersion => 0,
        UpdateStage::Checking => 1,
        UpdateStage::Downloading => 2,
        UpdateStage::Installing => 3,
        UpdateStage::AskingRestart => 4,
        UpdateStage::Finished => 5,
    }
}

/// The first step of an update check: the running version `version` is
/// parsed; where it parses the check goes on to the server, otherwise it ends.
pub fn start_update_check(version: &str) -> (r: (Option<cargo_packager_updater::semver::Version>, UpdateStage, UpdateAction))
    ensures
        r.0 is Some <==> semver_accepts(version@),
        (r.1, r.2) == update_step_of(UpdateStage::ParsingVersion, UpdateEvent::VersionParsed(r.0 is Some)),
{
    let parsed = parse_version(version);
    let ok = parsed.is_some();
    let (stage, action) = update_step(UpdateStage::ParsingVersion, UpdateEvent::VersionParsed(ok));
    (parsed, stage, action)
}

/// Every step moves an unfinished check forward, so a check ends after at
/// most five steps; the application is restarted only from the question
/// put after an installation, on the user's yes.
pub proof fn lemma_update_steps_progress(stage: UpdateStage, event: UpdateEvent)
    requires
        stage != UpdateStage::Finished,
    ensures
        stage_rank(update_step_of(stage, event).0) > stage_rank(stage),
        update_step_of(stage, event).1 == UpdateAction::RestartApp <==> (stage == UpdateStage::AskingRestart
            && event == UpdateEvent::RestartChosen(true)),
        update_step_of(stage, event).1 == UpdateAction::Stop <==> update_step_of(stage, event).0
            == UpdateStage::Finished && !(stage == UpdateStage::AskingRestart && event
            == UpdateEvent::RestartChosen(true)),
{
}

/// Each action is asked for on exactly one kind of step: checking after a
/// version that parses, downloading after a check that found a new
/// version, installing after a download that succeeded, asking to restart
/// after any installation, succeeded or failed, and restarting on the
/// user's yes; each action moves to the stage that waits for its outcome.
pub proof fn lemma_each_action_has_its_step(stage: UpdateStage, event: UpdateEvent)
    ensures
        update_step_of(stage, event).1 == UpdateAction::CheckForUpdate <==> (stage == UpdateStage::ParsingVersion
            && event == UpdateEvent::VersionParsed(true)),
        update_step_of(stage, event).1 == UpdateAction::DownloadUpdate <==> (stage == UpdateStage::Checking
            && event == UpdateEvent::CheckDone(CheckOutcome::NewVersion)),
        update_step_of(stage, event).1 == UpdateAction::InstallUpdate <==> (stage == UpdateStage::Downloading
            && event == UpdateEvent::DownloadDone(true)),
        update_step_of(stage, event).1 == UpdateAction::AskToRestart <==> (stage == UpdateStage::Installing
            && event is InstallDone),
        update_step_of(stage, event).1 == UpdateAction::AskToRestart ==> update_step_of(stage, event).0
            == UpdateStage::AskingRestart,
        update_step_of(stage, event).1 == UpdateAction::CheckForUpdate ==> update_step_of(stage, event).0
            == UpdateStage::Checking,
        update_step_of(stage, event).1 == UpdateAction::DownloadUpdate ==> update_step_of(stage, event).0
            == UpdateStage::Downloading,
        update_step_of(stage, event).1 == UpdateAction::InstallUpdate ==> update_step_of(stage, event).0
            == UpdateStage::Installing,
{
}

} // verus!
