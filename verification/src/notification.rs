//! Dialogs shown through AppleScript: the script that asks, and reading
//! which button was pressed.
use vstd::prelude::*;
use crate::text::{chars_of, contains, contains_in, trim, trim_range};

verus! {

/// The AppleScript fragment that puts an icon file in a dialog, or nothing
/// where there is no icon.
pub open spec fn icon_fragment(icon_path: Option<Seq<char>>) -> Seq<char> {
    match icon_path {
        Some(p) => "with icon (POSIX file \""@ + p + "\")"@,
        None => seq![],
    }
}

/// The AppleScript fragment for an icon file, or an empty one.
pub fn icon_script_part(icon_path: Option<&str>) -> (r: String)
    ensures
        r@ == icon_fragment(match icon_path {
            Some(p) => Some(p@),
            None => None,
        }),
{
    match icon_path {
        Some(p) => {
            let mut r = String::from_str("with icon (POSIX file \"");
            r.append(p);
            r.append("\")");
            r
        },
        None => String::new(),
    }
}

/// The script for a dialog with a message, a title, an icon fragment and two
/// buttons; the first is the default, the second cancels.
pub open spec fn dialog_script_text(
    title: Seq<char>,
    content: Seq<char>,
    true_button: Seq<char>,
    false_button: Seq<char>,
    icon_part: Seq<char>,
) -> Seq<char> {
    "display dialog \""@ + content + "\" with title \""@ + title + "\" "@ + icon_part + " buttons {\""@
        + false_button + "\", \""@ + true_button + "\"} default button \""@ + true_button
        + "\" cancel button \""@ + false_button + "\""@
}

/// The script that shows the dialog (see `dialog_script_text`).
pub fn dialog_script(title: &str, content: &str, true_button: &str, false_button: &str, icon_part: &str) -> (r: String)
    ensures
        r@ == dialog_script_text(title@, content@, true_button@, false_button@, icon_part@),
{
    let mut r = String::from_str("display dialog \"");
    r.append(content);
    r.append("\" with title \"");
    r.append(title);
    r.append("\" ");
    r.append(icon_part);
    r.append(" buttons {\"");
    r.append(false_button);
    r.append("\", \"");
    r.append(true_button);
    r.append("\"} default button \"");
    r.append(true_button);
    r.append("\" cancel button \"");
    r.append(false_button);
    r.append("\"");
    r
}

/// The dialog was answered with the first button: the script succeeded
/// and what it printed names that button.
pub open spec fn dialog_accepted_by(success: bool, output: Seq<char>, true_button: Seq<char>) -> bool {
    success && contains(trim(output), true_button)
}

/// Whether the dialog was answered with the first button.
pub fn dialog_accepted(success: bool, output: &str, true_button: &str) -> (b: bool)
    ensures
        b == dialog_accepted_by(success, output@, true_button@),
{
    if !success {
        return false;
    }
    let v = chars_of(output);
    let t = chars_of(true_button);
    assert(v@.subrange(0, v.len() as int) =~= v@);
    let (a, b) = trim_range(&v, 0, v.len());
    contains_in(&v, a, b, &t)
}

/// What to do about launching at login.
#[derive(Debug, Clone, Copy, PartialEq, Eq, Structural)]
pub enum LaunchSync {
    Enable,
    Disable,
    Keep,
}

/// Brings launch at login in line with the setting; where the current state
/// cannot be read it counts as off.
pub open spec fn launch_sync_of(wanted: bool, current: Option<bool>) -> LaunchSync {
    let on = match current {
        Some(b) => b,
        None => false,
    };
    if wanted && !on {
        LaunchSync::Enable
    } else if !wanted && on {
        LaunchSync::Disable
    } else {
        LaunchSync::Keep
    }
}

/// What to do about launching at login (see `launch_sync_of`).
pub fn launch_sync(wanted: bool, current: Option<bool>) -> (r: LaunchSync)
    ensures
        r == launch_sync_of(wanted, current),
{
    let on = match current {
        Some(b) => b,
        None => false,
    };
    if wanted && !on {
        LaunchSync::Enable
    } else if !wanted && on {
        LaunchSync::Disable
    } else {
        LaunchSync::Keep
    }
}

} // verus!
