//! The user's settings, and what they make of a verification code once one
//! has been found.
use vstd::prelude::*;

verus! {

/// The user's settings, as the tray menu shows and changes them.
#[derive(Debug, Clone, Copy, PartialEq, Eq, Structural)]
pub struct Config {
    /// Paste the code after copying it to the clipboard.
    pub auto_paste: bool,
    /// Press Enter after the code has been entered.
    pub auto_enter: bool,
    /// Type the code in directly, leaving the clipboard alone.
    pub direct_input: bool,
    /// Start the application at login.
    pub launch_at_login: bool,
    /// Watch Mail.app for codes.
    pub listen_email: bool,
    /// Watch Messages.app for codes.
    pub listen_message: bool,
    /// Show the code in a floating window instead of entering it.
    pub floating_window: bool,
}

/// One thing done with a code that was found.
#[derive(Debug, Clone, Copy, PartialEq, Eq, Structural)]
pub enum DeliveryStep {
    /// Open the floating window that shows the code.
    ShowFloatingWindow,
    /// Type the code in, leaving the clipboard alone.
    DirectInput,
    /// Put the code on the clipboard.
    CopyToClipboard,
    /// Paste the clipboard.
    Paste,
    /// Press the Enter key.
    PressEnter,
}

/// What is done with a code, in order; each step is taken only when the
/// one before it succeeded. The floating window, where it is on, replaces
/// all the rest; otherwise the code is typed in or copied (and then pasted
/// where `auto_paste` is on), and Enter is pressed after where `auto_enter`
/// is on.
pub open spec fn delivery_plan(c: Config) -> Seq<DeliveryStep> {
    let enter: Seq<DeliveryStep> = if c.auto_enter { seq![DeliveryStep::PressEnter] } else { seq![] };
    if c.floating_window {
        seq![DeliveryStep::ShowFloatingWindow]
    } else if c.direct_input {
        seq![DeliveryStep::DirectInput] + enter
    } else if c.auto_paste {
        seq![DeliveryStep::CopyToClipboard, DeliveryStep::Paste] + enter
    } else {
        seq![DeliveryStep::CopyToClipboard] + enter
    }
}

/// The steps to take with a code that was found, under settings `config`.
pub fn delivery_steps(config: &Config) -> (r: Vec<DeliveryStep>)
    ensures
        r@ == delivery_plan(*config),
{
    let mut r: Vec<DeliveryStep> = Vec::new();
    if config.floating_window {
        r.push(DeliveryStep::ShowFloatingWindow);
        assert(r@ =~= delivery_plan(*config));
        return r;
    }
    if config.direct_input {
        r.push(DeliveryStep::DirectInput);
    } else {
        r.push(DeliveryStep::CopyToClipboard);
        if config.auto_paste {
            r.push(DeliveryStep::Paste);
        }
    }
    if config.auto_enter {
        r.push(DeliveryStep::PressEnter);
    }
    assert(r@ =~= delivery_plan(*config));
    r
}

/// The step to take next: the next one in the plan, as long as the steps
/// taken so far all succeeded.
pub fn next_step(plan: &Vec<DeliveryStep>, taken: usize, all_succeeded: bool) -> (r: Option<DeliveryStep>)
    ensures
        r == (if all_succeeded && taken < plan.len() { Some(plan@[taken as int]) } else { None::<DeliveryStep> }),
{
    if all_succeeded && taken < plan.len() {
        Some(plan[taken])
    } else {
        None
    }
}

/// What is done with a code: there is always a first step; the floating
/// window, where it is on, is the only one; otherwise Enter is pressed last
/// exactly when `auto_enter` is on, and direct input leaves the clipboard
/// alone; a plan holds the first step, a paste where the code is copied
/// and `auto_paste` is on, and Enter where `auto_enter` is on, nothing else.
pub proof fn lemma_delivery_plan_shape(c: Config)
    ensures
        delivery_plan(c).len() >= 1,
        c.floating_window ==> delivery_plan(c) == seq![DeliveryStep::ShowFloatingWindow],
        !c.floating_window ==> !delivery_plan(c).contains(DeliveryStep::ShowFloatingWindow),
        !c.floating_window ==> (delivery_plan(c).last() == DeliveryStep::PressEnter <==> c.auto_enter),
        !c.floating_window && c.direct_input ==> !delivery_plan(c).contains(DeliveryStep::CopyToClipboard)
            && !delivery_plan(c).contains(DeliveryStep::Paste),
        !c.floating_window && c.direct_input ==> delivery_plan(c)[0] == DeliveryStep::DirectInput,
        !c.floating_window ==> delivery_plan(c).len() == 1 + (if !c.direct_input && c.auto_paste { 1int } else { 0 })
            + (if c.auto_enter { 1int } else { 0 }),
{
    let p = delivery_plan(c);
    if !c.floating_window {
        assert forall|i: int| 0 <= i < p.len() implies p[i] != DeliveryStep::ShowFloatingWindow by {}
        if c.direct_input {
            assert forall|i: int| 0 <= i < p.len() implies p[i] != DeliveryStep::CopyToClipboard
                && p[i] != DeliveryStep::Paste by {}
        }
    }
}

/// Where the code is neither shown in the floating window nor typed in, it
/// is first copied to the clipboard, and pasted right after exactly when
/// `auto_paste` is on, whatever `auto_enter` says.
pub proof fn lemma_copy_then_paste(c: Config)
    requires
        !c.floating_window,
        !c.direct_input,
    ensures
        delivery_plan(c)[0] == DeliveryStep::CopyToClipboard,
        c.auto_paste ==> delivery_plan(c)[1] == DeliveryStep::Paste,
        delivery_plan(c).contains(DeliveryStep::Paste) <==> c.auto_paste,
{
    let p = delivery_plan(c);
    if c.auto_paste {
        assert(p[1] == DeliveryStep::Paste);
    } else {
        assert forall|i: int| 0 <= i < p.len() implies p[i] != DeliveryStep::Paste by {}
    }
}

/// Turning `auto_enter` on adds one step, pressing Enter, at the end of the
/// plan and changes nothing before it (unless the floating window replaces
/// the plan).
pub proof fn lemma_enter_is_appended(c: Config)
    requires
        !c.floating_window,
    ensures
        delivery_plan(Config { auto_enter: true, ..c }) == delivery_plan(Config { auto_enter: false, ..c }).push(
            DeliveryStep::PressEnter,
        ),
{
    assert(delivery_plan(Config { auto_enter: true, ..c }) =~= delivery_plan(Config { auto_enter: false, ..c }).push(
        DeliveryStep::PressEnter,
    ));
}

} // verus!
