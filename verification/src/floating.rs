//! The floating window that shows a code: how it is asked for on the
//! command line, how long it stays, and what a click on it does.
use vstd::prelude::*;
use crate::config::DeliveryStep;

verus! {

#[verifier::external_type_specification]
#[verifier::external_body]
pub struct ExInstant(std::time::Instant);

/// `Instant::now`: the current moment of the monotonic clock.
#[verifier::external_body]
fn instant_now() -> (t: std::time::Instant) {
    std::time::Instant::now()
}

/// `Instant::elapsed`: the time since `t`, by the monotonic clock.
#[verifier::external_body]
fn elapsed_since(t: &std::time::Instant) -> (d: core::time::Duration) {
    t.elapsed()
}

/// `Duration::as_nanos`: the whole nanoseconds of `d`.
#[verifier::external_body]
fn duration_nanos(d: &core::time::Duration) -> (n: u128) {
    d.as_nanos()
}

/// The flag that asks for the floating window on the command line.
pub open spec fn floating_flag() -> Seq<char> {
    "--floating-window"@
}

/// The code and its source from the command line `args` (the program's
/// path first): present when the first argument is the floating-window
/// flag and two more follow it.
pub open spec fn floating_request(args: Seq<Seq<char>>) -> Option<(Seq<char>, Seq<char>)> {
    if args.len() >= 4 && args[1] == floating_flag() {
        Some((args[2], args[3]))
    } else {
        None
    }
}

pub open spec fn strings_view(v: Seq<String>) -> Seq<Seq<char>> {
    v.map_values(|s: String| s@)
}

/// Reads the code and its source from the command line (see `floating_request`).
pub fn parse_args(args: &Vec<String>) -> (r: Option<(String, String)>)
    ensures
        r matches Some((c, s)) ==> floating_request(strings_view(args@)) == Some((c@, s@)),
        r is None ==> floating_request(strings_view(args@)) is None,
{
    let flag = String::from_str("--floating-window");
    if args.len() >= 4 && args[1] == flag {
        assert(strings_view(args@)[2] == args@[2]@);
        Some((args[2].clone(), args[3].clone()))
    } else {
        proof {
            if args.len() >= 4 {
                assert(strings_view(args@)[1] == args@[1]@);
            }
        }
        None
    }
}

/// The arguments that start the program as a floating window for `code`.
pub fn floating_window_args(code: &str, source: &str) -> (r: Vec<String>)
    ensures
        strings_view(r@) == seq![floating_flag(), code@, source@],
{
    let r = vec![String::from_str("--floating-window"), String::from_str(code), String::from_str(source)];
    assert(strings_view(r@) =~= seq![floating_flag(), code@, source@]);
    r
}

/// Starting the program with the floating-window arguments for a code
/// makes it read back that code and source.
pub proof fn lemma_floating_args_round_trip(program: Seq<char>, code: Seq<char>, source: Seq<char>)
    ensures
        floating_request(seq![program] + seq![floating_flag(), code, source]) == Some((code, source)),
{
    let args = seq![program] + seq![floating_flag(), code, source];
    assert(args[1] == floating_flag());
    assert(args[2] == code);
    assert(args[3] == source);
}

/// The floating window showing one code.
pub struct VerificationCodeApp {
    pub code: String,
    pub source: String,
    pub created_at: std::time::Instant,
    /// How long the window stays, in seconds.
    pub lifetime_secs: u64,
    /// The code was used; the window closes.
    pub should_close: bool,
}

/// The window closes once its code was used or once its lifetime has passed.
pub open spec fn closes(should_close: bool, lifetime_secs: u64, elapsed_nanos: u128) -> bool {
    should_close || elapsed_nanos > lifetime_secs * 1_000_000_000
}

impl VerificationCodeApp {
    /// A window for `code` from `source`, created now, that stays ten minutes.
    pub fn new(code: String, source: String) -> (app: Self)
        ensures
            app.code == code,
            app.source == source,
            app.lifetime_secs == 600,
            !app.should_close,
    {
        VerificationCodeApp { code, source, created_at: instant_now(), lifetime_secs: 600, should_close: false }
    }

    /// Whether the window closes, `elapsed_nanos` after it was created.
    pub fn closes_after(&self, elapsed_nanos: u128) -> (b: bool)
        ensures
            b == closes(self.should_close, self.lifetime_secs, elapsed_nanos),
    {
        self.should_close || elapsed_nanos > (self.lifetime_secs as u128) * 1_000_000_000
    }

    /// Whether the window closes now.
    pub fn closes_now(&self) -> (b: bool)
        ensures
            self.should_close ==> b,
    {
        let elapsed = duration_nanos(&elapsed_since(&self.created_at));
        self.closes_after(elapsed)
    }

    /// A click on the code: it is typed into the focused field, then Enter
    /// is pressed where the settings could be read and ask for it, each step
    /// taken whatever came of the one before; then the window closes.
    pub fn on_code_clicked(&mut self, auto_enter: Option<bool>) -> (r: Vec<DeliveryStep>)
        ensures
            final(self).should_close,
            final(self).code == old(self).code,
            final(self).source == old(self).source,
            final(self).lifetime_secs == old(self).lifetime_secs,
            r@ == (if auto_enter == Some(true) {
                seq![DeliveryStep::DirectInput, DeliveryStep::PressEnter]
            } else {
                seq![DeliveryStep::DirectInput]
            }),
    {
        let mut r = Vec::new();
        r.push(DeliveryStep::DirectInput);
        if auto_enter == Some(true) {
            r.push(DeliveryStep::PressEnter);
        }
        self.should_close = true;
        assert(r@ =~= (if auto_enter == Some(true) {
            seq![DeliveryStep::DirectInput, DeliveryStep::PressEnter]
        } else {
            seq![DeliveryStep::DirectInput]
        }));
        r
    }
}

/// The floating window asked for on the command line `args`, if any.
pub fn maybe_start_floating_window(args: &Vec<String>) -> (r: Option<VerificationCodeApp>)
    ensures
        r is Some <==> floating_request(strings_view(args@)) is Some,
        r matches Some(app) ==> floating_request(strings_view(args@)) == Some((app.code@, app.source@))
            && !app.should_close && app.lifetime_secs == 600,
{
    match parse_args(args) {
        Some((code, source)) => Some(VerificationCodeApp::new(code, source)),
        None => None,
    }
}

/// An RGB colour.
#[derive(Debug, Clone, Copy, PartialEq, Eq, Structural)]
pub struct Rgb {
    pub r: u8,
    pub g: u8,
    pub b: u8,
}

/// The background of the code button: darker while pressed, lighter while
/// the pointer is over it, in the dark or light theme.
pub open spec fn button_background_of(pressed: bool, hovered: bool, dark: bool) -> Rgb {
    if pressed || !hovered {
        if dark { Rgb { r: 0x3C, g: 0x3C, b: 0x3C } } else { Rgb { r: 0xE6, g: 0xE6, b: 0xE6 } }
    } else {
        if dark { Rgb { r: 0x45, g: 0x45, b: 0x45 } } else { Rgb { r: 0xD8, g: 0xD8, b: 0xD8 } }
    }
}

/// The background of the code button.
pub fn button_background(pressed: bool, hovered: bool, dark: bool) -> (c: Rgb)
    ensures
        c == button_background_of(pressed, hovered, dark),
{
    if pressed {
        if dark { Rgb { r: 0x3C, g: 0x3C, b: 0x3C } } else { Rgb { r: 0xE6, g: 0xE6, b: 0xE6 } }
    } else if hovered {
        if dark { Rgb { r: 0x45, g: 0x45, b: 0x45 } } else { Rgb { r: 0xD8, g: 0xD8, b: 0xD8 } }
    } else {
        if dark { Rgb { r: 0x3C, g: 0x3C, b: 0x3C } } else { Rgb { r: 0xE6, g: 0xE6, b: 0xE6 } }
    }
}

/// The colour of the button text: white in the dark theme, black in the light one.
pub fn button_text_color(dark: bool) -> (c: Rgb)
    ensures
        c == (if dark { Rgb { r: 255, g: 255, b: 255 } } else { Rgb { r: 0, g: 0, b: 0 } }),
{
    if dark { Rgb { r: 255, g: 255, b: 255 } } else { Rgb { r: 0, g: 0, b: 0 } }
}

/// The colour of the close button: darker while pressed.
pub fn close_button_color(pressed: bool) -> (c: Rgb)
    ensures
        c == (if pressed { Rgb { r: 220, g: 90, b: 80 } } else { Rgb { r: 237, g: 106, b: 94 } }),
{
    if pressed { Rgb { r: 220, g: 90, b: 80 } } else { Rgb { r: 237, g: 106, b: 94 } }
}

} // verus!
