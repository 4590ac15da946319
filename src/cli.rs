//! Command-line options, the capture modes, and how options and settings
//! combine.
use vstd::prelude::*;
use crate::config::Config;
use crate::decimal::{nat_text, push_int_text};
use crate::text::{chars_of, eq_ignore_case, eq_ignore_case_exec, push_char};

verus! {

/// What to capture, or the name of the output to capture.
#[derive(Debug, Clone)]
pub enum Mode {
    Output,
    Window,
    Region,
    Active,
    OutputName(String),
}

/// The tool's command-line options.
#[derive(Debug)]
pub struct Args {
    pub mode: Vec<Mode>,
    pub output_folder: Option<String>,
    pub filename: Option<String>,
    /// Seconds.
    pub delay: Option<u64>,
    pub freeze: bool,
    pub debug: bool,
    pub silent: bool,
    pub raw: bool,
    /// Milliseconds.
    pub notif_timeout: Option<u32>,
    pub clipboard_only: bool,
    pub command: Vec<String>,
    pub init_config: bool,
    pub show_config: bool,
    pub config_path: bool,
    pub set: Option<Vec<String>>,
    pub generate_hyprland_config: bool,
    pub install_binds: bool,
    pub with_clipboard: bool,
    pub setup_hotkeys: bool,
    pub no_config: bool,
}

impl Default for Args {
    /// No mode, no flag, nothing set.
    fn default() -> (r: Args)
        ensures
            r.mode@.len() == 0,
            r.output_folder is None,
            r.filename is None,
            r.delay is None,
            r.notif_timeout is None,
            r.set is None,
            r.command@.len() == 0,
            !r.freeze && !r.debug && !r.silent && !r.raw && !r.clipboard_only,
            !r.init_config && !r.show_config && !r.config_path,
            !r.generate_hyprland_config && !r.install_binds && !r.with_clipboard,
            !r.setup_hotkeys && !r.no_config,
    {
        Args {
            mode: Vec::new(),
            output_folder: None,
            filename: None,
            delay: None,
            freeze: false,
            debug: false,
            silent: false,
            raw: false,
            notif_timeout: None,
            clipboard_only: false,
            command: Vec::new(),
            init_config: false,
            show_config: false,
            config_path: false,
            set: None,
            generate_hyprland_config: false,
            install_binds: false,
            with_clipboard: false,
            setup_hotkeys: false,
            no_config: false,
        }
    }
}

/// Reads one `--mode` value: the four mode words in any ASCII case, anything
/// else an output name kept as written.
pub fn parse_mode(s: &str) -> (r: Mode)
    ensures
        if eq_ignore_case(s@, "output"@) {
            r is Output
        } else if eq_ignore_case(s@, "window"@) {
            r is Window
        } else if eq_ignore_case(s@, "region"@) {
            r is Region
        } else if eq_ignore_case(s@, "active"@) {
            r is Active
        } else {
            r is OutputName && r->OutputName_0@ == s@
        },
{
    let v = chars_of(s);
    if eq_ignore_case_exec(&v, "output") {
        Mode::Output
    } else if eq_ignore_case_exec(&v, "window") {
        Mode::Window
    } else if eq_ignore_case_exec(&v, "region") {
        Mode::Region
    } else if eq_ignore_case_exec(&v, "active") {
        Mode::Active
    } else {
        Mode::OutputName(String::from_str(s))
    }
}

/// The notification timeout: the option when given, else the setting.
pub fn resolve_notif_timeout(args: &Args, config: &Config) -> (r: u32)
    ensures
        r == match args.notif_timeout {
            Some(t) => t,
            None => config.capture.notification_timeout,
        },
{
    match args.notif_timeout {
        Some(t) => t,
        None => config.capture.notification_timeout,
    }
}

/// The delay before capturing, in milliseconds: the option's seconds when
/// given, else the setting's milliseconds.
pub fn resolve_delay(args: &Args, config: &Config) -> (r: u128)
    ensures
        r == match args.delay {
            Some(d) => d as int * 1000,
            None => config.advanced.delay_ms as int,
        },
{
    match args.delay {
        Some(d) => d as u128 * 1000,
        None => {
            if config.advanced.delay_ms > 0 {
                config.advanced.delay_ms as u128
            } else {
                0
            }
        },
    }
}

/// A local date and time, to the millisecond.
#[derive(Debug, Clone, Copy, PartialEq, Eq, Structural)]
pub struct LocalTime {
    pub year: i32,
    pub month: u32,
    pub day: u32,
    pub hour: u32,
    pub minute: u32,
    pub second: u32,
    pub millis: u32,
}

pub open spec fn zeros(n: nat) -> Seq<char> {
    Seq::new(n, |i: int| '0')
}

/// The digits of `n`, with zeros in front up to `width` characters.
pub open spec fn padded(n: nat, width: nat) -> Seq<char> {
    let t = nat_text(n);
    if t.len() >= width {
        t
    } else {
        zeros((width - t.len()) as nat) + t
    }
}

/// A year as `%Y` writes it: four digits at least, `+` above 9999, `-` below 0.
pub open spec fn year_text(y: int) -> Seq<char> {
    if y < 0 {
        seq!['-'] + padded((-y) as nat, 4)
    } else if y > 9999 {
        seq!['+'] + nat_text(y as nat)
    } else {
        padded(y as nat, 4)
    }
}

/// `YYYY-MM-DD-HHMMSS-mmm_hyprshot.png`.
pub open spec fn filename_text(t: LocalTime) -> Seq<char> {
    year_text(t.year as int) + seq!['-'] + padded(t.month as nat, 2) + seq!['-'] + padded(
        t.day as nat,
        2,
    ) + seq!['-'] + padded(t.hour as nat, 2) + padded(t.minute as nat, 2) + padded(
        t.second as nat,
        2,
    ) + seq!['-'] + padded(t.millis as nat, 3) + "_hyprshot.png"@
}

fn push_padded(out: &mut String, n: u32, width: usize)
    ensures
        final(out)@ == old(out)@ + padded(n as nat, width as nat),
{
    let mut digits = String::new();
    push_int_text(&mut digits, n as i64);
    assert(digits@ == nat_text(n as nat));
    let len = digits.as_str().unicode_len();
    let mut i: usize = len;
    while i < width
        invariant
            len <= i <= width || (len > width && i == len),
            out@ == old(out)@ + zeros((i - len) as nat),
        decreases width - i,
    {
        push_char(out, '0');
        i = i + 1;
        assert(out@ =~= old(out)@ + zeros((i - len) as nat));
    }
    crate::text::push_chars(out, &crate::text::chars_of(digits.as_str()));
    if len >= width {
        assert(zeros(0) =~= Seq::<char>::empty());
        assert(out@ =~= old(out)@ + padded(n as nat, width as nat));
    } else {
        assert(out@ =~= old(out)@ + padded(n as nat, width as nat));
    }
}

/// The default screenshot file name for the moment `now`.
pub fn default_filename(now: LocalTime) -> (r: String)
    ensures
        r@ == filename_text(now),
{
    let mut out = String::new();
    if now.year < 0 {
        push_char(&mut out, '-');
        push_padded(&mut out, (-(now.year as i64)) as u32, 4);
    } else if now.year > 9999 {
        push_char(&mut out, '+');
        push_int_text(&mut out, now.year as i64);
    } else {
        push_padded(&mut out, now.year as u32, 4);
    }
    assert(out@ =~= year_text(now.year as int));
    push_char(&mut out, '-');
    push_padded(&mut out, now.month, 2);
    push_char(&mut out, '-');
    push_padded(&mut out, now.day, 2);
    push_char(&mut out, '-');
    push_padded(&mut out, now.hour, 2);
    push_padded(&mut out, now.minute, 2);
    push_padded(&mut out, now.second, 2);
    push_char(&mut out, '-');
    push_padded(&mut out, now.millis, 3);
    out.append("_hyprshot.png");
    assert(out@ =~= filename_text(now));
    out
}

} // verus!
