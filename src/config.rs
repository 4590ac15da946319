//! The tool's settings, their defaults, setting one by `section.field` key,
//! and the compositor key bindings generated from them.
use vstd::prelude::*;
use crate::decimal::{parse_u32, u32_of};
use crate::text::{
    chars_eq, chars_of, contains, contains_chars, index_of, index_of_from, lemma_index_of_contains,
    push_chars, slice_chars,
    split_on, split_on_char, string_of, trim, trim_chars,
};

verus! {

#[derive(Debug, Clone)]
pub struct PathsConfig {
    /// Where screenshots are saved.
    pub screenshots_dir: String,
}

/// Hotkeys in the compositor's `MODIFIERS, KEY` form.
#[derive(Debug, Clone)]
pub struct HotkeysConfig {
    pub window: String,
    pub region: String,
    pub output: String,
    pub active_output: String,
}

#[derive(Debug, Clone)]
pub struct CaptureConfig {
    /// One of `png`, `jpeg`, `ppm`.
    pub default_format: String,
    pub clipboard_on_capture: bool,
    pub notification: bool,
    /// Milliseconds.
    pub notification_timeout: u32,
}

#[derive(Debug, Clone)]
pub struct AdvancedConfig {
    pub freeze_on_region: bool,
    /// Milliseconds.
    pub delay_ms: u32,
}

#[derive(Debug, Clone)]
pub struct Config {
    pub paths: PathsConfig,
    pub hotkeys: HotkeysConfig,
    pub capture: CaptureConfig,
    pub advanced: AdvancedConfig,
}

/// Why a setting could not be changed.
#[derive(Debug, Clone, Copy, PartialEq, Eq, Structural)]
pub enum ConfigError {
    /// The key is not of the form `section.field`.
    InvalidKeyFormat,
    /// No setting has this key.
    UnknownKey,
    /// The value is neither `true` nor `false`.
    InvalidBool,
    /// The value is not a number of milliseconds that fits 32 bits.
    InvalidNumber,
}

impl Default for PathsConfig {
    fn default() -> (r: PathsConfig)
        ensures
            r.screenshots_dir@ == "~/Pictures"@,
    {
        PathsConfig { screenshots_dir: String::from_str("~/Pictures") }
    }
}

impl Default for HotkeysConfig {
    fn default() -> (r: HotkeysConfig)
        ensures
            r.window@ == "SUPER, Print"@,
            r.region@ == "SUPER SHIFT, Print"@,
            r.output@ == "SUPER CTRL, Print"@,
            r.active_output@ == ", Print"@,
    {
        HotkeysConfig {
            window: String::from_str("SUPER, Print"),
            region: String::from_str("SUPER SHIFT, Print"),
            output: String::from_str("SUPER CTRL, Print"),
            active_output: String::from_str(", Print"),
        }
    }
}

impl Default for CaptureConfig {
    fn default() -> (r: CaptureConfig)
        ensures
            r.default_format@ == "png"@,
            !r.clipboard_on_capture,
            r.notification,
            r.notification_timeout == 3000,
    {
        CaptureConfig {
            default_format: String::from_str("png"),
            clipboard_on_capture: false,
            notification: true,
            notification_timeout: 3000,
        }
    }
}

impl Default for AdvancedConfig {
    fn default() -> (r: AdvancedConfig)
        ensures
            r.freeze_on_region,
            r.delay_ms == 0,
    {
        AdvancedConfig { freeze_on_region: true, delay_ms: 0 }
    }
}

impl Default for Config {
    fn default() -> (r: Config)
        ensures
            r.paths.screenshots_dir@ == "~/Pictures"@,
            r.hotkeys.window@ == "SUPER, Print"@,
            r.hotkeys.region@ == "SUPER SHIFT, Print"@,
            r.hotkeys.output@ == "SUPER CTRL, Print"@,
            r.hotkeys.active_output@ == ", Print"@,
            r.capture.default_format@ == "png"@,
            !r.capture.clipboard_on_capture,
            r.capture.notification,
            r.capture.notification_timeout == 3000,
            r.advanced.freeze_on_region,
            r.advanced.delay_ms == 0,
    {
        Config {
            paths: PathsConfig::default(),
            hotkeys: HotkeysConfig::default(),
            capture: CaptureConfig::default(),
            advanced: AdvancedConfig::default(),
        }
    }
}

/// `true` and `false`, as `bool::from_str` reads them.
pub open spec fn bool_of(s: Seq<char>) -> Option<bool> {
    if s == "true"@ {
        Some(true)
    } else if s == "false"@ {
        Some(false)
    } else {
        None
    }
}

/// Every setting as plain values.
pub struct ConfigView {
    pub screenshots_dir: Seq<char>,
    pub window: Seq<char>,
    pub region: Seq<char>,
    pub output: Seq<char>,
    pub active_output: Seq<char>,
    pub default_format: Seq<char>,
    pub clipboard_on_capture: bool,
    pub notification: bool,
    pub notification_timeout: u32,
    pub freeze_on_region: bool,
    pub delay_ms: u32,
}

impl View for Config {
    type V = ConfigView;

    open spec fn view(&self) -> ConfigView {
        ConfigView {
            screenshots_dir: self.paths.screenshots_dir@,
            window: self.hotkeys.window@,
            region: self.hotkeys.region@,
            output: self.hotkeys.output@,
            active_output: self.hotkeys.active_output@,
            default_format: self.capture.default_format@,
            clipboard_on_capture: self.capture.clipboard_on_capture,
            notification: self.capture.notification,
            notification_timeout: self.capture.notification_timeout,
            freeze_on_region: self.advanced.freeze_on_region,
            delay_ms: self.advanced.delay_ms,
        }
    }
}

/// The result of setting `key` to `value` in `c`.
pub open spec fn set_spec(c: ConfigView, key: Seq<char>, value: Seq<char>) -> Result<
    ConfigView,
    ConfigError,
> {
    let parts = split_on(key, '.');
    if parts.len() != 2 {
        Err(ConfigError::InvalidKeyFormat)
    } else {
        let s = parts[0];
        let f = parts[1];
        if s == "paths"@ && f == "screenshots_dir"@ {
            Ok(ConfigView { screenshots_dir: value, ..c })
        } else if s == "hotkeys"@ && f == "window"@ {
            Ok(ConfigView { window: value, ..c })
        } else if s == "hotkeys"@ && f == "region"@ {
            Ok(ConfigView { region: value, ..c })
        } else if s == "hotkeys"@ && f == "output"@ {
            Ok(ConfigView { output: value, ..c })
        } else if s == "hotkeys"@ && f == "active_output"@ {
            Ok(ConfigView { active_output: value, ..c })
        } else if s == "capture"@ && f == "notification"@ {
            match bool_of(value) {
                Some(b) => Ok(ConfigView { notification: b, ..c }),
                None => Err(ConfigError::InvalidBool),
            }
        } else if s == "capture"@ && f == "notification_timeout"@ {
            match u32_of(value) {
                Some(n) => Ok(ConfigView { notification_timeout: n, ..c }),
                None => Err(ConfigError::InvalidNumber),
            }
        } else if s == "advanced"@ && f == "freeze_on_region"@ {
            match bool_of(value) {
                Some(b) => Ok(ConfigView { freeze_on_region: b, ..c }),
                None => Err(ConfigError::InvalidBool),
            }
        } else if s == "advanced"@ && f == "delay_ms"@ {
            match u32_of(value) {
                Some(n) => Ok(ConfigView { delay_ms: n, ..c }),
                None => Err(ConfigError::InvalidNumber),
            }
        } else {
            Err(ConfigError::UnknownKey)
        }
    }
}

fn is_word(v: &Vec<char>, w: &str) -> (r: bool)
    ensures
        r == (v@ == w@),
{
    let c = chars_of(w);
    chars_eq(v, &c)
}

fn parse_bool(v: &Vec<char>) -> (r: Option<bool>)
    ensures
        r == bool_of(v@),
{
    if is_word(v, "true") {
        Some(true)
    } else if is_word(v, "false") {
        Some(false)
    } else {
        None
    }
}

/// Sets the setting named `key` (`section.field`) to `value`. On failure the
/// settings are left as they were.
pub fn set_config_value(config: &mut Config, key: &str, value: &str) -> (r: Result<(), ConfigError>)
    ensures
        match set_spec(old(config)@, key@, value@) {
            Ok(c) => r is Ok && final(config)@ == c,
            Err(e) => r == Err::<(), ConfigError>(e) && final(config)@ == old(config)@,
        },
{
    let kc = chars_of(key);
    let vc = chars_of(value);
    let parts = split_on_char(&kc, '.');
    if parts.len() != 2 {
        return Err(ConfigError::InvalidKeyFormat);
    }
    let s = &parts[0];
    let f = &parts[1];
    if is_word(s, "paths") && is_word(f, "screenshots_dir") {
        config.paths.screenshots_dir = String::from_str(value);
    } else if is_word(s, "hotkeys") && is_word(f, "window") {
        config.hotkeys.window = String::from_str(value);
    } else if is_word(s, "hotkeys") && is_word(f, "region") {
        config.hotkeys.region = String::from_str(value);
    } else if is_word(s, "hotkeys") && is_word(f, "output") {
        config.hotkeys.output = String::from_str(value);
    } else if is_word(s, "hotkeys") && is_word(f, "active_output") {
        config.hotkeys.active_output = String::from_str(value);
    } else if is_word(s, "capture") && is_word(f, "notification") {
        match parse_bool(&vc) {
            Some(b) => config.capture.notification = b,
            None => return Err(ConfigError::InvalidBool),
        }
    } else if is_word(s, "capture") && is_word(f, "notification_timeout") {
        match parse_u32(&vc) {
            Some(n) => config.capture.notification_timeout = n,
            None => return Err(ConfigError::InvalidNumber),
        }
    } else if is_word(s, "advanced") && is_word(f, "freeze_on_region") {
        match parse_bool(&vc) {
            Some(b) => config.advanced.freeze_on_region = b,
            None => return Err(ConfigError::InvalidBool),
        }
    } else if is_word(s, "advanced") && is_word(f, "delay_ms") {
        match parse_u32(&vc) {
            Some(n) => config.advanced.delay_ms = n,
            None => return Err(ConfigError::InvalidNumber),
        }
    } else {
        return Err(ConfigError::UnknownKey);
    }
    Ok(())
}

/// One binding line: `bind = HOTKEY, exec, hyprshot-rs -m ARGS`.
pub open spec fn bind_line(hotkey: Seq<char>, args: Seq<char>) -> Seq<char> {
    "bind = "@ + hotkey + ", exec, hyprshot-rs -m "@ + args + "\n"@
}

/// The generated bindings: a header, then one line per capture mode.
pub open spec fn binds_text(c: ConfigView) -> Seq<char> {
    "# hyprshot-rs keybindings\n"@ + "# Generated by: hyprshot-rs --generate-hyprland-config\n\n"@
        + "# Screenshot keybindings\n"@ + bind_line(c.window, "window"@) + bind_line(
        c.region,
        "region"@,
    ) + bind_line(c.output, "output"@) + bind_line(c.active_output, "active -m output"@)
}

/// The hotkey `MODIFIERS, KEY` with `ALT` added to its modifiers: trimmed
/// modifiers and key, `ALT` alone when there were none, unchanged when `ALT`
/// is already there or there is no comma.
pub open spec fn alt_hotkey(h: Seq<char>) -> Seq<char> {
    match index_of_from(h, ',', 0) {
        None => h,
        Some(i) => {
            let m = trim(h.subrange(0, i));
            let k = trim(h.subrange(i + 1, h.len() as int));
            if m.len() == 0 {
                "ALT, "@ + k
            } else if contains(m, "ALT"@) {
                h
            } else {
                m + " ALT, "@ + k
            }
        },
    }
}

/// The generated bindings followed by clipboard-only variants with `ALT` added.
pub open spec fn binds_with_clipboard_text(c: ConfigView) -> Seq<char> {
    binds_text(c) + "\n# Screenshot to clipboard (no file saved)\n"@ + bind_line(
        alt_hotkey(c.window),
        "window --clipboard-only"@,
    ) + bind_line(alt_hotkey(c.region), "region --clipboard-only"@) + bind_line(
        alt_hotkey(c.output),
        "output --clipboard-only"@,
    )
}

fn push_bind_line(out: &mut String, hotkey: &str, args: &str)
    ensures
        final(out)@ == old(out)@ + bind_line(hotkey@, args@),
{
    out.append("bind = ");
    out.append(hotkey);
    out.append(", exec, hyprshot-rs -m ");
    out.append(args);
    out.append("\n");
    assert(out@ =~= old(out)@ + bind_line(hotkey@, args@));
}

impl Config {
    /// Compositor key bindings for the configured hotkeys.
    pub fn generate_hyprland_binds(&self) -> (r: String)
        ensures
            r@ == binds_text(self@),
    {
        let mut binds = String::new();
        binds.append("# hyprshot-rs keybindings\n");
        binds.append("# Generated by: hyprshot-rs --generate-hyprland-config\n\n");
        binds.append("# Screenshot keybindings\n");
        push_bind_line(&mut binds, self.hotkeys.window.as_str(), "window");
        push_bind_line(&mut binds, self.hotkeys.region.as_str(), "region");
        push_bind_line(&mut binds, self.hotkeys.output.as_str(), "output");
        push_bind_line(&mut binds, self.hotkeys.active_output.as_str(), "active -m output");
        assert(binds@ =~= binds_text(self@));
        binds
    }

    /// The bindings, then clipboard-only variants of the window, region and
    /// output bindings with `ALT` added to their hotkeys.
    pub fn generate_hyprland_binds_with_clipboard(&self) -> (r: String)
        ensures
            r@ == binds_with_clipboard_text(self@),
    {
        let mut binds = self.generate_hyprland_binds();
        binds.append("\n# Screenshot to clipboard (no file saved)\n");
        let window = self.add_alt_modifier(self.hotkeys.window.as_str());
        let region = self.add_alt_modifier(self.hotkeys.region.as_str());
        let output = self.add_alt_modifier(self.hotkeys.output.as_str());
        push_bind_line(&mut binds, window.as_str(), "window --clipboard-only");
        push_bind_line(&mut binds, region.as_str(), "region --clipboard-only");
        push_bind_line(&mut binds, output.as_str(), "output --clipboard-only");
        assert(binds@ =~= binds_with_clipboard_text(self@));
        binds
    }

    /// `hotkey` with `ALT` added to its modifiers.
    pub fn add_alt_modifier(&self, hotkey: &str) -> (r: String)
        ensures
            r@ == alt_hotkey(hotkey@),
    {
        let h = chars_of(hotkey);
        match index_of(&h, ',') {
            None => String::from_str(hotkey),
            Some(i) => {
                let before = slice_chars(&h, 0, i);
                let after = slice_chars(&h, i + 1, h.len());
                let m = trim_chars(&before);
                let k = trim_chars(&after);
                let alt: Vec<char> = vec!['A', 'L', 'T'];
                proof {
                    reveal_strlit("ALT");
                }
                assert(alt@ =~= "ALT"@);
                if m.len() == 0 {
                    let mut out = String::from_str("ALT, ");
                    push_chars(&mut out, &k);
                    out
                } else if contains_chars(&m, &alt) {
                    String::from_str(hotkey)
                } else {
                    let mut out = string_of(&m);
                    out.append(" ALT, ");
                    push_chars(&mut out, &k);
                    out
                }
            },
        }
    }
}


/// Whether a hotkey has the `MODIFIERS, KEY` shape: it holds a comma.
pub fn is_valid_hotkey(hotkey: &str) -> (r: bool)
    ensures
        r == hotkey@.contains(','),
{
    let v = chars_of(hotkey);
    proof {
        lemma_index_of_contains(v@, ',');
    }
    index_of(&v, ',').is_some()
}

/// Why bindings cannot be added to a compositor configuration.
#[derive(Debug, Clone, Copy, PartialEq, Eq, Structural)]
pub enum InstallError {
    /// The configuration already holds this tool's bindings.
    AlreadyInstalled,
}

pub open spec fn binds_marker() -> Seq<char> {
    "# hyprshot-rs keybindings"@
}

/// `existing` followed by a blank line and `binds`, with a line break first
/// when `existing` does not end in one.
pub open spec fn appended_binds_text(existing: Seq<char>, binds: Seq<char>) -> Seq<char> {
    let base = if existing.len() > 0 && existing.last() == '\n' {
        existing
    } else {
        existing.push('\n')
    };
    base.push('\n') + binds
}

/// The compositor configuration with the bindings added at its end; refused
/// when it already holds them.
pub fn append_binds(existing: &str, binds: &str) -> (r: Result<String, InstallError>)
    ensures
        contains(existing@, binds_marker()) <==> r is Err,
        r is Err ==> r == Err::<String, InstallError>(InstallError::AlreadyInstalled),
        r is Ok ==> r->Ok_0@ == appended_binds_text(existing@, binds@),
{
    let e = chars_of(existing);
    let marker = chars_of("# hyprshot-rs keybindings");
    proof {
        reveal_strlit("# hyprshot-rs keybindings");
    }
    if contains_chars(&e, &marker) {
        return Err(InstallError::AlreadyInstalled);
    }
    let mut out = string_of(&e);
    if !(e.len() > 0 && e[e.len() - 1] == '\n') {
        crate::text::push_char(&mut out, '\n');
    }
    crate::text::push_char(&mut out, '\n');
    out.append(binds);
    assert(out@ =~= appended_binds_text(existing@, binds@));
    Ok(out)
}

/// `line` without one trailing carriage return.
pub open spec fn strip_cr(line: Seq<char>) -> Seq<char> {
    if line.len() > 0 && line.last() == '\r' {
        line.drop_last()
    } else {
        line
    }
}

/// The lines of `s` as `str::lines` gives them: cut at `\n`, a `\r` before
/// the `\n` dropped, no empty line after a final line break.
pub open spec fn lines_of(s: Seq<char>) -> Seq<Seq<char>> {
    let p = split_on(s, '\n');
    let body = Seq::new((p.len() - 1) as nat, |i: int| strip_cr(p[i]));
    if p.last().len() == 0 {
        body
    } else {
        body.push(p.last())
    }
}

pub open spec fn starts_with(s: Seq<char>, w: Seq<char>) -> bool {
    w.len() <= s.len() && s.subrange(0, w.len() as int) == w
}

/// The comment placed above a section header line.
pub open spec fn section_comment(line: Seq<char>) -> Seq<char> {
    if starts_with(line, "[paths]"@) {
        "# Paths configuration\n"@
    } else if starts_with(line, "[hotkeys]"@) {
        "\n# Hotkeys configuration for Hyprland\n# Format: \"MODIFIER, KEY\"\n# Examples: \"SUPER, Print\", \"SUPER SHIFT, S\", \", Print\"\n"@
    } else if starts_with(line, "[capture]"@) {
        "\n# Capture settings\n"@
    } else if starts_with(line, "[advanced]"@) {
        "\n# Advanced settings\n"@
    } else {
        Seq::empty()
    }
}

/// The first `n` lines, each ended by a line break and preceded by its section comment.
pub open spec fn decorated(lines: Seq<Seq<char>>, n: int) -> Seq<char>
    decreases n,
{
    if n <= 0 {
        Seq::empty()
    } else {
        decorated(lines, n - 1) + section_comment(lines[n - 1]) + lines[n - 1] + seq!['\n']
    }
}

pub open spec fn config_header() -> Seq<char> {
    "# hyprshot-rs configuration file\n# This file is automatically generated. Edit with care.\n\n"@
}

fn starts_with_exec(s: &Vec<char>, w: &str) -> (r: bool)
    ensures
        r == starts_with(s@, w@),
{
    let wv = chars_of(w);
    if wv.len() > s.len() {
        return false;
    }
    let head = slice_chars(s, 0, wv.len());
    chars_eq(&head, &wv)
}

fn section_comment_exec(line: &Vec<char>) -> (r: &'static str)
    ensures
        r@ == section_comment(line@),
{
    if starts_with_exec(line, "[paths]") {
        "# Paths configuration\n"
    } else if starts_with_exec(line, "[hotkeys]") {
        "\n# Hotkeys configuration for Hyprland\n# Format: \"MODIFIER, KEY\"\n# Examples: \"SUPER, Print\", \"SUPER SHIFT, S\", \", Print\"\n"
    } else if starts_with_exec(line, "[capture]") {
        "\n# Capture settings\n"
    } else if starts_with_exec(line, "[advanced]") {
        "\n# Advanced settings\n"
    } else {
        proof {
            reveal_strlit("");
        }
        assert(""@ =~= Seq::<char>::empty());
        ""
    }
}

/// The serialized settings with a header and a comment above each section.
pub fn commented_config(toml: &str) -> (r: String)
    ensures
        r@ == config_header() + decorated(lines_of(toml@), lines_of(toml@).len() as int),
{
    let pieces = split_on_char(&chars_of(toml), '\n');
    let ghost p = split_on(toml@, '\n');
    let ghost lines = lines_of(toml@);
    assert(crate::text::views(pieces@) == p);
    assert(p.len() >= 1);
    let last = pieces.len() - 1;
    let n: usize = if pieces[last].len() == 0 {
        last
    } else {
        pieces.len()
    };
    assert(n == lines.len());
    let mut out = String::from_str(
        "# hyprshot-rs configuration file\n# This file is automatically generated. Edit with care.\n\n",
    );
    let mut i: usize = 0;
    while i < n
        invariant
            i <= n,
            n == lines.len(),
            n <= pieces.len(),
            last == pieces.len() - 1,
            crate::text::views(pieces@) == p,
            lines == lines_of(toml@),
            p == split_on(toml@, '\n'),
            out@ == config_header() + decorated(lines, i as int),
        decreases n - i,
    {
        let piece = &pieces[i];
        let line: Vec<char> = if i < last && piece.len() > 0 && piece[piece.len() - 1] == '\r' {
            slice_chars(piece, 0, piece.len() - 1)
        } else {
            slice_chars(piece, 0, piece.len())
        };
        assert(line@ == lines[i as int]) by {
            assert(piece@ == p[i as int]);
            if i < last {
                assert(lines[i as int] == strip_cr(p[i as int]));
                if piece@.len() > 0 && piece@.last() == '\r' {
                    assert(line@ =~= piece@.drop_last());
                } else {
                    assert(line@ =~= piece@);
                }
            } else {
                assert(lines[i as int] == p.last());
                assert(line@ =~= piece@);
            }
        }
        let ghost before = out@;
        out.append(section_comment_exec(&line));
        crate::text::push_chars(&mut out, &line);
        crate::text::push_char(&mut out, '\n');
        assert(out@ =~= before + section_comment(lines[i as int]) + lines[i as int] + seq!['\n']);
        i = i + 1;
    }
    out
}

} // verus!
