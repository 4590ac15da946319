//! Choosing what to capture: a named output, a window, or a region cropped
//! to the monitor it starts on. The values come from the compositor; the
//! choices are made here.
use vstd::prelude::*;
use crate::decimal::{int_text, push_int_text};
use crate::geometry::Geometry;
use crate::matcher::{desc_named, first, first_from, resolve_by_name};
use crate::outputs::{OutputDescriptor, ResolveError, resolve_spec};
use crate::text::{chars_of, push_char};

verus! {

/// Why no capture geometry could be chosen.
#[derive(Debug, Clone, Copy, PartialEq, Eq, Structural)]
pub enum CaptureError {
    /// The named output could not be resolved.
    Output(ResolveError),
    /// The compositor's window data lacks a position or size.
    MissingField,
    /// A window has a zero or negative size, or its numbers do not fit 32 bits.
    InvalidWindow,
    /// Cropping to the monitor leaves nothing.
    EmptyCrop,
    /// No supported compositor answered.
    Unsupported,
}

/// The geometry of the first output named `monitor`.
pub fn grab_selected_output(monitor: &str, outputs: &Vec<OutputDescriptor>) -> (r: Result<
    Geometry,
    CaptureError,
>)
    ensures
        match first(outputs@.len() as int, desc_named(outputs@, monitor@)) {
            Some(i) => match resolve_spec(outputs@[i]) {
                Ok(g) => r == Ok::<Geometry, CaptureError>(g),
                Err(e) => r == Err::<Geometry, CaptureError>(CaptureError::Output(e)),
            },
            None => r == Err::<Geometry, CaptureError>(CaptureError::Output(ResolveError::NotFound)),
        },
{
    match resolve_by_name(outputs, monitor) {
        Ok(i) => match outputs[i].resolve_logical_geometry() {
            Ok(g) => Ok(g),
            Err(e) => Err(CaptureError::Output(e)),
        },
        Err(e) => Err(CaptureError::Output(e)),
    }
}

/// Outputs whose logical rectangle holds the point `(x, y)`.
pub open spec fn holds_point(ds: Seq<OutputDescriptor>, x: int, y: int) -> spec_fn(int) -> bool {
    |i: int|
        match ds[i].geometry_spec() {
            Some((ox, oy, ow, oh)) => ox <= x < ox + ow && oy <= y < oy + oh,
            None => false,
        }
}

/// The logical rectangle of the first output that holds `(x, y)`.
pub fn monitor_containing(outputs: &Vec<OutputDescriptor>, x: i32, y: i32) -> (r: Option<
    (i32, i32, i32, i32),
>)
    ensures
        match first(outputs@.len() as int, holds_point(outputs@, x as int, y as int)) {
            Some(i) => match r {
                Some((ox, oy, ow, oh)) => outputs@[i].geometry_spec() == Some(
                    (ox as int, oy as int, ow as int, oh as int),
                ),
                None => false,
            },
            None => r is None,
        },
{
    let ghost p = holds_point(outputs@, x as int, y as int);
    let mut i: usize = 0;
    while i < outputs.len()
        invariant
            i <= outputs.len(),
            p == holds_point(outputs@, x as int, y as int),
            first(outputs@.len() as int, p) == first_from(outputs@.len() as int, p, i as int),
        decreases outputs.len() - i,
    {
        match outputs[i].geometry() {
            Some((ox, oy, ow, oh)) => {
                let (xi, yi) = (x as i64, y as i64);
                if ox as i64 <= xi && xi < ox as i64 + ow as i64 && oy as i64 <= yi && yi
                    < oy as i64 + oh as i64 {
                    return Some((ox, oy, ow, oh));
                }
            },
            None => {},
        }
        i = i + 1;
    }
    None
}

/// `g` cut down to the monitor rectangle `m`.
pub open spec fn crop_spec(g: Geometry, m: (int, int, int, int)) -> Result<Geometry, CaptureError> {
    let (mx, my, mw, mh) = m;
    let w1 = if g.x + g.width > mx + mw {
        mx + mw - g.x
    } else {
        g.width as int
    };
    let h1 = if g.y + g.height > my + mh {
        my + mh - g.y
    } else {
        g.height as int
    };
    let (x2, w2) = if g.x < mx {
        (mx, w1 - (mx - g.x))
    } else {
        (g.x as int, w1)
    };
    let (y2, h2) = if g.y < my {
        (my, h1 - (my - g.y))
    } else {
        (g.y as int, h1)
    };
    if w2 <= 0 || h2 <= 0 {
        Err(CaptureError::EmptyCrop)
    } else {
        Ok(Geometry { x: x2 as i32, y: y2 as i32, width: w2 as i32, height: h2 as i32 })
    }
}

/// Crops a window geometry to the monitor it starts on; without a known
/// monitor the geometry is kept as it is.
pub fn trim(geometry: &Geometry, monitor: Option<(i32, i32, i32, i32)>) -> (r: Result<
    Geometry,
    CaptureError,
>)
    ensures
        match monitor {
            Some(m) => r == crop_spec(
                *geometry,
                (m.0 as int, m.1 as int, m.2 as int, m.3 as int),
            ),
            None => r == Ok::<Geometry, CaptureError>(*geometry),
        },
        monitor is Some && r is Ok ==> r->Ok_0.wf(),
{
    match monitor {
        None => Ok(*geometry),
        Some((mx, my, mw, mh)) => {
            let (x, y) = (geometry.x as i64, geometry.y as i64);
            let (w, h) = (geometry.width as i64, geometry.height as i64);
            let (mx, my, mw, mh) = (mx as i64, my as i64, mw as i64, mh as i64);
            let w1 = if x + w > mx + mw {
                mx + mw - x
            } else {
                w
            };
            let h1 = if y + h > my + mh {
                my + mh - y
            } else {
                h
            };
            let (x2, w2) = if x < mx {
                (mx, w1 - (mx - x))
            } else {
                (x, w1)
            };
            let (y2, h2) = if y < my {
                (my, h1 - (my - y))
            } else {
                (y, h1)
            };
            if w2 <= 0 || h2 <= 0 {
                Err(CaptureError::EmptyCrop)
            } else {
                Ok(Geometry { x: x2 as i32, y: y2 as i32, width: w2 as i32, height: h2 as i32 })
            }
        },
    }
}

/// A window's position and size as the compositor reported them; a field it
/// did not report is `None`.
#[derive(Debug, Clone, Copy, PartialEq, Eq, Structural)]
pub struct WindowRect {
    pub x: Option<i64>,
    pub y: Option<i64>,
    pub width: Option<i64>,
    pub height: Option<i64>,
}

pub open spec fn fits_i32(v: i64) -> bool {
    i32::MIN <= v <= i32::MAX
}

/// The geometry of a window whose four fields were all reported.
pub open spec fn window_geometry_spec(r: WindowRect) -> Result<Geometry, CaptureError> {
    match (r.x, r.y, r.width, r.height) {
        (Some(x), Some(y), Some(w), Some(h)) => if w <= 0 || h <= 0 || !fits_i32(x) || !fits_i32(
            y,
        ) || !fits_i32(w) || !fits_i32(h) {
            Err(CaptureError::InvalidWindow)
        } else {
            Ok(Geometry { x: x as i32, y: y as i32, width: w as i32, height: h as i32 })
        },
        _ => Err(CaptureError::MissingField),
    }
}

pub fn window_geometry(r: &WindowRect) -> (g: Result<Geometry, CaptureError>)
    ensures
        g == window_geometry_spec(*r),
{
    match (r.x, r.y, r.width, r.height) {
        (Some(x), Some(y), Some(w), Some(h)) => {
            let lo: i64 = -2147483648;
            let hi: i64 = 2147483647;
            if w <= 0 || h <= 0 || x < lo || x > hi || y < lo || y > hi || w > hi || h > hi {
                Err(CaptureError::InvalidWindow)
            } else {
                Ok(Geometry { x: x as i32, y: y as i32, width: w as i32, height: h as i32 })
            }
        },
        _ => Err(CaptureError::MissingField),
    }
}

/// `r` with every unreported field read as 0.
pub open spec fn zero_filled(r: WindowRect) -> WindowRect {
    WindowRect {
        x: Some(r.x.unwrap_or(0)),
        y: Some(r.y.unwrap_or(0)),
        width: Some(r.width.unwrap_or(0)),
        height: Some(r.height.unwrap_or(0)),
    }
}

fn or_zero(v: Option<i64>) -> (r: i64)
    ensures
        r == v.unwrap_or(0),
{
    match v {
        Some(n) => n,
        None => 0,
    }
}

/// The active window's geometry: from the first compositor's report when it
/// is complete and valid, else from the second's (where missing fields count
/// as 0), else unsupported.
pub fn grab_active_window(hyprctl: Option<WindowRect>, sway: Option<WindowRect>) -> (r: Result<
    Geometry,
    CaptureError,
>)
    ensures
        r == active_window_spec(hyprctl, sway),
{
    if let Some(h) = hyprctl {
        if let Ok(g) = window_geometry(&h) {
            return Ok(g);
        }
    }
    if let Some(s) = sway {
        let filled = WindowRect {
            x: Some(or_zero(s.x)),
            y: Some(or_zero(s.y)),
            width: Some(or_zero(s.width)),
            height: Some(or_zero(s.height)),
        };
        if let Ok(g) = window_geometry(&filled) {
            return Ok(g);
        }
    }
    Err(CaptureError::Unsupported)
}

pub open spec fn active_window_spec(hyprctl: Option<WindowRect>, sway: Option<WindowRect>) -> Result<
    Geometry,
    CaptureError,
> {
    if hyprctl is Some && window_geometry_spec(hyprctl->0) is Ok {
        window_geometry_spec(hyprctl->0)
    } else if sway is Some && window_geometry_spec(zero_filled(sway->0)) is Ok {
        window_geometry_spec(zero_filled(sway->0))
    } else {
        Err(CaptureError::Unsupported)
    }
}

/// `s` with each line break turned into a space.
pub open spec fn one_line(s: Seq<char>) -> Seq<char> {
    Seq::new(s.len(), |i: int| if s[i] == '\n' { ' ' } else { s[i] })
}

/// The selector's line for one window: `x,y wxh title`.
pub open spec fn window_box_text(x: int, y: int, w: int, h: int, title: Seq<char>) -> Seq<char> {
    int_text(x) + seq![','] + int_text(y) + seq![' '] + int_text(w) + seq!['x'] + int_text(h)
        + seq![' '] + one_line(title)
}

/// The selector's line for a window, or `None` when its size is not positive.
pub fn format_window_box(x: i32, y: i32, width: i32, height: i32, title: &str) -> (r: Option<
    String,
>)
    ensures
        (width > 0 && height > 0) <==> r is Some,
        r is Some ==> r->0@ == window_box_text(
            x as int,
            y as int,
            width as int,
            height as int,
            title@,
        ),
{
    if width <= 0 || height <= 0 {
        return None;
    }
    let mut out = String::new();
    push_int_text(&mut out, x as i64);
    push_char(&mut out, ',');
    push_int_text(&mut out, y as i64);
    push_char(&mut out, ' ');
    push_int_text(&mut out, width as i64);
    push_char(&mut out, 'x');
    push_int_text(&mut out, height as i64);
    push_char(&mut out, ' ');
    let t = chars_of(title);
    let ghost start = out@;
    let mut i: usize = 0;
    while i < t.len()
        invariant
            i <= t.len(),
            out@ == start + one_line(t@).subrange(0, i as int),
        decreases t.len() - i,
    {
        let c = if t[i] == '\n' {
            ' '
        } else {
            t[i]
        };
        push_char(&mut out, c);
        i = i + 1;
        assert(out@ =~= start + one_line(t@).subrange(0, i as int));
    }
    assert(one_line(t@).subrange(0, t@.len() as int) =~= one_line(t@));
    assert(out@ =~= window_box_text(x as int, y as int, width as int, height as int, title@));
    Some(out)
}

/// One window as the compositor lists it.
#[derive(Debug)]
pub struct ClientWindow {
    /// The workspace it is on, when reported.
    pub workspace: Option<i64>,
    pub rect: WindowRect,
    pub title: String,
}

/// The selector lines for the first `n` windows: those on an active workspace
/// whose geometry is valid, in order.
pub open spec fn client_boxes_spec(clients: Seq<ClientWindow>, active: Seq<i64>, n: int) -> Seq<
    Seq<char>,
>
    decreases n,
{
    if n <= 0 {
        Seq::empty()
    } else {
        let prev = client_boxes_spec(clients, active, n - 1);
        let c = clients[n - 1];
        match c.workspace {
            Some(id) => if active.contains(id) {
                match window_geometry_spec(c.rect) {
                    Ok(g) => prev.push(
                        window_box_text(
                            g.x as int,
                            g.y as int,
                            g.width as int,
                            g.height as int,
                            c.title@,
                        ),
                    ),
                    Err(_) => prev,
                }
            } else {
                prev
            },
            None => prev,
        }
    }
}

fn contains_id(ids: &Vec<i64>, id: i64) -> (r: bool)
    ensures
        r == ids@.contains(id),
{
    let mut k: usize = 0;
    while k < ids.len()
        invariant
            k <= ids.len(),
            forall|m: int| 0 <= m < k ==> ids@[m] != id,
        decreases ids.len() - k,
    {
        if ids[k] == id {
            assert(ids@[k as int] == id);
            return true;
        }
        k = k + 1;
    }
    false
}

/// Selector lines for the windows on the active workspaces.
pub fn visible_client_boxes(clients: &Vec<ClientWindow>, active_workspaces: &Vec<i64>) -> (r: Vec<
    String,
>)
    ensures
        r@.map_values(|s: String| s@) == client_boxes_spec(
            clients@,
            active_workspaces@,
            clients@.len() as int,
        ),
{
    let mut out: Vec<String> = Vec::new();
    let mut i: usize = 0;
    while i < clients.len()
        invariant
            i <= clients.len(),
            out@.map_values(|s: String| s@) == client_boxes_spec(
                clients@,
                active_workspaces@,
                i as int,
            ),
        decreases clients.len() - i,
    {
        let c = &clients[i];
        let ghost before = out@.map_values(|s: String| s@);
        if let Some(id) = c.workspace {
            if contains_id(active_workspaces, id) {
                if let Ok(g) = window_geometry(&c.rect) {
                    match format_window_box(g.x, g.y, g.width, g.height, c.title.as_str()) {
                        Some(line) => {
                            out.push(line);
                            assert(out@.map_values(|s: String| s@) =~= before.push(
                                window_box_text(
                                    g.x as int,
                                    g.y as int,
                                    g.width as int,
                                    g.height as int,
                                    c.title@,
                                ),
                            ));
                        },
                        None => {},
                    }
                }
            }
        }
        i = i + 1;
    }
    out
}

/// The capture target the `--mode` values select: the last of output,
/// window and region; whether `active` was given; and the last output name.
#[derive(Debug)]
pub struct ModeSelection {
    pub option: Option<crate::cli::Mode>,
    pub current: bool,
    pub selected_monitor: Option<String>,
}

/// Folds the `--mode` values in order.
pub fn select_modes(modes: &Vec<crate::cli::Mode>) -> (r: ModeSelection)
    ensures
        r.current == exists|i: int| 0 <= i < modes@.len() && (#[trigger] modes@[i]) is Active,
        match r.option {
            Some(m) => (m is Output || m is Window || m is Region) && exists|i: int|
                0 <= i < modes@.len() && modes@[i] == m && forall|k: int|
                    i < k < modes@.len() ==> !(#[trigger] modes@[k] is Output || modes@[k] is Window
                        || modes@[k] is Region),
            None => forall|i: int|
                0 <= i < modes@.len() ==> !(#[trigger] modes@[i] is Output || modes@[i] is Window
                    || modes@[i] is Region),
        },
        match r.selected_monitor {
            Some(n) => exists|i: int|
                0 <= i < modes@.len() && (#[trigger] modes@[i]) is OutputName && modes@[i]->OutputName_0@
                    == n@ && forall|k: int| i < k < modes@.len() ==> !(#[trigger] modes@[k] is OutputName),
            None => forall|i: int| 0 <= i < modes@.len() ==> !(#[trigger] modes@[i] is OutputName),
        },
{
    let mut option: Option<crate::cli::Mode> = None;
    let mut current = false;
    let mut selected: Option<String> = None;
    let mut i: usize = 0;
    while i < modes.len()
        invariant
            i <= modes.len(),
            current == exists|k: int| 0 <= k < i && (#[trigger] modes@[k]) is Active,
            match option {
                Some(m) => (m is Output || m is Window || m is Region) && exists|j: int|
                    0 <= j < i && modes@[j] == m && forall|k: int|
                        j < k < i ==> !(#[trigger] modes@[k] is Output || modes@[k] is Window
                            || modes@[k] is Region),
                None => forall|k: int|
                    0 <= k < i ==> !(#[trigger] modes@[k] is Output || modes@[k] is Window
                        || modes@[k] is Region),
            },
            match selected {
                Some(n) => exists|j: int|
                    0 <= j < i && (#[trigger] modes@[j]) is OutputName && modes@[j]->OutputName_0@
                        == n@ && forall|k: int| j < k < i ==> !(#[trigger] modes@[k] is OutputName),
                None => forall|k: int| 0 <= k < i ==> !(#[trigger] modes@[k] is OutputName),
            },
        decreases modes.len() - i,
    {
        match &modes[i] {
            crate::cli::Mode::Output => {
                option = Some(crate::cli::Mode::Output);
            },
            crate::cli::Mode::Window => {
                option = Some(crate::cli::Mode::Window);
            },
            crate::cli::Mode::Region => {
                option = Some(crate::cli::Mode::Region);
            },
            crate::cli::Mode::Active => {
                current = true;
            },
            crate::cli::Mode::OutputName(name) => {
                selected = Some(name.clone());
            },
        }
        i = i + 1;
    }
    ModeSelection { option, current, selected_monitor: selected }
}

} // verus!
