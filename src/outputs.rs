//! Output descriptors as the display server describes them, filled in event by
//! event, and the logical geometry derived from them.
use vstd::prelude::*;
use crate::geometry::Geometry;

verus! {

/// One output as learnt from the output-description channel.
/// Every field but `scale` may still be unknown.
#[derive(Debug, Clone)]
pub struct OutputDescriptor {
    pub name: Option<String>,
    pub scale: i32,
    pub position: Option<(i32, i32)>,
    pub mode_size: Option<(i32, i32)>,
    pub logical_position: Option<(i32, i32)>,
    pub logical_size: Option<(i32, i32)>,
}

/// One event about an output, from the base protocol or from the
/// extended-geometry extension.
#[derive(Debug, Clone)]
pub enum OutputEvent {
    Position { x: i32, y: i32 },
    Mode { current: bool, width: i32, height: i32 },
    Scale { factor: i32 },
    Name { name: String },
    LogicalPosition { x: i32, y: i32 },
    LogicalSize { width: i32, height: i32 },
    ExtendedName { name: String },
}

/// Why an output's logical geometry could not be resolved.
#[derive(Debug, Clone, Copy, PartialEq, Eq, Structural)]
pub enum ResolveError {
    /// No output carries the requested name.
    NotFound,
    /// Neither a logical size nor a mode size (or no position) is known.
    Incomplete,
    /// The derived size is zero or negative.
    NonPositiveSize,
}

pub open spec fn name_view(n: Option<String>) -> Option<Seq<char>> {
    match n {
        Some(s) => Some(s@),
        None => None,
    }
}

/// `a / b` rounded to the nearest integer, halves away from zero.
pub open spec fn round_div(a: int, b: int) -> int
    recommends
        b > 0,
{
    if a >= 0 {
        (2 * a + b) / (2 * b)
    } else {
        -((-2 * a + b) / (2 * b))
    }
}

pub proof fn lemma_round_div_bounds(a: int, b: int)
    requires
        b >= 1,
    ensures
        a >= 0 ==> 0 <= round_div(a, b) <= a,
        a < 0 ==> a <= round_div(a, b) <= 0,
{
    if a >= 0 {
        assert((2 * a + b) / (2 * b) <= a) by (nonlinear_arith)
            requires
                a >= 0,
                b >= 1,
        {
            assert(2 * a + b <= 2 * b * a + 2 * b - 1 || a == 0);
        }
        assert((2 * a + b) / (2 * b) >= 0) by (nonlinear_arith)
            requires
                a >= 0,
                b >= 1,
        ;
    } else {
        let c = -a;
        assert((2 * c + b) / (2 * b) <= c) by (nonlinear_arith)
            requires
                c >= 1,
                b >= 1,
        ;
        assert((2 * c + b) / (2 * b) >= 0) by (nonlinear_arith)
            requires
                c >= 1,
                b >= 1,
        ;
    }
}

fn round_div_exec(a: i32, b: i32) -> (r: i32)
    requires
        b >= 1,
    ensures
        r == round_div(a as int, b as int),
{
    proof {
        lemma_round_div_bounds(a as int, b as int);
    }
    let a64 = a as i64;
    let b64 = b as i64;
    if a64 >= 0 {
        ((2 * a64 + b64) / (2 * b64)) as i32
    } else {
        (-((-2 * a64 + b64) / (2 * b64))) as i32
    }
}

impl OutputDescriptor {
    /// A freshly announced output: nothing known yet, scale 1.
    pub fn empty() -> (r: OutputDescriptor)
        ensures
            r.name is None,
            r.scale == 1,
            r.position is None,
            r.mode_size is None,
            r.logical_position is None,
            r.logical_size is None,
    {
        OutputDescriptor {
            name: None,
            scale: 1,
            position: None,
            mode_size: None,
            logical_position: None,
            logical_size: None,
        }
    }

    pub open spec fn name_spec(&self) -> Option<Seq<char>> {
        name_view(self.name)
    }

    /// The authoritative logical size, else the mode size divided by the
    /// scale (at least 1), rounded.
    pub open spec fn logical_size_spec(&self) -> Option<(int, int)> {
        match self.logical_size {
            Some((w, h)) => Some((w as int, h as int)),
            None => match self.mode_size {
                Some((w, h)) => {
                    let s = if self.scale >= 1 {
                        self.scale as int
                    } else {
                        1
                    };
                    Some((round_div(w as int, s), round_div(h as int, s)))
                },
                None => None,
            },
        }
    }

    /// The logical position, falling back to the physical one.
    pub open spec fn position_spec(&self) -> Option<(int, int)> {
        match self.logical_position {
            Some((x, y)) => Some((x as int, y as int)),
            None => match self.position {
                Some((x, y)) => Some((x as int, y as int)),
                None => None,
            },
        }
    }

    /// Logical position and size, when both can be had.
    pub open spec fn geometry_spec(&self) -> Option<(int, int, int, int)> {
        match (self.position_spec(), self.logical_size_spec()) {
            (Some((x, y)), Some((w, h))) => Some((x, y, w, h)),
            _ => None,
        }
    }

    pub fn logical_size(&self) -> (r: Option<(i32, i32)>)
        ensures
            match r {
                Some((w, h)) => self.logical_size_spec() == Some((w as int, h as int)),
                None => self.logical_size_spec() is None,
            },
    {
        match self.logical_size {
            Some((w, h)) => Some((w, h)),
            None => match self.mode_size {
                Some((w, h)) => {
                    let s = if self.scale >= 1 {
                        self.scale
                    } else {
                        1
                    };
                    Some((round_div_exec(w, s), round_div_exec(h, s)))
                },
                None => None,
            },
        }
    }

    pub fn logical_position(&self) -> (r: Option<(i32, i32)>)
        ensures
            match r {
                Some((x, y)) => self.position_spec() == Some((x as int, y as int)),
                None => self.position_spec() is None,
            },
    {
        match self.logical_position {
            Some(p) => Some(p),
            None => self.position,
        }
    }

    /// Logical `(x, y, width, height)` of the output, when known.
    pub fn geometry(&self) -> (r: Option<(i32, i32, i32, i32)>)
        ensures
            match r {
                Some((x, y, w, h)) => self.geometry_spec() == Some(
                    (x as int, y as int, w as int, h as int),
                ),
                None => self.geometry_spec() is None,
            },
    {
        match (self.logical_position(), self.logical_size()) {
            (Some((x, y)), Some((w, h))) => Some((x, y, w, h)),
            _ => None,
        }
    }

    /// The output's logical geometry as a `Geometry`, when known and non-empty.
    pub fn resolve_logical_geometry(&self) -> (r: Result<Geometry, ResolveError>)
        ensures
            r == resolve_spec(*self),
    {
        match self.geometry() {
            Some((x, y, w, h)) => match Geometry::new(x, y, w, h) {
                Ok(g) => Ok(g),
                Err(_) => Err(ResolveError::NonPositiveSize),
            },
            None => Err(ResolveError::Incomplete),
        }
    }

    /// The scale the overlay buffer is drawn at: the ratio of mode width to
    /// logical width when both are known and that ratio is within 1/100 of an
    /// integer (at least 1), 1 when they are known and it is not, else the
    /// advertised scale (at least 1).
    pub fn buffer_scale(&self) -> (r: i32)
        ensures
            r == buffer_scale_spec(*self),
            r >= 1,
    {
        match (self.mode_size, self.logical_size) {
            (Some((mw, _)), Some((lw, _))) if lw > 0 => {
                let k = round_div_exec(mw, lw);
                proof {
                    lemma_round_div_bounds(mw as int, lw as int);
                    let ki = k as int;
                    let li = lw as int;
                    assert(-0x8000_0000 * 0x8000_0000 <= ki * li <= 0x8000_0000 * 0x8000_0000)
                        by (nonlinear_arith)
                        requires
                            -0x8000_0000 <= ki <= 0x8000_0000,
                            1 <= li <= 0x8000_0000,
                    ;
                }
                let diff = (mw as i64) - (k as i64) * (lw as i64);
                let adiff = if diff < 0 {
                    -diff
                } else {
                    diff
                };
                if adiff < lw as i64 && adiff * 100 < lw as i64 {
                    if k >= 1 {
                        k
                    } else {
                        1
                    }
                } else {
                    1
                }
            },
            _ => {
                if self.scale >= 1 {
                    self.scale
                } else {
                    1
                }
            },
        }
    }

    /// Records one event; only the latest value of each field is kept.
    /// A mode that is not the current one changes nothing.
    pub fn apply(&mut self, event: OutputEvent)
        ensures
            apply_spec(*old(self), event, *final(self)),
    {
        match event {
            OutputEvent::Position { x, y } => {
                self.position = Some((x, y));
            },
            OutputEvent::Mode { current, width, height } => {
                if current {
                    self.mode_size = Some((width, height));
                }
            },
            OutputEvent::Scale { factor } => {
                self.scale = if factor >= 1 {
                    factor
                } else {
                    1
                };
            },
            OutputEvent::Name { name } => {
                self.name = Some(name);
            },
            OutputEvent::LogicalPosition { x, y } => {
                self.logical_position = Some((x, y));
            },
            OutputEvent::LogicalSize { width, height } => {
                self.logical_size = Some((width, height));
            },
            OutputEvent::ExtendedName { name } => {
                self.name = Some(name);
            },
        }
    }
}

pub open spec fn resolve_spec(d: OutputDescriptor) -> Result<Geometry, ResolveError> {
    match d.geometry_spec() {
        Some((x, y, w, h)) => if w > 0 && h > 0 {
            Ok(Geometry { x: x as i32, y: y as i32, width: w as i32, height: h as i32 })
        } else {
            Err(ResolveError::NonPositiveSize)
        },
        None => Err(ResolveError::Incomplete),
    }
}

pub open spec fn buffer_scale_spec(d: OutputDescriptor) -> int {
    match (d.mode_size, d.logical_size) {
        (Some((mw, _)), Some((lw, _))) => if lw > 0 {
            let k = round_div(mw as int, lw as int);
            let diff = mw as int - k * lw as int;
            let adiff = if diff < 0 {
                -diff
            } else {
                diff
            };
            if adiff * 100 < lw as int {
                if k >= 1 {
                    k
                } else {
                    1
                }
            } else {
                1
            }
        } else if d.scale >= 1 {
            d.scale as int
        } else {
            1
        },
        _ => if d.scale >= 1 {
            d.scale as int
        } else {
            1
        },
    }
}

/// `after` is `before` with `event` recorded.
pub open spec fn apply_spec(before: OutputDescriptor, event: OutputEvent, after: OutputDescriptor) -> bool {
    match event {
        OutputEvent::Position { x, y } => after == OutputDescriptor { position: Some((x, y)), ..before },
        OutputEvent::Mode { current, width, height } => if current {
            after == OutputDescriptor { mode_size: Some((width, height)), ..before }
        } else {
            after == before
        },
        OutputEvent::Scale { factor } => after == OutputDescriptor {
            scale: if factor >= 1 {
                factor
            } else {
                1
            },
            ..before
        },
        OutputEvent::Name { name } => after == OutputDescriptor { name: Some(name), ..before },
        OutputEvent::LogicalPosition { x, y } => after == OutputDescriptor {
            logical_position: Some((x, y)),
            ..before
        },
        OutputEvent::LogicalSize { width, height } => after == OutputDescriptor {
            logical_size: Some((width, height)),
            ..before
        },
        OutputEvent::ExtendedName { name } => after == OutputDescriptor { name: Some(name), ..before },
    }
}

/// Whether two `(x, y, width, height)` quadruples agree within 1 in every component.
pub open spec fn close_spec(a: (int, int, int, int), b: (int, int, int, int)) -> bool {
    -1 <= a.0 - b.0 <= 1 && -1 <= a.1 - b.1 <= 1 && -1 <= a.2 - b.2 <= 1 && -1 <= a.3 - b.3 <= 1
}

pub open spec fn quad(g: (i32, i32, i32, i32)) -> (int, int, int, int) {
    (g.0 as int, g.1 as int, g.2 as int, g.3 as int)
}

fn close1(a: i32, b: i32) -> (r: bool)
    ensures
        r == (-1 <= a - b <= 1),
{
    let d = a as i64 - b as i64;
    -1 <= d && d <= 1
}

/// Whether every component of `a` is within 1 of that of `b`.
pub fn geometry_close(a: (i32, i32, i32, i32), b: (i32, i32, i32, i32)) -> (r: bool)
    ensures
        r == close_spec(quad(a), quad(b)),
{
    close1(a.0, b.0) && close1(a.1, b.1) && close1(a.2, b.2) && close1(a.3, b.3)
}

/// Closeness is reflexive and symmetric, and fails as soon as one component
/// differs by more than 1.
pub proof fn lemma_geometry_close_laws(a: (int, int, int, int), b: (int, int, int, int))
    ensures
        close_spec(a, a),
        close_spec(a, b) == close_spec(b, a),
        (a.0 - b.0 > 1 || b.0 - a.0 > 1 || a.1 - b.1 > 1 || b.1 - a.1 > 1 || a.2 - b.2 > 1 || b.2
            - a.2 > 1 || a.3 - b.3 > 1 || b.3 - a.3 > 1) ==> !close_spec(a, b),
{
}

} // verus!
