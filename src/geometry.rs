//! A screen rectangle with strictly positive size, and its text form `x,y wxh`.
use vstd::prelude::*;
use crate::decimal::{i32_of, int_text, lemma_int_text_round_trip, parse_i32, push_int_text};
use crate::text::{
    chars_of, is_space, lemma_split_two, lemma_words_two, push_char, split_on, split_on_char,
    split_words, words,
};

verus! {

#[derive(Debug, Clone, Copy, PartialEq, Eq, Structural)]
pub struct Geometry {
    pub x: i32,
    pub y: i32,
    pub width: i32,
    pub height: i32,
}

/// Why a geometry could not be built or read.
#[derive(Debug, Clone, Copy, PartialEq, Eq, Structural)]
pub enum GeometryError {
    /// Width or height is zero or negative.
    NonPositiveSize,
    /// The text holds nothing but whitespace.
    Empty,
    /// The text is not two words `x,y` and `wxh`.
    Malformed,
    /// One of the four numbers is not an `i32`.
    InvalidNumber,
}

impl Geometry {
    pub open spec fn wf(&self) -> bool {
        self.width > 0 && self.height > 0
    }

    /// Builds a geometry; fails unless both dimensions are positive.
    pub fn new(x: i32, y: i32, width: i32, height: i32) -> (r: Result<Geometry, GeometryError>)
        ensures
            r == new_spec(x, y, width, height),
            (width <= 0 || height <= 0) <==> r == Err::<Geometry, GeometryError>(
                GeometryError::NonPositiveSize,
            ),
    {
        if width <= 0 || height <= 0 {
            return Err(GeometryError::NonPositiveSize);
        }
        Ok(Geometry { x, y, width, height })
    }

    /// Reads `x,y wxh`, with whitespace allowed around and between the two words.
    pub fn parse(s: &str) -> (r: Result<Geometry, GeometryError>)
        ensures
            r == parse_spec(s@),
    {
        let chars = chars_of(s);
        let ws = split_words(&chars);
        if ws.len() == 0 {
            return Err(GeometryError::Empty);
        }
        if ws.len() != 2 {
            return Err(GeometryError::Malformed);
        }
        let xy = split_on_char(&ws[0], ',');
        let wh = split_on_char(&ws[1], 'x');
        if xy.len() != 2 || wh.len() != 2 {
            return Err(GeometryError::Malformed);
        }
        let x = parse_i32(&xy[0]);
        let y = parse_i32(&xy[1]);
        let w = parse_i32(&wh[0]);
        let h = parse_i32(&wh[1]);
        match (x, y, w, h) {
            (Some(x), Some(y), Some(w), Some(h)) => Geometry::new(x, y, w, h),
            _ => Err(GeometryError::InvalidNumber),
        }
    }

    /// The text form `x,y wxh`.
    pub fn to_string(&self) -> (r: String)
        ensures
            r@ == self.text(),
    {
        let mut out = String::new();
        push_int_text(&mut out, self.x as i64);
        push_char(&mut out, ',');
        push_int_text(&mut out, self.y as i64);
        push_char(&mut out, ' ');
        push_int_text(&mut out, self.width as i64);
        push_char(&mut out, 'x');
        push_int_text(&mut out, self.height as i64);
        assert(out@ =~= self.text());
        out
    }

    pub open spec fn text(&self) -> Seq<char> {
        int_text(self.x as int) + seq![','] + int_text(self.y as int) + seq![' '] + int_text(
            self.width as int,
        ) + seq!['x'] + int_text(self.height as int)
    }
}

impl std::str::FromStr for Geometry {
    type Err = GeometryError;

    fn from_str(s: &str) -> Result<Geometry, GeometryError> {
        Geometry::parse(s)
    }
}

pub open spec fn new_spec(x: i32, y: i32, width: i32, height: i32) -> Result<
    Geometry,
    GeometryError,
> {
    if width > 0 && height > 0 {
        Ok(Geometry { x, y, width, height })
    } else {
        Err(GeometryError::NonPositiveSize)
    }
}

/// What reading `s` as `x,y wxh` gives.
pub open spec fn parse_spec(s: Seq<char>) -> Result<Geometry, GeometryError> {
    let ws = words(s);
    if ws.len() == 0 {
        Err(GeometryError::Empty)
    } else if ws.len() != 2 || split_on(ws[0], ',').len() != 2 || split_on(ws[1], 'x').len()
        != 2 {
        Err(GeometryError::Malformed)
    } else {
        let xy = split_on(ws[0], ',');
        let wh = split_on(ws[1], 'x');
        match (i32_of(xy[0]), i32_of(xy[1]), i32_of(wh[0]), i32_of(wh[1])) {
            (Some(x), Some(y), Some(w), Some(h)) => new_spec(x, y, w, h),
            _ => Err(GeometryError::InvalidNumber),
        }
    }
}

/// Building a geometry from positive dimensions, writing it and reading it back
/// gives the same four numbers.
pub proof fn lemma_geometry_text_round_trip(x: i32, y: i32, width: i32, height: i32)
    requires
        width > 0,
        height > 0,
    ensures
        new_spec(x, y, width, height) is Ok,
        parse_spec(new_spec(x, y, width, height)->Ok_0.text()) == Ok::<Geometry, GeometryError>(
            Geometry { x, y, width, height },
        ),
{
    let g = Geometry { x, y, width, height };
    lemma_int_text_round_trip(x as int);
    lemma_int_text_round_trip(y as int);
    lemma_int_text_round_trip(width as int);
    lemma_int_text_round_trip(height as int);
    let tx = int_text(x as int);
    let ty = int_text(y as int);
    let tw = int_text(width as int);
    let th = int_text(height as int);
    let a = tx + seq![','] + ty;
    let b = tw + seq!['x'] + th;
    assert(g.text() =~= a + seq![' '] + b);
    assert forall|k: int| 0 <= k < a.len() implies !is_space(#[trigger] a[k]) by {
        if k < tx.len() {
            assert(a[k] == tx[k]);
        } else if k > tx.len() {
            assert(a[k] == ty[k - tx.len() - 1]);
        }
    }
    assert forall|k: int| 0 <= k < b.len() implies !is_space(#[trigger] b[k]) by {
        if k < tw.len() {
            assert(b[k] == tw[k]);
        } else if k > tw.len() {
            assert(b[k] == th[k - tw.len() - 1]);
        }
    }
    lemma_words_two(a, b);
    lemma_split_two(tx, ',', ty);
    lemma_split_two(tw, 'x', th);
}

} // verus!
