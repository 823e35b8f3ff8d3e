use vstd::prelude::*;

verus! {

/// A color as red, green, blue and alpha bytes.
#[derive(Clone, Copy, Debug, PartialEq, Eq, Structural)]
pub struct Rgba {
    pub r: u8,
    pub g: u8,
    pub b: u8,
    pub a: u8,
}

impl Rgba {
    /// Opaque white.
    pub open spec fn spec_white() -> Rgba {
        Rgba { r: 255, g: 255, b: 255, a: 255 }
    }

    /// The opaque gray of the dial's track on a light theme.
    pub open spec fn spec_gray() -> Rgba {
        Rgba { r: 160, g: 160, b: 160, a: 255 }
    }

    /// Opaque white.
    pub fn white() -> (c: Rgba)
        ensures
            c == Rgba::spec_white(),
    {
        Rgba { r: 255, g: 255, b: 255, a: 255 }
    }

    /// The opaque gray of the dial's track on a light theme.
    pub fn gray() -> (c: Rgba)
        ensures
            c == Rgba::spec_gray(),
    {
        Rgba { r: 160, g: 160, b: 160, a: 255 }
    }
}

/// An outline: its width in whole units and its color.
#[derive(Clone, Copy, Debug, PartialEq, Eq, Structural)]
pub struct Stroke {
    pub width: u32,
    pub color: Rgba,
}

/// A point given by its direction from the dial's center, in whole degrees
/// counter-clockwise from east, and its distance from the center in subunits.
#[derive(Clone, Copy, Debug, PartialEq, Eq, Structural)]
pub struct Polar {
    pub degrees: i32,
    pub distance: u64,
}

impl Polar {
    /// The dial's center.
    pub open spec fn spec_center() -> Polar {
        Polar { degrees: 0, distance: 0 }
    }

    /// The dial's center.
    pub fn center() -> (p: Polar)
        ensures
            p == Polar::spec_center(),
    {
        Polar { degrees: 0, distance: 0 }
    }
}

/// One shape of a gauge's drawing, placed relative to the dial's center.
#[derive(Debug)]
pub enum Shape {
    /// A closed polygon through `points`, filled and outlined.
    Polygon { points: Vec<Polar>, fill: Rgba, stroke: Stroke },
    /// A disc of `radius` subunits around `center`, filled and outlined.
    Circle { center: Polar, radius: u64, fill: Rgba, stroke: Stroke },
    /// A whole number written centered on `at`.
    Number { at: Polar, value: i64, font_size: u64, color: Rgba },
    /// A caption wrapped to `wrap_width`, centered horizontally, with its middle
    /// `below_center` subunits under the center, on a `background`.
    Caption {
        text: String,
        below_center: u64,
        font_size: u64,
        wrap_width: u64,
        color: Rgba,
        background: Rgba,
    },
}

/// What a `Shape` holds, with its points and its text as sequences.
pub enum ShapeView {
    Polygon { points: Seq<Polar>, fill: Rgba, stroke: Stroke },
    Circle { center: Polar, radius: nat, fill: Rgba, stroke: Stroke },
    Number { at: Polar, value: int, font_size: nat, color: Rgba },
    Caption {
        text: Seq<char>,
        below_center: nat,
        font_size: nat,
        wrap_width: nat,
        color: Rgba,
        background: Rgba,
    },
}

impl View for Shape {
    type V = ShapeView;

    open spec fn view(&self) -> ShapeView {
        match self {
            Shape::Polygon { points, fill, stroke } => ShapeView::Polygon {
                points: points@,
                fill: *fill,
                stroke: *stroke,
            },
            Shape::Circle { center, radius, fill, stroke } => ShapeView::Circle {
                center: *center,
                radius: *radius as nat,
                fill: *fill,
                stroke: *stroke,
            },
            Shape::Number { at, value, font_size, color } => ShapeView::Number {
                at: *at,
                value: *value as int,
                font_size: *font_size as nat,
                color: *color,
            },
            Shape::Caption { text, below_center, font_size, wrap_width, color, background } =>
                ShapeView::Caption {
                text: text@,
                below_center: *below_center as nat,
                font_size: *font_size as nat,
                wrap_width: *wrap_width as nat,
                color: *color,
                background: *background,
            },
        }
    }
}

/// The points of a circle sector: one at `distance` for each whole degree from
/// `from` to `to`, then the center when `through_center` holds.
pub open spec fn sector_spec(distance: nat, from: int, to: int, through_center: bool) -> Seq<Polar> {
    let arc = Seq::new(
        if from <= to {
            (to - from + 1) as nat
        } else {
            0
        },
        |i: int| Polar { degrees: (from + i) as i32, distance: distance as u64 },
    );
    if through_center {
        arc.push(Polar::spec_center())
    } else {
        arc
    }
}

/// The points of a circle sector (see `sector_spec`).
pub fn sector_points(distance: u64, from: i32, to: i32, through_center: bool) -> (r: Vec<Polar>)
    ensures
        r@ == sector_spec(distance as nat, from as int, to as int, through_center),
{
    let mut points: Vec<Polar> = Vec::new();
    let mut deg: i64 = from as i64;
    while deg <= to as i64
        invariant
            from <= deg <= to + 1 || (deg == from && from > to),
            points@ =~= sector_spec(distance as nat, from as int, (deg - 1) as int, false),
        decreases to + 1 - deg,
    {
        points.push(Polar { degrees: deg as i32, distance });
        deg = deg + 1;
    }
    if through_center {
        points.push(Polar::center());
    }
    assert(sector_spec(distance as nat, from as int, to as int, through_center) =~= if through_center {
        sector_spec(distance as nat, from as int, to as int, false).push(Polar::spec_center())
    } else {
        sector_spec(distance as nat, from as int, to as int, false)
    });
    points
}

} // verus!
