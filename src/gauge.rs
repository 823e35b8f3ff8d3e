use crate::dial::{angle_for, angle_of, angle_of_sixths, sixths_to_angle, tick_sixths, ticks, trunc_div};
use crate::shape::{sector_points, sector_spec, Polar, Rgba, Shape, ShapeView, Stroke};
use std::ops::RangeInclusive;
use vstd::prelude::*;

verus! {

/// Subunits to one unit of the host: lengths of the dial are counted in them.
pub const SUBUNITS: u64 = 150;

/// A gauge showing `value` on a dial from `min_value` to `max_value`, `size`
/// units wide and high, with its value arc in `color` and an optional caption.
pub struct Gauge {
    pub value: i64,
    pub min_value: i64,
    pub max_value: i64,
    pub size: u32,
    pub color: Rgba,
    pub text: String,
}

/// The host's colors that a gauge is drawn with.
#[derive(Clone, Copy, Debug, PartialEq, Eq, Structural)]
pub struct Theme {
    /// Whether the host shows a dark theme: the dial's track is then white, else gray.
    pub dark_mode: bool,
    /// The color behind the gauge, with which the masks are filled.
    pub background: Rgba,
    /// The color of the numbers and the caption.
    pub text: Rgba,
}

/// The margin kept around the ring for the tick labels, a tenth of the size.
pub open spec fn clearance_of(size: nat) -> nat {
    (SUBUNITS * size / 10) as nat
}

/// The width of the dial within its margins.
pub open spec fn inner_width_of(size: nat) -> nat {
    (SUBUNITS * size - 2 * clearance_of(size)) as nat
}

/// The outer radius of the ring.
pub open spec fn radius_of(size: nat) -> nat {
    inner_width_of(size) / 2
}

/// The thickness of the ring.
pub open spec fn thickness_of(size: nat) -> nat {
    inner_width_of(size) / 15
}

/// The track's color under a theme.
pub open spec fn track_color(t: Theme) -> Rgba {
    if t.dark_mode {
        Rgba::spec_white()
    } else {
        Rgba::spec_gray()
    }
}

/// An angle held within the dial's sweep, from -45 to 225 degrees.
pub open spec fn within_sweep(a: int) -> int {
    if a < -45 {
        -45
    } else if a > 225 {
        225
    } else {
        a
    }
}

/// A point at `degrees` and `distance`.
pub open spec fn at(degrees: int, distance: int) -> Polar {
    Polar { degrees: degrees as i32, distance: distance as u64 }
}

/// The views of a list of shapes.
pub open spec fn views(s: Seq<Shape>) -> Seq<ShapeView> {
    s.map_values(|x: Shape| x@)
}

/// The outline of the filled shapes: none, in the background color.
pub open spec fn edge(t: Theme) -> Stroke {
    Stroke { width: 0, color: t.background }
}

impl Gauge {
    /// The angle of the gauge's value.
    pub open spec fn spec_angle(&self) -> int {
        angle_of(self.value as int, self.min_value as int, self.max_value as int)
    }

    /// The track's wedge, from -45 to 225 degrees, fanned from the center.
    pub open spec fn background_layer(&self, t: Theme) -> ShapeView {
        ShapeView::Polygon {
            points: sector_spec(radius_of(self.size as nat), -45, 225, true),
            fill: track_color(t),
            stroke: edge(t),
        }
    }

    /// The value's wedge, from the value's angle, held within the sweep, to 225 degrees.
    pub open spec fn value_arc_layer(&self, t: Theme) -> ShapeView {
        ShapeView::Polygon {
            points: sector_spec(radius_of(self.size as nat), within_sweep(self.spec_angle()), 225, true),
            fill: self.color,
            stroke: edge(t),
        }
    }

    /// The mask that hollows the two wedges out into a ring.
    pub open spec fn center_mask_layer(&self, t: Theme) -> ShapeView {
        ShapeView::Polygon {
            points: sector_spec(
                (radius_of(self.size as nat) - thickness_of(self.size as nat)) as nat,
                -45,
                225,
                false,
            ),
            fill: t.background,
            stroke: edge(t),
        }
    }

    /// The mask that squares off the ring's two open ends.
    pub open spec fn skirt_mask_layer(&self, t: Theme) -> ShapeView {
        let r = radius_of(self.size as nat);
        let inside = r - thickness_of(self.size as nat);
        ShapeView::Polygon {
            points: seq![at(-45, r as int), at(225, r as int), at(225, inside), at(-45, inside)],
            fill: t.background,
            stroke: Stroke { width: 2, color: t.background },
        }
    }

    /// The distance from the center to the middle of the ring.
    pub open spec fn mid_ring(&self) -> int {
        radius_of(self.size as nat) - thickness_of(self.size as nat) / 2
    }

    /// The cap that rounds the ring off at the minimum.
    pub open spec fn start_cap_layer(&self, t: Theme) -> ShapeView {
        ShapeView::Circle {
            center: at(225, self.mid_ring()),
            radius: thickness_of(self.size as nat) / 2,
            fill: self.color,
            stroke: edge(t),
        }
    }

    /// The cap that rounds the ring off at the maximum.
    pub open spec fn end_cap_layer(&self, t: Theme) -> ShapeView {
        ShapeView::Circle {
            center: at(-45, self.mid_ring()),
            radius: thickness_of(self.size as nat) / 2,
            fill: track_color(t),
            stroke: edge(t),
        }
    }

    /// The white dot at the value's angle on the ring.
    pub open spec fn indicator_layer(&self) -> ShapeView {
        ShapeView::Circle {
            center: at(self.spec_angle(), self.mid_ring()),
            radius: thickness_of(self.size as nat) / 2,
            fill: Rgba::spec_white(),
            stroke: Stroke { width: 1, color: self.color },
        }
    }

    /// The value written at the center.
    pub open spec fn center_value_layer(&self, t: Theme) -> ShapeView {
        ShapeView::Number {
            at: Polar::spec_center(),
            value: self.value as int,
            font_size: inner_width_of(self.size as nat) / 5,
            color: t.text,
        }
    }

    /// The label of the tick at `n / 6`, written just outside the ring.
    pub open spec fn tick_label(&self, t: Theme, n: int) -> ShapeView {
        ShapeView::Number {
            at: at(
                angle_of_sixths(n, self.min_value as int, self.max_value as int),
                (radius_of(self.size as nat) + thickness_of(self.size as nat)) as int,
            ),
            value: trunc_div(n, 6),
            font_size: inner_width_of(self.size as nat) / 15,
            color: t.text,
        }
    }

    /// The labels of all ticks, from the minimum to the maximum.
    pub open spec fn tick_layers(&self, t: Theme) -> Seq<ShapeView> {
        tick_sixths(self.min_value as int, self.max_value as int).map_values(
            |n: int| self.tick_label(t, n),
        )
    }

    /// The caption under the center value.
    pub open spec fn caption_layer(&self, t: Theme) -> ShapeView {
        let inner = inner_width_of(self.size as nat);
        ShapeView::Caption {
            text: self.text@,
            below_center: inner / 5,
            font_size: inner / 10,
            wrap_width: inner * 2 / 3,
            color: t.text,
            background: t.background,
        }
    }

    /// Every shape of the gauge, back to front: the track, the value arc, the two
    /// masks, the end caps, the indicator, the center value, the tick labels, and
    /// the caption where there is one.
    pub open spec fn layers(&self, t: Theme) -> Seq<ShapeView> {
        let fixed = seq![
            self.background_layer(t),
            self.value_arc_layer(t),
            self.center_mask_layer(t),
            self.skirt_mask_layer(t),
            self.start_cap_layer(t),
            self.end_cap_layer(t),
            self.indicator_layer(),
            self.center_value_layer(t),
        ];
        let caption = if self.text@.len() == 0 {
            Seq::<ShapeView>::empty()
        } else {
            seq![self.caption_layer(t)]
        };
        fixed + self.tick_layers(t) + caption
    }
}

} // verus!

verus! {

/// Relies on `RangeInclusive::into_inner`: the bounds that the range was made with.
#[verifier::external_body]
fn range_bounds(range: RangeInclusive<i64>) -> (b: (i64, i64))
    requires
        !range@.exhausted,
    ensures
        b.0 == range@.start,
        b.1 == range@.end,
{
    range.into_inner()
}

impl Gauge {
    /// A gauge that shows `value` on a dial over `range`, `size` units wide and
    /// high, with its value arc in `color` and no caption.
    pub fn new(value: i64, range: RangeInclusive<i64>, size: u32, color: Rgba) -> (g: Gauge)
        requires
            !range@.exhausted,
        ensures
            g.value == value,
            g.min_value == range@.start,
            g.max_value == range@.end,
            g.size == size,
            g.color == color,
            g.text@.len() == 0,
    {
        let (min_value, max_value) = range_bounds(range);
        Gauge { value, min_value, max_value, size, color, text: String::new() }
    }

    /// The gauge with `text` as its caption in place of the one it had.
    pub fn text(self, text: &str) -> (g: Gauge)
        ensures
            g.text@ == text@,
            g.value == self.value,
            g.min_value == self.min_value,
            g.max_value == self.max_value,
            g.size == self.size,
            g.color == self.color,
    {
        Gauge { text: text.to_owned(), ..self }
    }

    /// The margin kept around the ring, in subunits.
    pub fn text_clearance(&self) -> (r: u64)
        ensures
            r == clearance_of(self.size as nat),
    {
        SUBUNITS * (self.size as u64) / 10
    }

    /// The width of the dial within its margins, in subunits.
    pub fn inner_width(&self) -> (r: u64)
        ensures
            r == inner_width_of(self.size as nat),
    {
        SUBUNITS * (self.size as u64) - self.text_clearance() * 2
    }

    /// The outer radius of the ring, in subunits.
    pub fn radius(&self) -> (r: u64)
        ensures
            r == radius_of(self.size as nat),
    {
        self.inner_width() / 2
    }

    /// The thickness of the ring, in subunits.
    pub fn thickness(&self) -> (r: u64)
        ensures
            r == thickness_of(self.size as nat),
    {
        self.inner_width() / 15
    }

    /// The angle of `v` on this gauge's dial.
    pub fn value_to_angle(&self, v: i64) -> (a: i32)
        ensures
            a == angle_of(v as int, self.min_value as int, self.max_value as int),
    {
        angle_for(v, self.min_value, self.max_value)
    }

    /// The angle of the gauge's value.
    pub fn angle(&self) -> (a: i32)
        ensures
            a == self.spec_angle(),
    {
        self.value_to_angle(self.value)
    }
}

/// The ring's proportions follow from the size alone and are whole numbers of
/// subunits: the radius is half of the size less a fifth of it, and the ring is
/// two fifteenths of the radius thick.
pub proof fn lemma_proportions(size: nat)
    ensures
        clearance_of(size) == 15 * size,
        inner_width_of(size) == 120 * size,
        radius_of(size) == 60 * size,
        thickness_of(size) == 8 * size,
        2 * radius_of(size) == SUBUNITS * size - SUBUNITS * size / 5,
        15 * thickness_of(size) == 2 * radius_of(size),
{
    assert(SUBUNITS * size / 10 == 15 * size) by (nonlinear_arith);
    assert(SUBUNITS * size / 5 == 30 * size) by (nonlinear_arith);
    assert((120 * size) / 2 == 60 * size) by (nonlinear_arith);
    assert((120 * size) / 15 == 8 * size) by (nonlinear_arith);
}

} // verus!

verus! {

fn track(t: &Theme) -> (c: Rgba)
    ensures
        c == track_color(*t),
{
    if t.dark_mode {
        Rgba::white()
    } else {
        Rgba::gray()
    }
}

fn edge_stroke(t: &Theme) -> (s: Stroke)
    ensures
        s == edge(*t),
{
    Stroke { width: 0, color: t.background }
}

fn push_shape(out: &mut Vec<Shape>, s: Shape)
    ensures
        views(final(out)@) == views(old(out)@).push(s@),
{
    out.push(s);
    assert(views(out@) =~= views(old(out)@).push(s@));
}

impl Gauge {
    fn paint_background_circle(&self, out: &mut Vec<Shape>, t: &Theme)
        ensures
            views(final(out)@) == views(old(out)@).push(self.background_layer(*t)),
    {
        let points = sector_points(self.radius(), -45, 225, true);
        push_shape(out, Shape::Polygon { points, fill: track(t), stroke: edge_stroke(t) });
    }

    fn paint_colored_circle(&self, out: &mut Vec<Shape>, t: &Theme)
        ensures
            views(final(out)@) == views(old(out)@).push(self.value_arc_layer(*t)),
    {
        let a = self.angle();
        let from: i32 = if a < -45 {
            -45
        } else if a > 225 {
            225
        } else {
            a
        };
        let points = sector_points(self.radius(), from, 225, true);
        push_shape(out, Shape::Polygon { points, fill: self.color, stroke: edge_stroke(t) });
    }

    fn paint_center_mask(&self, out: &mut Vec<Shape>, t: &Theme)
        ensures
            views(final(out)@) == views(old(out)@).push(self.center_mask_layer(*t)),
    {
        proof {
            lemma_proportions(self.size as nat);
        }
        let points = sector_points(self.radius() - self.thickness(), -45, 225, false);
        push_shape(out, Shape::Polygon { points, fill: t.background, stroke: edge_stroke(t) });
    }

    fn paint_skirt_mask(&self, out: &mut Vec<Shape>, t: &Theme)
        ensures
            views(final(out)@) == views(old(out)@).push(self.skirt_mask_layer(*t)),
    {
        proof {
            lemma_proportions(self.size as nat);
        }
        let r = self.radius();
        let inside = r - self.thickness();
        let points = vec![
            Polar { degrees: -45, distance: r },
            Polar { degrees: 225, distance: r },
            Polar { degrees: 225, distance: inside },
            Polar { degrees: -45, distance: inside },
        ];
        let ghost expected = seq![at(-45, r as int), at(225, r as int), at(225, inside as int), at(-45, inside as int)];
        assert(points@ =~= expected);
        push_shape(
            out,
            Shape::Polygon {
                points,
                fill: t.background,
                stroke: Stroke { width: 2, color: t.background },
            },
        );
    }

    fn mid_ring_exec(&self) -> (d: u64)
        ensures
            d == self.mid_ring(),
    {
        proof {
            lemma_proportions(self.size as nat);
        }
        self.radius() - self.thickness() / 2
    }

    fn paint_end_caps(&self, out: &mut Vec<Shape>, t: &Theme)
        ensures
            views(final(out)@) == views(old(out)@).push(self.start_cap_layer(*t)).push(
                self.end_cap_layer(*t),
            ),
    {
        let mid = self.mid_ring_exec();
        let r = self.thickness() / 2;
        push_shape(
            out,
            Shape::Circle {
                center: Polar { degrees: 225, distance: mid },
                radius: r,
                fill: self.color,
                stroke: edge_stroke(t),
            },
        );
        push_shape(
            out,
            Shape::Circle {
                center: Polar { degrees: -45, distance: mid },
                radius: r,
                fill: track(t),
                stroke: edge_stroke(t),
            },
        );
    }

    fn paint_value_circle(&self, out: &mut Vec<Shape>)
        ensures
            views(final(out)@) == views(old(out)@).push(self.indicator_layer()),
    {
        push_shape(
            out,
            Shape::Circle {
                center: Polar { degrees: self.angle(), distance: self.mid_ring_exec() },
                radius: self.thickness() / 2,
                fill: Rgba::white(),
                stroke: Stroke { width: 1, color: self.color },
            },
        );
    }

    fn write_center_value(&self, out: &mut Vec<Shape>, t: &Theme)
        ensures
            views(final(out)@) == views(old(out)@).push(self.center_value_layer(*t)),
    {
        push_shape(
            out,
            Shape::Number {
                at: Polar::center(),
                value: self.value,
                font_size: self.inner_width() / 5,
                color: t.text,
            },
        );
    }

    fn write_values_around_circle(&self, out: &mut Vec<Shape>, t: &Theme)
        ensures
            views(final(out)@) == views(old(out)@) + self.tick_layers(*t),
    {
        proof {
            lemma_proportions(self.size as nat);
        }
        let ghost pre = views(out@);
        let ghost s = tick_sixths(self.min_value as int, self.max_value as int);
        let ts = ticks(self.min_value, self.max_value);
        let distance = self.radius() + self.thickness();
        let font_size = self.inner_width() / 15;
        let mut i: usize = 0;
        while i < ts.len()
            invariant
                s == tick_sixths(self.min_value as int, self.max_value as int),
                ts@.len() == s.len(),
                forall|j: int|
                    0 <= j < ts@.len() ==> ts@[j] == crate::dial::tick_at(
                        #[trigger] s[j],
                        self.min_value as int,
                        self.max_value as int,
                    ),
                distance == radius_of(self.size as nat) + thickness_of(self.size as nat),
                font_size == inner_width_of(self.size as nat) / 15,
                i <= ts@.len(),
                views(out@) == pre + self.tick_layers(*t).take(i as int),
            decreases ts@.len() - i,
        {
            let tick = ts[i];
            proof {
                crate::dial::lemma_tick_label_bounds(self.min_value, self.max_value, i as int);
                assert(ts@[i as int] == crate::dial::tick_at(s[i as int], self.min_value as int, self.max_value as int));
            }
            push_shape(
                out,
                Shape::Number {
                    at: Polar { degrees: tick.angle, distance },
                    value: tick.label,
                    font_size,
                    color: t.text,
                },
            );
            assert(self.tick_layers(*t).take(i + 1) =~= self.tick_layers(*t).take(i as int).push(
                self.tick_label(*t, s[i as int]),
            ));
            i = i + 1;
        }
        assert(self.tick_layers(*t).take(i as int) =~= self.tick_layers(*t));
    }

    fn write_text(&self, out: &mut Vec<Shape>, t: &Theme)
        ensures
            views(final(out)@) == views(old(out)@).push(self.caption_layer(*t)),
    {
        proof {
            lemma_proportions(self.size as nat);
        }
        let inner = self.inner_width();
        push_shape(
            out,
            Shape::Caption {
                text: self.text.clone(),
                below_center: inner / 5,
                font_size: inner / 10,
                wrap_width: inner * 2 / 3,
                color: t.text,
                background: t.background,
            },
        );
    }

    /// Every shape that draws the gauge, back to front (see `layers`).
    pub fn shapes(&self, theme: &Theme) -> (r: Vec<Shape>)
        ensures
            views(r@) == self.layers(*theme),
    {
        let mut out: Vec<Shape> = Vec::new();
        assert(views(out@) =~= Seq::<ShapeView>::empty());
        self.paint_background_circle(&mut out, theme);
        self.paint_colored_circle(&mut out, theme);
        self.paint_center_mask(&mut out, theme);
        self.paint_skirt_mask(&mut out, theme);
        self.paint_end_caps(&mut out, theme);
        self.paint_value_circle(&mut out);
        self.write_center_value(&mut out, theme);
        self.write_values_around_circle(&mut out, theme);
        if !self.text.as_str().is_empty() {
            self.write_text(&mut out, theme);
        }
        let ghost fixed = seq![
            self.background_layer(*theme),
            self.value_arc_layer(*theme),
            self.center_mask_layer(*theme),
            self.skirt_mask_layer(*theme),
            self.start_cap_layer(*theme),
            self.end_cap_layer(*theme),
            self.indicator_layer(),
            self.center_value_layer(*theme),
        ];
        assert(views(out@) =~= self.layers(*theme));
        out
    }
}

} // verus!

verus! {

/// Drawing depends on the gauge and the theme alone: two gauges that agree in
/// every field, drawn with the same theme, give the same shapes.
pub proof fn lemma_drawing_deterministic(g1: &Gauge, g2: &Gauge, t: Theme)
    requires
        g1.value == g2.value,
        g1.min_value == g2.min_value,
        g1.max_value == g2.max_value,
        g1.size == g2.size,
        g1.color == g2.color,
        g1.text@ == g2.text@,
    ensures
        g1.layers(t) == g2.layers(t),
{
    assert(g1.tick_layers(t) =~= g2.tick_layers(t));
    assert(g1.layers(t) =~= g2.layers(t));
}

/// A caption is drawn exactly when the gauge has one, and then last; without one
/// the only text is the center value and the tick labels.
pub proof fn lemma_caption_only_when_given(g: &Gauge, t: Theme)
    ensures
        ({
            let l = g.layers(t);
            let n = 8 + g.tick_layers(t).len() as int;
            &&& g.text@.len() == 0 ==> l.len() == n
            &&& g.text@.len() != 0 ==> l.len() == n + 1 && l[n] == g.caption_layer(t)
            &&& forall|i: int| 0 <= i < n ==> !(#[trigger] l[i] is Caption)
        }),
{
    let l = g.layers(t);
    let n = 8 + g.tick_layers(t).len() as int;
    assert forall|i: int| 0 <= i < n implies !(#[trigger] l[i] is Caption) by {
        if i >= 8 {
            assert(l[i] == g.tick_layers(t)[i - 8]);
        }
    }
}

} // verus!
