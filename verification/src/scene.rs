//! Scene assembly: one frame's drawable primitives.
//!
//! Generators emit bare points; this stage pairs them with their entity's
//! draw style into an ordered list of primitives, and on the final frame
//! lays out the provenance watermark band. A frame is valid for exactly
//! one render call and is rebuilt from scratch each iteration.

use vstd::prelude::*;

verus! {

use vstd::string::StringExecFns;
use crate::fixed::{Vec2, COORD_LIMIT};
use crate::config::{Color, SpinnerDrawingConfig};

/// What shape a primitive draws.
#[derive(Clone, Copy, PartialEq, Eq, Structural, Debug)]
pub enum ShapeKind {
    Ellipse,
}

/// One drawable primitive: shape kind, position, size and color.
#[derive(Clone, Copy, PartialEq, Eq, Structural, Debug)]
pub struct Primitive {
    pub kind: ShapeKind,
    pub x: i64,
    pub y: i64,
    pub w: i64,
    pub h: i64,
    pub color: Color,
}

/// A block of watermark text with its layout box.
pub struct TextBlock {
    pub content: String,
    pub x: i64,
    pub y: i64,
    pub w: i64,
    pub h: i64,
    pub font_size: i64,
    pub color: Color,
}

/// The drawables of one iteration, in draw order.
pub struct Frame {
    pub background: Option<Color>,
    pub primitives: Vec<Primitive>,
    pub texts: Vec<TextBlock>,
}

/// The dot a generator point is drawn as: an ellipse of the style's
/// point weight, in the style's color.
pub open spec fn point_primitive(p: Vec2, o: SpinnerDrawingConfig) -> Primitive {
    Primitive {
        kind: ShapeKind::Ellipse,
        x: p.x,
        y: p.y,
        w: o.point_weight,
        h: o.point_weight,
        color: o.color,
    }
}

impl Frame {
    /// An empty frame with no background clear.
    pub fn new() -> (r: Frame)
        ensures
            r.background is None,
            r.primitives@ == Seq::<Primitive>::empty(),
            r.texts@.len() == 0,
    {
        Frame { background: None, primitives: Vec::new(), texts: Vec::new() }
    }

    /// Appends one generator point as a dot of the given style.
    pub fn draw_point(&mut self, point: &Vec2, options: &SpinnerDrawingConfig)
        ensures
            final(self).background == old(self).background,
            final(self).texts == old(self).texts,
            final(self).primitives@ == old(self).primitives@.push(
                point_primitive(*point, *options),
            ),
    {
        self.primitives.push(
            Primitive {
                kind: ShapeKind::Ellipse,
                x: point.x,
                y: point.y,
                w: options.point_weight,
                h: options.point_weight,
                color: options.color,
            },
        );
    }

    /// Appends every point of one generator's frame output, in order,
    /// each as a dot of that generator's style.
    pub fn draw_points(&mut self, points: &Vec<Vec2>, options: &SpinnerDrawingConfig)
        ensures
            final(self).background == old(self).background,
            final(self).texts == old(self).texts,
            final(self).primitives@ == old(self).primitives@ + points@.map_values(
                |p: Vec2| point_primitive(p, *options),
            ),
    {
        let ghost base = self.primitives@;
        let mut i: usize = 0;
        while i < points.len()
            invariant
                i <= points@.len(),
                self.background == old(self).background,
                self.texts == old(self).texts,
                self.primitives@ =~= base + points@.take(i as int).map_values(
                    |p: Vec2| point_primitive(p, *options),
                ),
            decreases points@.len() - i,
        {
            self.draw_point(&points[i], options);
            proof {
                assert(points@.take(i + 1) =~= points@.take(i as int).push(points@[i as int]));
            }
            i = i + 1;
        }
        proof {
            assert(points@.take(points@.len() as int) =~= points@);
        }
    }
}

/// The watermark band: a strip one twentieth of the surface tall,
/// hugging the bottom edge, spanning the full width. The band is given
/// as center and size, like every layout box here.
pub open spec fn signature_band(width: int, height: int) -> (int, int, int, int) {
    let h = height * 5 / 100;
    (0, -(height / 2) + h / 2, width, h)
}

/// The brand box: a tenth of the band wide, half of it tall, aligned to
/// the band's right and bottom edges.
pub open spec fn brand_box(width: int, height: int) -> (int, int, int, int) {
    let band = signature_band(width, height);
    let w = band.2 * 10 / 100;
    let h = band.3 * 50 / 100;
    (band.0 + band.2 / 2 - w / 2, band.1 - band.3 / 2 + h / 2, w, h)
}

/// The title box: half the band wide and half of it tall, centered just
/// above the band.
pub open spec fn title_box(width: int, height: int) -> (int, int, int, int) {
    let band = signature_band(width, height);
    let w = band.2 * 50 / 100;
    let h = band.3 * 50 / 100;
    (band.0, band.1 + band.3 / 2 + h / 2, w, h)
}

/// Lays the provenance watermark into the frame: the title text on the
/// bottom edge of the title box at a quarter of its height, and the
/// brand name on the top edge of the brand box at a third of its height.
pub fn draw_signature(frame: &mut Frame, width: i64, height: i64, title: String, color: Color)
    requires
        0 <= width <= COORD_LIMIT,
        0 <= height <= COORD_LIMIT,
    ensures
        final(frame).background == old(frame).background,
        final(frame).primitives == old(frame).primitives,
        final(frame).texts@.len() == old(frame).texts@.len() + 2,
        ({
            let t = final(frame).texts@[old(frame).texts@.len() as int];
            let tb = title_box(width as int, height as int);
            &&& t.content@ == title@
            &&& t.x == tb.0
            &&& t.y == tb.1 - tb.3 / 2
            &&& t.w == tb.2
            &&& t.h == tb.3
            &&& t.font_size == tb.3 / 4
            &&& t.color == color
        }),
        ({
            let t = final(frame).texts@[old(frame).texts@.len() as int + 1];
            let bb = brand_box(width as int, height as int);
            &&& t.content@ == "Nadou"@
            &&& t.x == bb.0
            &&& t.y == bb.1 + bb.3 / 2
            &&& t.w == bb.2
            &&& t.h == bb.3
            &&& t.font_size == bb.3 / 3
            &&& t.color == color
        }),
{
    let band_h: i64 = height * 5 / 100;
    let band_y: i64 = -(height / 2) + band_h / 2;
    let band_w: i64 = width;
    let title_w: i64 = band_w * 50 / 100;
    let title_h: i64 = band_h * 50 / 100;
    let title_y: i64 = band_y + band_h / 2 + title_h / 2;
    frame.texts.push(
        TextBlock {
            content: title,
            x: 0,
            y: title_y - title_h / 2,
            w: title_w,
            h: title_h,
            font_size: title_h / 4,
            color,
        },
    );
    let brand_w: i64 = band_w * 10 / 100;
    let brand_h: i64 = band_h * 50 / 100;
    let brand_x: i64 = band_w / 2 - brand_w / 2;
    let brand_y: i64 = band_y - band_h / 2 + brand_h / 2;
    let brand = String::from_str("Nadou");
    frame.texts.push(
        TextBlock {
            content: brand,
            x: brand_x,
            y: brand_y + brand_h / 2,
            w: brand_w,
            h: brand_h,
            font_size: brand_h / 3,
            color,
        },
    );
}

} // verus!
