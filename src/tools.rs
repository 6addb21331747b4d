//! Annotation strokes, the tool state that builds them, and the drawing
//! operations that render them.
use crate::geometry::{Point, SUBPIXELS, floor_sqrt, isqrt};
use vstd::prelude::*;

verus! {

/// The kind of mark a stroke makes.
#[derive(Clone, Copy, PartialEq, Eq, Structural, Debug)]
pub enum ToolType {
    /// A freehand line through every point.
    Pencil,
    /// A straight segment from the first point to the last.
    Line,
    /// A straight segment with an arrowhead at the last point.
    Arrow,
    /// A translucent freehand band.
    Highlighter,
}

/// A colour with straight (not premultiplied) 8-bit channels.
#[derive(Clone, Copy, PartialEq, Eq, Structural, Debug)]
pub struct Rgba {
    pub red: u8,
    pub green: u8,
    pub blue: u8,
    pub alpha: u8,
}

impl Rgba {
    pub fn new(red: u8, green: u8, blue: u8, alpha: u8) -> (r: Rgba)
        ensures
            r == (Rgba { red, green, blue, alpha }),
    {
        Rgba { red, green, blue, alpha }
    }
}

/// Opacity of a highlighter stroke: 30 % of full, whatever its colour's alpha.
pub const HIGHLIGHTER_ALPHA: u8 = 77;

/// cos 30 degrees in units of 1/65536 (0.8660125 for 0.8660254), rounded down
/// so that cos^2 + sin^2 stays at most one and a wing is never longer than
/// its arm length.
pub const ARROW_COS: i128 = 56755;

/// sin 30 degrees in units of 1/65536.
pub const ARROW_SIN: i128 = 32768;

/// One drawing-context operation; a stroke renders as a list of them.
#[derive(Clone, Copy, PartialEq, Eq, Structural, Debug)]
pub enum DrawOp {
    /// Save the context state.
    Save,
    /// Restore the last saved context state.
    Restore,
    /// Paint with this colour.
    SetColor(Rgba),
    /// Stroke with this line width, in whole pixels.
    SetLineWidth(u32),
    /// Round line caps.
    RoundCap,
    /// Round line joins.
    RoundJoin,
    /// Begin a new sub-path at (x, y), in 1/256-pixel units.
    MoveTo(i64, i64),
    /// Extend the current path to (x, y), in 1/256-pixel units.
    LineTo(i64, i64),
    /// Stroke the current path and clear it.
    Stroke,
}

/// One continuous annotation mark.
pub struct DrawingStroke {
    pub tool_type: ToolType,
    pub points: Vec<Point>,
    pub color: Rgba,
    pub thickness: u32,
    pub finished: bool,
}

/// The line width a tool starts with when selected.
pub open spec fn default_thickness(tool: ToolType) -> u32 {
    match tool {
        ToolType::Pencil => 3,
        ToolType::Line => 2,
        ToolType::Arrow => 2,
        ToolType::Highlighter => 8,
    }
}

pub open spec fn move_to(p: Point) -> DrawOp {
    DrawOp::MoveTo(p.x as i64, p.y as i64)
}

pub open spec fn line_to(p: Point) -> DrawOp {
    DrawOp::LineTo(p.x as i64, p.y as i64)
}

/// A stroked path through all of `points`, in order.
pub open spec fn polyline_ops(points: Seq<Point>) -> Seq<DrawOp> {
    seq![move_to(points[0])] + Seq::new(
        (points.len() - 1) as nat,
        |i: int| line_to(points[i + 1]),
    ) + seq![DrawOp::Stroke]
}

/// A stroked segment from `a` to `b` with round caps.
pub open spec fn segment_ops(thickness: u32, a: Point, b: Point) -> Seq<DrawOp> {
    seq![DrawOp::SetLineWidth(thickness), DrawOp::RoundCap, move_to(a), line_to(b), DrawOp::Stroke]
}

/// `n / d` rounded toward zero.
pub open spec fn trunc_div(n: int, d: int) -> int {
    if n >= 0 {
        n / d
    } else {
        -((-n) / d)
    }
}

/// Length of the direction (`dx`, `dy`) in units of 1/65536, rounded down.
pub open spec fn scaled_length(dx: int, dy: int) -> int {
    floor_sqrt((dx * dx + dy * dy) * 0x100000000)
}

/// End of an arrowhead wing: from `tip`, `length` back along the direction
/// (`dx`, `dy`) turned by 30 degrees (`side` 1 one way, -1 the other), with
/// coordinates rounded toward the tip.
pub open spec fn wing(tip: Point, dx: int, dy: int, length: int, side: int) -> (int, int) {
    let len = scaled_length(dx, dy);
    (
        tip.x - trunc_div(length * (dx * ARROW_COS - side * dy * ARROW_SIN), len),
        tip.y - trunc_div(length * (side * dx * ARROW_SIN + dy * ARROW_COS), len),
    )
}

/// The two wings of an arrowhead at `end`, each three times the line width
/// (in pixels, so `3 * thickness * SUBPIXELS` units) long; none when the arrow
/// has no direction.
pub open spec fn arrowhead_ops(thickness: u32, start: Point, end: Point) -> Seq<DrawOp> {
    if start == end {
        seq![]
    } else {
        let dx = end.x - start.x;
        let dy = end.y - start.y;
        let (x1, y1) = wing(end, dx, dy, 3 * thickness * SUBPIXELS, 1);
        let (x2, y2) = wing(end, dx, dy, 3 * thickness * SUBPIXELS, -1);
        seq![
            move_to(end),
            DrawOp::LineTo(x1 as i64, y1 as i64),
            move_to(end),
            DrawOp::LineTo(x2 as i64, y2 as i64),
            DrawOp::Stroke,
        ]
    }
}

/// The operations particular to the stroke's tool.
pub open spec fn tool_ops(s: DrawingStroke) -> Seq<DrawOp> {
    let pts = s.points@;
    match s.tool_type {
        ToolType::Pencil | ToolType::Highlighter => seq![
            DrawOp::SetLineWidth(s.thickness),
            DrawOp::RoundCap,
            DrawOp::RoundJoin,
        ] + polyline_ops(pts),
        ToolType::Line => if pts.len() >= 2 {
            segment_ops(s.thickness, pts[0], pts.last())
        } else {
            seq![]
        },
        ToolType::Arrow => if pts.len() >= 2 {
            segment_ops(s.thickness, pts[0], pts.last()) + arrowhead_ops(
                s.thickness,
                pts[0],
                pts.last(),
            )
        } else {
            seq![]
        },
    }
}

/// The colour a stroke is painted with: its own, at `HIGHLIGHTER_ALPHA` for a
/// highlighter.
pub open spec fn paint_color(s: DrawingStroke) -> Rgba {
    if s.tool_type == ToolType::Highlighter {
        Rgba { alpha: HIGHLIGHTER_ALPHA, ..s.color }
    } else {
        s.color
    }
}

/// How a stroke renders: nothing without points; otherwise its tool's
/// operations between a save and a restore of the context, so that the colour,
/// width and caps it sets do not reach later strokes.
pub open spec fn stroke_ops(s: DrawingStroke) -> Seq<DrawOp> {
    if s.points@.len() == 0 {
        seq![]
    } else {
        seq![DrawOp::Save, DrawOp::SetColor(paint_color(s))] + tool_ops(s) + seq![DrawOp::Restore]
    }
}

/// How a sequence of strokes renders: each in turn, later ones on top.
pub open spec fn strokes_ops(strokes: Seq<DrawingStroke>) -> Seq<DrawOp>
    decreases strokes.len(),
{
    if strokes.len() == 0 {
        seq![]
    } else {
        strokes_ops(strokes.drop_last()) + stroke_ops(strokes.last())
    }
}

fn tool_default_thickness(tool: ToolType) -> (r: u32)
    ensures
        r == default_thickness(tool),
{
    match tool {
        ToolType::Pencil => 3,
        ToolType::Line => 2,
        ToolType::Arrow => 2,
        ToolType::Highlighter => 8,
    }
}

#[verifier::spinoff_prover]
fn trunc_div_exec(n: i128, d: i128) -> (r: i128)
    requires
        d > 0,
        -0x1000000000000000000000000 < n < 0x1000000000000000000000000,
    ensures
        r == trunc_div(n as int, d as int),
{
    if n >= 0 {
        n / d
    } else {
        -((-n) / d)
    }
}

#[verifier::spinoff_prover]
proof fn lemma_wing_bound(dx: int, dy: int, side: int, len: int)
    requires
        side == 1 || side == -1,
        len >= 0,
        (dx * dx + dy * dy) * 0x100000000 < (len + 1) * (len + 1),
    ensures
        -len <= dx * ARROW_COS - side * dy * ARROW_SIN <= len,
        -len <= side * dx * ARROW_SIN + dy * ARROW_COS <= len,
{
    let a = dx * ARROW_COS - side * dy * ARROW_SIN;
    let b = side * dx * ARROW_SIN + dy * ARROW_COS;
    assert(a * a + b * b == (dx * dx + dy * dy) * (ARROW_COS * ARROW_COS + ARROW_SIN
        * ARROW_SIN)) by (nonlinear_arith)
        requires
            side * side == 1,
            a == dx * ARROW_COS - side * dy * ARROW_SIN,
            b == side * dx * ARROW_SIN + dy * ARROW_COS,
    ;
    assert(ARROW_COS * ARROW_COS + ARROW_SIN * ARROW_SIN <= 0x100000000);
    assert(0 <= dx * dx + dy * dy) by (nonlinear_arith);
    assert((dx * dx + dy * dy) * (ARROW_COS * ARROW_COS + ARROW_SIN * ARROW_SIN) <= (dx * dx + dy
        * dy) * 0x100000000) by (nonlinear_arith)
        requires
            0 <= dx * dx + dy * dy,
            ARROW_COS * ARROW_COS + ARROW_SIN * ARROW_SIN <= 0x100000000,
    ;
    assert(0 <= b * b) by (nonlinear_arith);
    assert(0 <= a * a) by (nonlinear_arith);
    assert(-len <= a <= len) by (nonlinear_arith)
        requires
            a * a < (len + 1) * (len + 1),
            len >= 0,
    ;
    assert(-len <= b <= len) by (nonlinear_arith)
        requires
            b * b < (len + 1) * (len + 1),
            len >= 0,
    ;
}

#[verifier::spinoff_prover]
proof fn lemma_scaled_quotient(length: int, a: int, len: int)
    requires
        length >= 0,
        len > 0,
        -len <= a <= len,
    ensures
        -length <= trunc_div(length * a, len) <= length,
{
    if a >= 0 {
        assert(0 <= length * a <= length * len) by (nonlinear_arith)
            requires
                length >= 0,
                0 <= a <= len,
        ;
        assert((length * a) / len <= length) by (nonlinear_arith)
            requires
                0 <= length * a <= length * len,
                len > 0,
        ;
        assert(0 <= (length * a) / len) by (nonlinear_arith)
            requires
                0 <= length * a,
                len > 0,
        ;
    } else {
        assert(0 < -(length * a) <= length * len || length * a == 0) by (nonlinear_arith)
            requires
                length >= 0,
                -len <= a < 0,
        ;
        assert((-(length * a)) / len <= length) by (nonlinear_arith)
            requires
                0 <= -(length * a) <= length * len,
                len > 0,
        ;
        assert(0 <= (-(length * a)) / len) by (nonlinear_arith)
            requires
                0 <= -(length * a),
                len > 0,
        ;
    }
}

/// Computes `wing(tip, dx, dy, length, side)`.
#[verifier::spinoff_prover]
fn wing_point(tip: Point, dx: i64, dy: i64, length: i64, side: i64) -> (r: (i64, i64))
    requires
        side == 1 || side == -1,
        dx != 0 || dy != 0,
        -0x100000000 < dx < 0x100000000,
        -0x100000000 < dy < 0x100000000,
        0 <= length <= 0x30000000000,
    ensures
        r.0 as int == wing(tip, dx as int, dy as int, length as int, side as int).0,
        r.1 as int == wing(tip, dx as int, dy as int, length as int, side as int).1,
{
    let dx = dx as i128;
    let dy = dy as i128;
    let side = side as i128;
    let length = length as i128;
    assert(0 < dx * dx + dy * dy <= 0x20000000000000000) by (nonlinear_arith)
        requires
            dx != 0 || dy != 0,
            -0x100000000 < dx < 0x100000000,
            -0x100000000 < dy < 0x100000000,
    ;
    assert(0 <= dx * dx <= 0x10000000000000000) by (nonlinear_arith)
        requires
            -0x100000000 < dx < 0x100000000,
    ;
    assert(0 <= dy * dy <= 0x10000000000000000) by (nonlinear_arith)
        requires
            -0x100000000 < dy < 0x100000000,
    ;
    let n = ((dx * dx + dy * dy) * 0x100000000) as u128;
    let len = isqrt(n) as i128;
    assert(len > 0) by (nonlinear_arith)
        requires
            n >= 0x100000000,
            n < (len + 1) * (len + 1),
            len >= 0,
    ;
    proof {
        lemma_wing_bound(dx as int, dy as int, side as int, len as int);
    }
    let a = dx * ARROW_COS - side * dy * ARROW_SIN;
    let b = side * dx * ARROW_SIN + dy * ARROW_COS;
    assert(-0x1000000000000000000000000 < length * a < 0x1000000000000000000000000) by (
    nonlinear_arith)
        requires
            0 <= length <= 0x30000000000,
            -0x4000000000000 <= a <= 0x4000000000000,
    ;
    assert(-0x1000000000000000000000000 < length * b < 0x1000000000000000000000000) by (
    nonlinear_arith)
        requires
            0 <= length <= 0x30000000000,
            -0x4000000000000 <= b <= 0x4000000000000,
    ;
    let qa = trunc_div_exec(length * a, len);
    let qb = trunc_div_exec(length * b, len);
    proof {
        lemma_scaled_quotient(length as int, a as int, len as int);
        lemma_scaled_quotient(length as int, b as int, len as int);
    }
    ((tip.x as i128 - qa) as i64, (tip.y as i128 - qb) as i64)
}

proof fn lemma_strokes_ops_push(strokes: Seq<DrawingStroke>, s: DrawingStroke)
    ensures
        strokes_ops(strokes.push(s)) == strokes_ops(strokes) + stroke_ops(s),
{
    assert(strokes.push(s).drop_last() =~= strokes);
}

impl DrawingStroke {
    /// An empty, unfinished stroke.
    pub fn new(tool_type: ToolType, color: Rgba, thickness: u32) -> (r: DrawingStroke)
        ensures
            r.tool_type == tool_type,
            r.color == color,
            r.thickness == thickness,
            r.points@ == Seq::<Point>::empty(),
            !r.finished,
    {
        DrawingStroke { tool_type, points: Vec::new(), color, thickness, finished: false }
    }

    /// Appends `point`; a finished stroke stays as it is.
    pub fn add_point(&mut self, point: Point)
        ensures
            final(self).tool_type == old(self).tool_type,
            final(self).color == old(self).color,
            final(self).thickness == old(self).thickness,
            final(self).finished == old(self).finished,
            final(self).points@ == if old(self).finished {
                old(self).points@
            } else {
                old(self).points@.push(point)
            },
    {
        if !self.finished {
            self.points.push(point);
        }
    }

    /// Marks the stroke finished; its points are fixed from then on.
    pub fn finish(&mut self)
        ensures
            final(self).finished,
            final(self).tool_type == old(self).tool_type,
            final(self).color == old(self).color,
            final(self).thickness == old(self).thickness,
            final(self).points@ == old(self).points@,
    {
        self.finished = true;
    }

    /// Appends the operations that render this stroke to `ops`.
    #[verifier::spinoff_prover]
    pub fn draw(&self, ops: &mut Vec<DrawOp>)
        ensures
            final(ops)@ == old(ops)@ + stroke_ops(*self),
    {
        let n = self.points.len();
        if n == 0 {
            assert(old(ops)@ + stroke_ops(*self) =~= old(ops)@);
            return ;
        }
        let ghost start = ops@;
        let color = if self.tool_type == ToolType::Highlighter {
            Rgba { alpha: HIGHLIGHTER_ALPHA, ..self.color }
        } else {
            self.color
        };
        ops.push(DrawOp::Save);
        ops.push(DrawOp::SetColor(color));
        let ghost head = ops@;
        match self.tool_type {
            ToolType::Pencil | ToolType::Highlighter => {
                ops.push(DrawOp::SetLineWidth(self.thickness));
                ops.push(DrawOp::RoundCap);
                ops.push(DrawOp::RoundJoin);
                self.draw_polyline(ops);
            },
            ToolType::Line => {
                if n >= 2 {
                    self.draw_segment(ops);
                }
            },
            ToolType::Arrow => {
                if n >= 2 {
                    self.draw_segment(ops);
                    self.draw_arrowhead(ops);
                }
            },
        }
        assert(ops@ =~= head + tool_ops(*self));
        ops.push(DrawOp::Restore);
        assert(ops@ =~= start + stroke_ops(*self));
    }

    #[verifier::spinoff_prover]
    fn draw_polyline(&self, ops: &mut Vec<DrawOp>)
        requires
            self.points@.len() > 0,
        ensures
            final(ops)@ == old(ops)@ + polyline_ops(self.points@),
    {
        let ghost start = ops@;
        let first = self.points[0];
        ops.push(DrawOp::MoveTo(first.x as i64, first.y as i64));
        let mut i: usize = 1;
        while i < self.points.len()
            invariant
                1 <= i <= self.points@.len(),
                ops@ == start + seq![move_to(self.points@[0])] + Seq::new(
                    (i - 1) as nat,
                    |k: int| line_to(self.points@[k + 1]),
                ),
            decreases self.points@.len() - i,
        {
            let p = self.points[i];
            ops.push(DrawOp::LineTo(p.x as i64, p.y as i64));
            proof {
                assert(Seq::new((i - 1) as nat, |k: int| line_to(self.points@[k + 1])).push(
                    line_to(self.points@[i as int]),
                ) =~= Seq::new(i as nat, |k: int| line_to(self.points@[k + 1])));
            }
            i += 1;
        }
        ops.push(DrawOp::Stroke);
        assert(ops@ =~= start + polyline_ops(self.points@));
    }

    fn draw_segment(&self, ops: &mut Vec<DrawOp>)
        requires
            self.points@.len() >= 2,
        ensures
            final(ops)@ == old(ops)@ + segment_ops(
                self.thickness,
                self.points@[0],
                self.points@.last(),
            ),
    {
        let ghost start = ops@;
        let a = self.points[0];
        let b = self.points[self.points.len() - 1];
        ops.push(DrawOp::SetLineWidth(self.thickness));
        ops.push(DrawOp::RoundCap);
        ops.push(DrawOp::MoveTo(a.x as i64, a.y as i64));
        ops.push(DrawOp::LineTo(b.x as i64, b.y as i64));
        ops.push(DrawOp::Stroke);
        assert(ops@ =~= start + segment_ops(self.thickness, self.points@[0], self.points@.last()));
    }

    #[verifier::spinoff_prover]
    fn draw_arrowhead(&self, ops: &mut Vec<DrawOp>)
        requires
            self.points@.len() >= 2,
        ensures
            final(ops)@ == old(ops)@ + arrowhead_ops(
                self.thickness,
                self.points@[0],
                self.points@.last(),
            ),
    {
        let ghost start = ops@;
        let a = self.points[0];
        let b = self.points[self.points.len() - 1];
        if a == b {
            assert(ops@ =~= start + arrowhead_ops(self.thickness, a, b));
            return ;
        }
        let dx = b.x as i64 - a.x as i64;
        let dy = b.y as i64 - a.y as i64;
        let length = 3 * (self.thickness as i64) * (SUBPIXELS as i64);
        let (x1, y1) = wing_point(b, dx, dy, length, 1);
        let (x2, y2) = wing_point(b, dx, dy, length, -1);
        ops.push(DrawOp::MoveTo(b.x as i64, b.y as i64));
        ops.push(DrawOp::LineTo(x1, y1));
        ops.push(DrawOp::MoveTo(b.x as i64, b.y as i64));
        ops.push(DrawOp::LineTo(x2, y2));
        ops.push(DrawOp::Stroke);
        assert(ops@ =~= start + arrowhead_ops(self.thickness, a, b));
    }
}

/// What a stroke holds, as plain values.
pub struct StrokeModel {
    pub tool_type: ToolType,
    pub points: Seq<Point>,
    pub color: Rgba,
    pub thickness: u32,
    pub finished: bool,
}

impl View for DrawingStroke {
    type V = StrokeModel;

    open spec fn view(&self) -> StrokeModel {
        StrokeModel {
            tool_type: self.tool_type,
            points: self.points@,
            color: self.color,
            thickness: self.thickness,
            finished: self.finished,
        }
    }
}

/// The current tool, colour and thickness, the finished strokes in render
/// order, and the stroke being drawn.
pub struct AnnotationTools {
    pub current_tool: ToolType,
    pub current_color: Rgba,
    pub current_thickness: u32,
    pub strokes: Vec<DrawingStroke>,
    pub current_stroke: Option<DrawingStroke>,
}

/// What the tool state holds, as plain values.
pub struct ToolsModel {
    pub tool: ToolType,
    pub color: Rgba,
    pub thickness: u32,
    pub strokes: Seq<StrokeModel>,
    pub current: Option<StrokeModel>,
}

impl View for AnnotationTools {
    type V = ToolsModel;

    open spec fn view(&self) -> ToolsModel {
        ToolsModel {
            tool: self.current_tool,
            color: self.current_color,
            thickness: self.current_thickness,
            strokes: self.strokes@.map_values(|s: DrawingStroke| s@),
            current: match self.current_stroke {
                Some(s) => Some(s@),
                None => None,
            },
        }
    }
}

/// Selecting `tool` also resets the thickness to the tool's default; strokes
/// already made, and the one being drawn, keep theirs.
pub open spec fn after_set_tool(m: ToolsModel, tool: ToolType) -> ToolsModel {
    ToolsModel { tool, thickness: default_thickness(tool), ..m }
}

/// Starting a stroke while none is being drawn begins one with the current
/// tool, colour and thickness at `p`; while one is being drawn it does nothing.
pub open spec fn after_start(m: ToolsModel, p: Point) -> ToolsModel {
    if m.current is None {
        ToolsModel {
            current: Some(
                StrokeModel {
                    tool_type: m.tool,
                    points: seq![p],
                    color: m.color,
                    thickness: m.thickness,
                    finished: false,
                },
            ),
            ..m
        }
    } else {
        m
    }
}

/// Adding a point extends the stroke being drawn, if any.
pub open spec fn after_add_point(m: ToolsModel, p: Point) -> ToolsModel {
    match m.current {
        Some(s) => ToolsModel { current: Some(StrokeModel { points: s.points.push(p), ..s }), ..m },
        None => m,
    }
}

/// Finishing moves the stroke being drawn, marked finished, to the end of the
/// strokes; with none being drawn it does nothing.
pub open spec fn after_finish(m: ToolsModel) -> ToolsModel {
    match m.current {
        Some(s) => ToolsModel {
            strokes: m.strokes.push(StrokeModel { finished: true, ..s }),
            current: None,
            ..m
        },
        None => m,
    }
}

/// Cancelling drops the stroke being drawn.
pub open spec fn after_cancel(m: ToolsModel) -> ToolsModel {
    ToolsModel { current: None, ..m }
}

/// Clearing drops every stroke.
pub open spec fn after_clear(m: ToolsModel) -> ToolsModel {
    ToolsModel { strokes: Seq::empty(), current: None, ..m }
}

/// The rendering of the finished strokes in order, then of the stroke being
/// drawn.
pub open spec fn tools_ops(t: AnnotationTools) -> Seq<DrawOp> {
    strokes_ops(t.strokes@) + match t.current_stroke {
        Some(s) => stroke_ops(s),
        None => Seq::empty(),
    }
}

/// A stroke that is started, extended and finished adds exactly one stroke
/// and leaves none being drawn.
pub proof fn lemma_finish_adds_one(m: ToolsModel, p: Point, q: Point)
    ensures
        after_finish(after_add_point(after_start(m, p), q)).strokes.len() == m.strokes.len() + 1,
        after_finish(after_add_point(after_start(m, p), q)).current is None,
{
}

/// A stroke that is started while none is being drawn and then cancelled
/// leaves the strokes as they were and none being drawn.
pub proof fn lemma_cancel_keeps_strokes(m: ToolsModel, p: Point)
    ensures
        after_cancel(after_start(m, p)).strokes == m.strokes,
        after_cancel(after_start(m, p)).current is None,
{
}

/// Selecting a tool sets the thickness to that tool's default (8 for the
/// highlighter) whatever it was, and changes no stroke.
pub proof fn lemma_tool_resets_thickness(m: ToolsModel, tool: ToolType)
    ensures
        after_set_tool(m, tool).thickness == default_thickness(tool),
        after_set_tool(m, ToolType::Highlighter).thickness == 8,
        after_set_tool(m, tool).strokes == m.strokes,
        after_set_tool(m, tool).current == m.current,
{
}

/// An arrow whose first and last points coincide renders its (zero-length)
/// shaft and no arrowhead.
pub proof fn lemma_arrow_without_direction(s: DrawingStroke)
    requires
        s.tool_type == ToolType::Arrow,
        s.points@.len() >= 2,
        s.points@[0] == s.points@.last(),
    ensures
        stroke_ops(s) == seq![DrawOp::Save, DrawOp::SetColor(s.color)] + segment_ops(
            s.thickness,
            s.points@[0],
            s.points@[0],
        ) + seq![DrawOp::Restore],
{
    assert(arrowhead_ops(s.thickness, s.points@[0], s.points@.last()) =~= Seq::<DrawOp>::empty());
    assert(tool_ops(s) =~= segment_ops(s.thickness, s.points@[0], s.points@[0]));
}

impl AnnotationTools {
    /// Every stored stroke is finished; the stroke being drawn, if any, is not
    /// and has at least one point.
    pub open spec fn wf(&self) -> bool {
        &&& forall|i: int| 0 <= i < self.strokes@.len() ==> #[trigger] self.strokes@[i].finished
        &&& self.current_stroke matches Some(s) ==> !s.finished && s.points@.len() > 0
    }

    /// Pencil, red, thickness 3, no strokes.
    pub fn new() -> (r: AnnotationTools)
        ensures
            r.wf(),
            r.current_tool == ToolType::Pencil,
            r.current_color == (Rgba { red: 255, green: 0, blue: 0, alpha: 255 }),
            r.current_thickness == 3,
            r.strokes@.len() == 0,
            r.current_stroke is None,
    {
        AnnotationTools {
            current_tool: ToolType::Pencil,
            current_color: Rgba { red: 255, green: 0, blue: 0, alpha: 255 },
            current_thickness: 3,
            strokes: Vec::new(),
            current_stroke: None,
        }
    }

    /// Selects `tool` for the next stroke and resets the thickness to its default.
    pub fn set_tool(&mut self, tool: ToolType)
        requires
            old(self).wf(),
        ensures
            final(self).wf(),
            final(self)@ == after_set_tool(old(self)@, tool),
            final(self).strokes@ == old(self).strokes@,
            final(self).current_stroke == old(self).current_stroke,
    {
        self.current_tool = tool;
        self.current_thickness = tool_default_thickness(tool);
    }

    /// Selects the colour of the next stroke.
    pub fn set_color(&mut self, color: Rgba)
        requires
            old(self).wf(),
        ensures
            final(self).wf(),
            final(self)@ == (ToolsModel { color, ..old(self)@ }),
    {
        self.current_color = color;
    }

    /// Selects the thickness of the next stroke.
    pub fn set_thickness(&mut self, thickness: u32)
        requires
            old(self).wf(),
        ensures
            final(self).wf(),
            final(self)@ == (ToolsModel { thickness, ..old(self)@ }),
    {
        self.current_thickness = thickness;
    }

    /// Begins a stroke at `point` with the current tool, colour and thickness.
    /// While a stroke is being drawn the call is ignored.
    pub fn start_stroke(&mut self, point: Point)
        requires
            old(self).wf(),
        ensures
            final(self).wf(),
            final(self)@ == after_start(old(self)@, point),
    {
        if self.current_stroke.is_some() {
            return ;
        }
        let mut stroke = DrawingStroke::new(
            self.current_tool,
            self.current_color,
            self.current_thickness,
        );
        stroke.add_point(point);
        assert(stroke.points@ =~= seq![point]);
        self.current_stroke = Some(stroke);
    }

    /// Extends the stroke being drawn with `point`; does nothing when idle.
    pub fn add_point_to_stroke(&mut self, point: Point)
        requires
            old(self).wf(),
        ensures
            final(self).wf(),
            final(self)@ == after_add_point(old(self)@, point),
    {
        match self.current_stroke.take() {
            Some(mut stroke) => {
                stroke.add_point(point);
                self.current_stroke = Some(stroke);
            },
            None => {},
        }
    }

    /// Marks the stroke being drawn finished and stores it after the others;
    /// does nothing when idle.
    #[verifier::spinoff_prover]
    pub fn finish_stroke(&mut self)
        requires
            old(self).wf(),
        ensures
            final(self).wf(),
            final(self)@ == after_finish(old(self)@),
    {
        match self.current_stroke.take() {
            Some(mut stroke) => {
                let ghost old_strokes = self.strokes@;
                stroke.finish();
                self.strokes.push(stroke);
                assert(self.strokes@.map_values(|s: DrawingStroke| s@) =~= old_strokes.map_values(
                    |s: DrawingStroke| s@,
                ).push(stroke@));
            },
            None => {},
        }
    }

    /// Drops the stroke being drawn.
    pub fn cancel_stroke(&mut self)
        requires
            old(self).wf(),
        ensures
            final(self).wf(),
            final(self)@ == after_cancel(old(self)@),
    {
        self.current_stroke = None;
    }

    /// Drops every stroke, finished or not, and returns how many finished
    /// strokes there were.
    pub fn clear_all(&mut self) -> (r: usize)
        requires
            old(self).wf(),
        ensures
            final(self).wf(),
            r == old(self).strokes@.len(),
            final(self)@ == after_clear(old(self)@),
    {
        let count = self.strokes.len();
        self.strokes.clear();
        self.current_stroke = None;
        assert(self.strokes@.map_values(|s: DrawingStroke| s@) =~= Seq::<StrokeModel>::empty());
        count
    }

    /// The operations that render every finished stroke in order, then the
    /// stroke being drawn.
    #[verifier::spinoff_prover]
    pub fn draw_all(&self) -> (r: Vec<DrawOp>)
        ensures
            r@ == tools_ops(*self),
    {
        let mut ops: Vec<DrawOp> = Vec::new();
        let mut i: usize = 0;
        while i < self.strokes.len()
            invariant
                i <= self.strokes@.len(),
                ops@ == strokes_ops(self.strokes@.subrange(0, i as int)),
            decreases self.strokes@.len() - i,
        {
            proof {
                lemma_strokes_ops_push(self.strokes@.subrange(0, i as int), self.strokes@[i as int]);
                assert(self.strokes@.subrange(0, i as int).push(self.strokes@[i as int])
                    =~= self.strokes@.subrange(0, i + 1));
            }
            self.strokes[i].draw(&mut ops);
            i += 1;
        }
        assert(self.strokes@.subrange(0, i as int) =~= self.strokes@);
        match &self.current_stroke {
            Some(s) => s.draw(&mut ops),
            None => {
                assert(ops@ + Seq::<DrawOp>::empty() =~= ops@);
            },
        }
        ops
    }

    /// The colours offered for annotations: red, green, blue, yellow, magenta,
    /// cyan, black and white, all opaque.
    pub fn get_predefined_colors() -> (r: Vec<Rgba>)
        ensures
            r@ == seq![
                Rgba { red: 255, green: 0, blue: 0, alpha: 255 },
                Rgba { red: 0, green: 255, blue: 0, alpha: 255 },
                Rgba { red: 0, green: 0, blue: 255, alpha: 255 },
                Rgba { red: 255, green: 255, blue: 0, alpha: 255 },
                Rgba { red: 255, green: 0, blue: 255, alpha: 255 },
                Rgba { red: 0, green: 255, blue: 255, alpha: 255 },
                Rgba { red: 0, green: 0, blue: 0, alpha: 255 },
                Rgba { red: 255, green: 255, blue: 255, alpha: 255 },
            ],
    {
        let r = vec![
            Rgba { red: 255, green: 0, blue: 0, alpha: 255 },
            Rgba { red: 0, green: 255, blue: 0, alpha: 255 },
            Rgba { red: 0, green: 0, blue: 255, alpha: 255 },
            Rgba { red: 255, green: 255, blue: 0, alpha: 255 },
            Rgba { red: 255, green: 0, blue: 255, alpha: 255 },
            Rgba { red: 0, green: 255, blue: 255, alpha: 255 },
            Rgba { red: 0, green: 0, blue: 0, alpha: 255 },
            Rgba { red: 255, green: 255, blue: 255, alpha: 255 },
        ];
        assert(r@ =~= seq![
            Rgba { red: 255, green: 0, blue: 0, alpha: 255 },
            Rgba { red: 0, green: 255, blue: 0, alpha: 255 },
            Rgba { red: 0, green: 0, blue: 255, alpha: 255 },
            Rgba { red: 255, green: 255, blue: 0, alpha: 255 },
            Rgba { red: 255, green: 0, blue: 255, alpha: 255 },
            Rgba { red: 0, green: 255, blue: 255, alpha: 255 },
            Rgba { red: 0, green: 0, blue: 0, alpha: 255 },
            Rgba { red: 255, green: 255, blue: 255, alpha: 255 },
        ]);
        r
    }

    /// The line widths offered: 1, 3, 5, 8 and 12.
    pub fn get_thickness_options() -> (r: Vec<u32>)
        ensures
            r@ == seq![1u32, 3, 5, 8, 12],
    {
        let r = vec![1, 3, 5, 8, 12];
        assert(r@ =~= seq![1u32, 3, 5, 8, 12]);
        r
    }
}

} // verus!
