//! Building simple glyph outlines: contours of on/off-curve points,
//! assembled from a path of move, line and quadratic segments, and encoded
//! as flag plus per-axis delta lists.

use vstd::prelude::*;

verus! {

/// One outline point with its on/off-curve flag.
#[derive(Clone, Copy, Debug, PartialEq, Eq, Structural)]
pub struct CurvePoint {
    pub x: i16,
    pub y: i16,
    pub on_curve: bool,
}

impl CurvePoint {
    /// An on-curve point.
    pub fn on_curve(x: i16, y: i16) -> (r: CurvePoint)
        ensures
            r == (CurvePoint { x, y, on_curve: true }),
    {
        CurvePoint { x, y, on_curve: true }
    }

    /// An off-curve control point.
    pub fn off_curve(x: i16, y: i16) -> (r: CurvePoint)
        ensures
            r == (CurvePoint { x, y, on_curve: false }),
    {
        CurvePoint { x, y, on_curve: false }
    }
}

/// A helper trait for converting other point types to glyph-compatible
/// coordinate pairs.
pub trait OtPoint: Sized {
    /// The coordinates this value stands for.
    spec fn spec_get(&self) -> (i16, i16);

    /// Extract the coordinates.
    fn get(self) -> (r: (i16, i16))
        ensures
            r == self.spec_get(),
    ;
}

impl OtPoint for (i16, i16) {
    open spec fn spec_get(&self) -> (i16, i16) {
        *self
    }

    fn get(self) -> (r: (i16, i16)) {
        self
    }
}

/// A single quadratic bezier contour.
#[derive(Clone, Debug)]
pub struct Contour(pub Vec<CurvePoint>);

impl View for Contour {
    type V = Seq<CurvePoint>;

    closed spec fn view(&self) -> Seq<CurvePoint> {
        self.0@
    }
}

impl Contour {
    /// Create a new contour beginning at the provided point.
    pub fn new<T: OtPoint>(pt: T) -> (r: Contour)
        ensures
            r@ == seq![CurvePoint { x: pt.spec_get().0, y: pt.spec_get().1, on_curve: true }],
    {
        let (x, y) = pt.get();
        let mut points: Vec<CurvePoint> = Vec::new();
        points.push(CurvePoint::on_curve(x, y));
        Contour(points)
    }

    /// The total number of points in this contour.
    pub fn len(&self) -> (r: usize)
        ensures
            r == self@.len(),
    {
        self.0.len()
    }

    /// `true` if this contour is empty.
    pub fn is_empty(&self) -> (r: bool)
        ensures
            r == (self@.len() == 0),
    {
        self.0.is_empty()
    }

    /// Add a line segment: a single on-curve point.
    pub fn line_to<T: OtPoint>(&mut self, pt: T)
        ensures
            final(self)@ == old(self)@.push(
                CurvePoint { x: pt.spec_get().0, y: pt.spec_get().1, on_curve: true },
            ),
    {
        let (x, y) = pt.get();
        self.0.push(CurvePoint::on_curve(x, y));
    }

    /// Add a quadratic curve segment: one off-curve control point followed
    /// by one on-curve end point.
    pub fn quad_to<T: OtPoint, U: OtPoint>(&mut self, p0: T, p1: U)
        ensures
            final(self)@ == old(self)@.push(
                CurvePoint { x: p0.spec_get().0, y: p0.spec_get().1, on_curve: false },
            ).push(CurvePoint { x: p1.spec_get().0, y: p1.spec_get().1, on_curve: true }),
    {
        let (x0, y0) = p0.get();
        let (x1, y1) = p1.get();
        self.0.push(CurvePoint::off_curve(x0, y0));
        self.0.push(CurvePoint::on_curve(x1, y1));
    }
}

/// An error if an input path is malformed.
#[derive(Clone, Copy, Debug, PartialEq, Eq, Structural)]
pub enum BadKurbo {
    /// The path contains a cubic segment, which must be pre-flattened.
    HasCubic,
    /// A contour has fewer than two points once a closing duplicate is
    /// dropped.
    TooSmall,
    /// The path does not begin with a move instruction.
    MissingMove,
}

/// One instruction of a path whose coordinates are already rounded to
/// integer design units.
#[derive(Clone, Copy, Debug, PartialEq, Eq)]
pub enum PathElement {
    MoveTo((i16, i16)),
    LineTo((i16, i16)),
    QuadTo((i16, i16), (i16, i16)),
    CurveTo((i16, i16), (i16, i16), (i16, i16)),
    ClosePath,
}

/// Split a path into raw contours at each move instruction, walking the
/// elements from index `i` with the open contour `current` and the
/// finished ones `done`.  A line or curve before any move fails, and a
/// cubic always fails.
pub open spec fn spec_split(
    es: Seq<PathElement>,
    i: int,
    current: Option<Seq<CurvePoint>>,
    done: Seq<Seq<CurvePoint>>,
) -> Result<Seq<Seq<CurvePoint>>, BadKurbo>
    decreases es.len() - i,
{
    if i < 0 || i >= es.len() {
        Ok(
            match current {
                Some(c) => done.push(c),
                None => done,
            },
        )
    } else {
        match es[i] {
            PathElement::MoveTo(p) => spec_split(
                es,
                i + 1,
                Some(seq![CurvePoint { x: p.0, y: p.1, on_curve: true }]),
                match current {
                    Some(c) => done.push(c),
                    None => done,
                },
            ),
            PathElement::LineTo(p) => match current {
                Some(c) => spec_split(
                    es,
                    i + 1,
                    Some(c.push(CurvePoint { x: p.0, y: p.1, on_curve: true })),
                    done,
                ),
                None => Err(BadKurbo::MissingMove),
            },
            PathElement::QuadTo(p0, p1) => match current {
                Some(c) => spec_split(
                    es,
                    i + 1,
                    Some(
                        c.push(CurvePoint { x: p0.0, y: p0.1, on_curve: false }).push(
                            CurvePoint { x: p1.0, y: p1.1, on_curve: true },
                        ),
                    ),
                    done,
                ),
                None => Err(BadKurbo::MissingMove),
            },
            PathElement::CurveTo(_, _, _) => Err(BadKurbo::HasCubic),
            PathElement::ClosePath => spec_split(es, i + 1, current, done),
        }
    }
}

/// The point order of the target format: the list reversed, then rotated
/// right by one position, so the former last point comes first.
pub open spec fn spec_ot_order(s: Seq<CurvePoint>) -> Seq<CurvePoint> {
    Seq::new(
        s.len(),
        |i: int|
            if i == 0 {
                s[0]
            } else {
                s[s.len() - i]
            },
    )
}

/// Finish one raw contour: drop a closing duplicate of the first point,
/// reject what has fewer than two points left, and reorder the rest.
pub open spec fn spec_finish_contour(c: Seq<CurvePoint>) -> Result<Seq<CurvePoint>, BadKurbo> {
    let t = if c.len() >= 2 && c[0] == c[c.len() - 1] {
        c.drop_last()
    } else {
        c
    };
    if t.len() < 2 {
        Err(BadKurbo::TooSmall)
    } else {
        Ok(spec_ot_order(t))
    }
}

/// Finish every raw contour from index `i` on, in order.
pub open spec fn spec_finish_all(cs: Seq<Seq<CurvePoint>>, i: int) -> Result<
    Seq<Seq<CurvePoint>>,
    BadKurbo,
>
    decreases cs.len() - i,
{
    if i < 0 || i >= cs.len() {
        Ok(Seq::empty())
    } else {
        match spec_finish_contour(cs[i]) {
            Err(e) => Err(e),
            Ok(c) => match spec_finish_all(cs, i + 1) {
                Err(e) => Err(e),
                Ok(rest) => Ok(seq![c] + rest),
            },
        }
    }
}

/// A simple (without components) glyph.
pub struct SimpleGlyf {
    x_max: i16,
    y_max: i16,
    x_min: i16,
    y_min: i16,
    contours: Vec<Contour>,
    instructions: Vec<u8>,
}

impl SimpleGlyf {
    /// The contours' point lists, as a spec-level projection.
    pub closed spec fn spec_contours(&self) -> Seq<Seq<CurvePoint>> {
        self.contours@.map_values(|c: Contour| c@)
    }

    /// The bounding box as (x_min, y_min, x_max, y_max), as a spec-level
    /// projection.
    pub closed spec fn spec_bbox(&self) -> (i16, i16, i16, i16) {
        (self.x_min, self.y_min, self.x_max, self.y_max)
    }

    /// The instruction bytes, as a spec-level projection.
    pub closed spec fn spec_instructions(&self) -> Seq<u8> {
        self.instructions@
    }

    /// Attempt to create a simple glyph from a path of integer-coordinate
    /// elements, together with the rounded bounding box of the source
    /// geometry.
    ///
    /// The path may contain only move, line and quadratic segments, and
    /// must begin with a move; contours are split at each move, a closing
    /// duplicate point is dropped, and each contour is reordered to the
    /// target format's convention.
    pub fn from_elements(
        elements: &Vec<PathElement>,
        x_min: i16,
        y_min: i16,
        x_max: i16,
        y_max: i16,
    ) -> (r: Result<SimpleGlyf, BadKurbo>)
        ensures
            ({
                let split = spec_split(elements@, 0, None, Seq::empty());
                match split {
                    Err(e) => r == Err::<SimpleGlyf, BadKurbo>(e),
                    Ok(cs) => match spec_finish_all(cs, 0) {
                        Err(e) => r == Err::<SimpleGlyf, BadKurbo>(e),
                        Ok(fin) => r matches Ok(g) && g.spec_contours() == fin && g.spec_bbox()
                            == (x_min, y_min, x_max, y_max) && g.spec_instructions()
                            == Seq::<u8>::empty(),
                    },
                }
            }),
    {
        let ghost es = elements@;
        let mut contours: Vec<Contour> = Vec::new();
        let mut current_pts: Vec<CurvePoint> = Vec::new();
        let mut started: bool = false;
        assert(contours@.map_values(|c: Contour| c@) =~= Seq::<Seq<CurvePoint>>::empty());
        let mut i: usize = 0;
        while i < elements.len()
            invariant
                elements@ == es,
                i <= es.len(),
                !started ==> current_pts@.len() == 0,
                spec_split(es, 0, None, Seq::empty()) == spec_split(
                    es,
                    i as int,
                    if started {
                        Some(current_pts@)
                    } else {
                        None
                    },
                    contours@.map_values(|c: Contour| c@),
                ),
            decreases es.len() - i,
        {
            let ghost done_pre = contours@.map_values(|c: Contour| c@);
            match elements[i] {
                PathElement::MoveTo(pt) => {
                    if started {
                        contours.push(Contour(current_pts));
                        proof {
                            assert(contours@.map_values(|c: Contour| c@) =~= done_pre.push(
                                contours@[contours@.len() - 1]@,
                            ));
                        }
                        current_pts = Vec::new();
                    }
                    current_pts.push(CurvePoint::on_curve(pt.0, pt.1));
                    started = true;
                    proof {
                        assert(current_pts@ =~= seq![
                            CurvePoint { x: pt.0, y: pt.1, on_curve: true },
                        ]);
                    }
                },
                PathElement::LineTo(pt) => {
                    if !started {
                        return Err(BadKurbo::MissingMove);
                    }
                    current_pts.push(CurvePoint::on_curve(pt.0, pt.1));
                },
                PathElement::QuadTo(p0, p1) => {
                    if !started {
                        return Err(BadKurbo::MissingMove);
                    }
                    current_pts.push(CurvePoint::off_curve(p0.0, p0.1));
                    current_pts.push(CurvePoint::on_curve(p1.0, p1.1));
                },
                PathElement::CurveTo(_, _, _) => {
                    return Err(BadKurbo::HasCubic);
                },
                PathElement::ClosePath => {},
            }
            i = i + 1;
        }
        if started {
            let ghost done_pre = contours@.map_values(|c: Contour| c@);
            contours.push(Contour(current_pts));
            proof {
                assert(contours@.map_values(|c: Contour| c@) =~= done_pre.push(
                    contours@[contours@.len() - 1]@,
                ));
            }
        }
        let ghost cs = contours@.map_values(|c: Contour| c@);
        assert(spec_split(es, 0, None, Seq::empty()) == Ok::<Seq<Seq<CurvePoint>>, BadKurbo>(cs));

        let mut finished: Vec<Contour> = Vec::new();
        let mut k: usize = 0;
        while k < contours.len()
            invariant
                elements@ == es,
                spec_split(es, 0, None, Seq::empty()) == Ok::<Seq<Seq<CurvePoint>>, BadKurbo>(cs),
                contours@.map_values(|c: Contour| c@) == cs,
                contours@.len() == cs.len(),
                k <= cs.len(),
                match spec_finish_all(cs, k as int) {
                    Ok(rest) => spec_finish_all(cs, 0) == Ok::<Seq<Seq<CurvePoint>>, BadKurbo>(
                        finished@.map_values(|c: Contour| c@) + rest,
                    ),
                    Err(_) => spec_finish_all(cs, 0) == spec_finish_all(cs, k as int),
                },
            decreases cs.len() - k,
        {
            assert(contours@[k as int]@ == cs[k as int]);
            let pts: &Vec<CurvePoint> = &contours[k].0;
            let n0: usize = pts.len();
            let mut m: usize = n0;
            if n0 >= 2 && pts[0] == pts[n0 - 1] {
                m = n0 - 1;
            }
            let ghost trimmed = cs[k as int].take(m as int);
            proof {
                if n0 >= 2 && cs[k as int][0] == cs[k as int][n0 - 1] {
                    assert(trimmed =~= cs[k as int].drop_last());
                } else {
                    assert(trimmed =~= cs[k as int]);
                }
            }
            if m < 2 {
                proof {
                    assert(spec_finish_contour(cs[k as int]) == Err::<Seq<CurvePoint>, BadKurbo>(
                        BadKurbo::TooSmall,
                    ));
                    assert(spec_finish_all(cs, k as int) == Err::<Seq<Seq<CurvePoint>>, BadKurbo>(
                        BadKurbo::TooSmall,
                    ));
                }
                return Err(BadKurbo::TooSmall);
            }
            let mut reordered: Vec<CurvePoint> = Vec::new();
            reordered.push(pts[0]);
            let mut t: usize = 1;
            while t < m
                invariant
                    pts@ == cs[k as int],
                    2 <= m <= pts@.len(),
                    1 <= t <= m,
                    reordered@.len() == t,
                    reordered@[0] == pts@[0],
                    forall|j: int| 1 <= j < t ==> reordered@[j] == pts@[m - j],
                decreases m - t,
            {
                reordered.push(pts[m - t]);
                t = t + 1;
            }
            assert(reordered@ =~= spec_ot_order(trimmed));
            let ghost reord = reordered@;
            let ghost fin_pre = finished@.map_values(|c: Contour| c@);
            finished.push(Contour(reordered));
            proof {
                assert(finished@.map_values(|c: Contour| c@) =~= fin_pre.push(
                    finished@[finished@.len() - 1]@,
                ));
                assert(spec_finish_contour(cs[k as int]) == Ok::<Seq<CurvePoint>, BadKurbo>(reord));
                if spec_finish_all(cs, k as int + 1) is Ok {
                    let rest = spec_finish_all(cs, k as int + 1)->Ok_0;
                    assert(fin_pre + (seq![reord] + rest) =~= fin_pre.push(reord) + rest);
                }
            }
            k = k + 1;
        }
        proof {
            assert(spec_finish_all(cs, cs.len() as int) == Ok::<Seq<Seq<CurvePoint>>, BadKurbo>(
                Seq::empty(),
            ));
            let fin = finished@.map_values(|c: Contour| c@);
            assert(fin + Seq::<Seq<CurvePoint>>::empty() =~= fin);
        }
        Ok(
            SimpleGlyf {
                x_max,
                y_max,
                x_min,
                y_min,
                contours: finished,
                instructions: Vec::new(),
            },
        )
    }
}


/// The on-curve flag bit of a simple glyph point.
pub const ON_CURVE_POINT: u8 = 0x01;

/// The flag bit marking a one-byte x delta.
pub const X_SHORT_VECTOR: u8 = 0x02;

/// The flag bit marking a one-byte y delta.
pub const Y_SHORT_VECTOR: u8 = 0x04;

/// For a short x delta its sign bit, else "x unchanged".
pub const X_IS_SAME_OR_POSITIVE_X_SHORT_VECTOR: u8 = 0x10;

/// For a short y delta its sign bit, else "y unchanged".
pub const Y_IS_SAME_OR_POSITIVE_Y_SHORT_VECTOR: u8 = 0x20;

/// How one coordinate delta is carried: omitted entirely, a one-byte
/// magnitude with its sign in the flags, or a two-byte signed value.
#[derive(Clone, Copy, Debug, PartialEq, Eq, Structural)]
pub enum CoordDelta {
    /// The delta is zero and written nowhere; the flag alone says so.
    Skip,
    /// A one-byte magnitude; the flag carries the sign.
    Short(u8),
    /// A full two-byte signed value.
    Long(i16),
}

/// The flag contribution and carrier for one axis delta: zero is skipped,
/// a magnitude up to 255 is one byte with a sign flag, anything else is a
/// two-byte value with no flag bit.
pub open spec fn spec_flag_delta(value: int, short_flag: u8, same_or_pos: u8) -> (u8, CoordDelta) {
    if value == 0 {
        (same_or_pos, CoordDelta::Skip)
    } else if -255 <= value && value <= -1 {
        (short_flag, CoordDelta::Short((-value) as u8))
    } else if 1 <= value && value <= 255 {
        ((short_flag | same_or_pos), CoordDelta::Short(value as u8))
    } else {
        (0u8, CoordDelta::Long(value as i16))
    }
}

/// The x coordinate a point is measured against: the previous point, or
/// the origin for the first one.
pub open spec fn spec_prev_x(points: Seq<CurvePoint>, i: int) -> int {
    if i == 0 {
        0
    } else {
        points[i - 1].x as int
    }
}

/// The y coordinate a point is measured against.
pub open spec fn spec_prev_y(points: Seq<CurvePoint>, i: int) -> int {
    if i == 0 {
        0
    } else {
        points[i - 1].y as int
    }
}

/// Every consecutive delta fits a signed 16-bit value.
pub open spec fn deltas_fit(points: Seq<CurvePoint>) -> bool {
    forall|i: int|
        0 <= i < points.len() ==> {
            &&& -32768 <= (#[trigger] points[i]).x - spec_prev_x(points, i) <= 32767
            &&& -32768 <= points[i].y - spec_prev_y(points, i) <= 32767
        }
}

/// The flags-and-deltas entry for point `i`.
pub open spec fn spec_delta_entry(points: Seq<CurvePoint>, i: int) -> (u8, CoordDelta, CoordDelta) {
    let dx = points[i].x - spec_prev_x(points, i);
    let dy = points[i].y - spec_prev_y(points, i);
    let xr = spec_flag_delta(dx, X_SHORT_VECTOR, X_IS_SAME_OR_POSITIVE_X_SHORT_VECTOR);
    let yr = spec_flag_delta(dy, Y_SHORT_VECTOR, Y_IS_SAME_OR_POSITIVE_Y_SHORT_VECTOR);
    let on: u8 = if points[i].on_curve {
        ON_CURVE_POINT
    } else {
        0
    };
    ((on | xr.0 | yr.0), xr.1, yr.1)
}

/// The whole entry list for a point list.
pub open spec fn spec_entries(points: Seq<CurvePoint>) -> Seq<(u8, CoordDelta, CoordDelta)> {
    Seq::new(points.len(), |i: int| spec_delta_entry(points, i))
}

/// All contours' points, in order.
pub open spec fn spec_flat(contours: Seq<Seq<CurvePoint>>) -> Seq<CurvePoint>
    decreases contours.len(),
{
    if contours.len() == 0 {
        Seq::empty()
    } else {
        contours[0] + spec_flat(contours.skip(1))
    }
}

/// Flattening one more contour appends its points.
proof fn lemma_flat_push(s: Seq<Seq<CurvePoint>>, x: Seq<CurvePoint>)
    ensures
        spec_flat(s.push(x)) == spec_flat(s) + x,
    decreases s.len(),
{
    if s.len() == 0 {
        assert(s.push(x).skip(1) =~= Seq::<Seq<CurvePoint>>::empty());
        assert(spec_flat(Seq::<Seq<CurvePoint>>::empty()) == Seq::<CurvePoint>::empty());
        assert(spec_flat(s.push(x)) =~= spec_flat(s) + x);
    } else {
        assert(s.push(x).skip(1) =~= s.skip(1).push(x));
        lemma_flat_push(s.skip(1), x);
        assert(spec_flat(s.push(x)) =~= spec_flat(s) + x);
    }
}

/// The flag contribution and carrier for one signed 16-bit delta.
fn flag_and_delta(value: i16, short_flag: u8, same_or_pos: u8) -> (r: (u8, CoordDelta))
    ensures
        r == spec_flag_delta(value as int, short_flag, same_or_pos),
{
    if value == 0 {
        (same_or_pos, CoordDelta::Skip)
    } else if -255 <= value && value <= -1 {
        (short_flag, CoordDelta::Short((-(value as i32)) as u8))
    } else if 1 <= value && value <= 255 {
        (short_flag | same_or_pos, CoordDelta::Short(value as u8))
    } else {
        (0u8, CoordDelta::Long(value))
    }
}

impl SimpleGlyf {
    /// Every point of every contour, in order.
    pub open spec fn spec_points(&self) -> Seq<CurvePoint> {
        spec_flat(self.spec_contours())
    }

    /// Collect every contour's points into one list.
    fn flat_points(&self) -> (r: Vec<CurvePoint>)
        ensures
            r@ == self.spec_points(),
    {
        let ghost cs = self.spec_contours();
        let mut out: Vec<CurvePoint> = Vec::new();
        proof {
            assert(cs.take(0) =~= Seq::<Seq<CurvePoint>>::empty());
            assert(spec_flat(Seq::<Seq<CurvePoint>>::empty()) == Seq::<CurvePoint>::empty());
            assert(out@ =~= spec_flat(cs.take(0)));
        }
        let mut i: usize = 0;
        while i < self.contours.len()
            invariant
                cs == self.spec_contours(),
                self.contours@.len() == cs.len(),
                i <= cs.len(),
                out@ == spec_flat(cs.take(i as int)),
            decreases cs.len() - i,
        {
            assert(self.contours@[i as int]@ == cs[i as int]);
            let contour: &Vec<CurvePoint> = &self.contours[i].0;
            let ghost base = out@;
            let mut j: usize = 0;
            while j < contour.len()
                invariant
                    contour@ == cs[i as int],
                    j <= contour@.len(),
                    out@ == base + cs[i as int].take(j as int),
                decreases contour@.len() - j,
            {
                out.push(contour[j]);
                assert(out@ =~= base + cs[i as int].take(j as int + 1));
                j = j + 1;
            }
            proof {
                lemma_flat_push(cs.take(i as int), cs[i as int]);
                assert(cs.take(i as int).push(cs[i as int]) =~= cs.take(i as int + 1));
                assert(cs[i as int].take(cs[i as int].len() as int) =~= cs[i as int]);
            }
            i = i + 1;
        }
        proof {
            assert(cs.take(cs.len() as int) =~= cs);
        }
        out
    }

    /// Compute the flags and per-axis deltas for this glyph's points: each
    /// point is encoded as an on/off-curve flag plus a signed delta from
    /// the previous point, starting at the origin, on each axis
    /// independently.
    pub fn compute_point_deltas(&self) -> (r: Vec<(u8, CoordDelta, CoordDelta)>)
        requires
            deltas_fit(self.spec_points()),
        ensures
            r@.len() == self.spec_points().len(),
            forall|i: int| 0 <= i < r@.len() ==> r@[i] == spec_delta_entry(self.spec_points(), i),
    {
        let pts = self.flat_points();
        let ghost ps = self.spec_points();
        let mut out: Vec<(u8, CoordDelta, CoordDelta)> = Vec::new();
        let mut last_x: i16 = 0;
        let mut last_y: i16 = 0;
        let mut i: usize = 0;
        while i < pts.len()
            invariant
                pts@ == ps,
                deltas_fit(ps),
                i <= ps.len(),
                out@.len() == i,
                forall|j: int| 0 <= j < i ==> out@[j] == spec_delta_entry(ps, j),
                last_x as int == spec_prev_x(ps, i as int),
                last_y as int == spec_prev_y(ps, i as int),
            decreases ps.len() - i,
        {
            let p = pts[i];
            proof {
                assert(-32768 <= ps[i as int].x - spec_prev_x(ps, i as int) <= 32767);
            }
            let d_x: i16 = p.x - last_x;
            let d_y: i16 = p.y - last_y;
            let flag0: u8 = if p.on_curve {
                ON_CURVE_POINT
            } else {
                0
            };
            let (x_flag, x_data) = flag_and_delta(
                d_x,
                X_SHORT_VECTOR,
                X_IS_SAME_OR_POSITIVE_X_SHORT_VECTOR,
            );
            let (y_flag, y_data) = flag_and_delta(
                d_y,
                Y_SHORT_VECTOR,
                Y_IS_SAME_OR_POSITIVE_Y_SHORT_VECTOR,
            );
            let flag: u8 = flag0 | x_flag | y_flag;
            out.push((flag, x_data, y_data));
            last_x = p.x;
            last_y = p.y;
            proof {
                assert(out@[i as int] == spec_delta_entry(ps, i as int));
            }
            i = i + 1;
        }
        out
    }
}

/// The value a delta carrier stands for, given the sign the flags give a
/// short one.
pub open spec fn spec_delta_val(d: CoordDelta, positive: bool) -> int {
    match d {
        CoordDelta::Skip => 0,
        CoordDelta::Short(m) => if positive {
            m as int
        } else {
            -(m as int)
        },
        CoordDelta::Long(v) => v as int,
    }
}

/// The x delta of one entry.
pub open spec fn spec_delta_x(flag: u8, d: CoordDelta) -> int {
    spec_delta_val(d, flag & X_IS_SAME_OR_POSITIVE_X_SHORT_VECTOR != 0)
}

/// The y delta of one entry.
pub open spec fn spec_delta_y(flag: u8, d: CoordDelta) -> int {
    spec_delta_val(d, flag & Y_IS_SAME_OR_POSITIVE_Y_SHORT_VECTOR != 0)
}

/// The x coordinate after the first `i` entries: the running delta sum.
pub open spec fn spec_sum_x(entries: Seq<(u8, CoordDelta, CoordDelta)>, i: int) -> int
    decreases i,
{
    if i <= 0 {
        0
    } else {
        spec_sum_x(entries, i - 1) + spec_delta_x(entries[i - 1].0, entries[i - 1].1)
    }
}

/// The y coordinate after the first `i` entries.
pub open spec fn spec_sum_y(entries: Seq<(u8, CoordDelta, CoordDelta)>, i: int) -> int
    decreases i,
{
    if i <= 0 {
        0
    } else {
        spec_sum_y(entries, i - 1) + spec_delta_y(entries[i - 1].0, entries[i - 1].2)
    }
}

/// Every running coordinate stays inside the signed 16-bit range.
pub open spec fn sums_fit(entries: Seq<(u8, CoordDelta, CoordDelta)>) -> bool {
    &&& forall|i: int|
        1 <= i <= entries.len() ==> -32768 <= #[trigger] spec_sum_x(entries, i) <= 32767
    &&& forall|i: int|
        1 <= i <= entries.len() ==> -32768 <= #[trigger] spec_sum_y(entries, i) <= 32767
}

/// The value one axis delta adds, read back from the flags and carrier.
fn delta_value(flag: u8, mask: u8, d: CoordDelta) -> (r: i32)
    ensures
        r as int == spec_delta_val(d, flag & mask != 0),
        -32768 <= r <= 32767,
{
    match d {
        CoordDelta::Skip => 0,
        CoordDelta::Short(m) => if flag & mask != 0 {
            m as i32
        } else {
            -(m as i32)
        },
        CoordDelta::Long(v) => v as i32,
    }
}

/// Decode a flags-and-deltas list back to absolute points by summing the
/// per-axis deltas from the origin.
pub fn decode_point_deltas(entries: &Vec<(u8, CoordDelta, CoordDelta)>) -> (r: Vec<CurvePoint>)
    requires
        sums_fit(entries@),
    ensures
        r@.len() == entries@.len(),
        forall|i: int|
            0 <= i < entries@.len() ==> r@[i] == (CurvePoint {
                x: spec_sum_x(entries@, i + 1) as i16,
                y: spec_sum_y(entries@, i + 1) as i16,
                on_curve: entries@[i].0 & ON_CURVE_POINT != 0,
            }),
{
    let mut out: Vec<CurvePoint> = Vec::new();
    let mut x: i16 = 0;
    let mut y: i16 = 0;
    let mut i: usize = 0;
    while i < entries.len()
        invariant
            sums_fit(entries@),
            i <= entries@.len(),
            out@.len() == i,
            x as int == spec_sum_x(entries@, i as int),
            y as int == spec_sum_y(entries@, i as int),
            forall|j: int|
                0 <= j < i ==> out@[j] == (CurvePoint {
                    x: spec_sum_x(entries@, j + 1) as i16,
                    y: spec_sum_y(entries@, j + 1) as i16,
                    on_curve: entries@[j].0 & ON_CURVE_POINT != 0,
                }),
        decreases entries@.len() - i,
    {
        let e = entries[i];
        let dx: i32 = delta_value(e.0, X_IS_SAME_OR_POSITIVE_X_SHORT_VECTOR, e.1);
        let dy: i32 = delta_value(e.0, Y_IS_SAME_OR_POSITIVE_Y_SHORT_VECTOR, e.2);
        proof {
            assert(-32768 <= spec_sum_x(entries@, i as int + 1) <= 32767);
            assert(-32768 <= spec_sum_y(entries@, i as int + 1) <= 32767);
        }
        x = ((x as i32) + dx) as i16;
        y = ((y as i32) + dy) as i16;
        out.push(CurvePoint { x, y, on_curve: e.0 & ON_CURVE_POINT != 0 });
        i = i + 1;
    }
    out
}

/// Bit facts about the flag constants that the delta encoding combines.
proof fn lemma_flag_constants()
    ensures
        0u8 & 0x01 == 0 && 0u8 & 0x10 == 0 && 0u8 & 0x20 == 0,
        0x01u8 & 0x01 == 0x01 && 0x01u8 & 0x10 == 0 && 0x01u8 & 0x20 == 0,
        0x02u8 & 0x01 == 0 && 0x02u8 & 0x10 == 0 && 0x02u8 & 0x20 == 0,
        0x12u8 & 0x01 == 0 && 0x12u8 & 0x10 == 0x10 && 0x12u8 & 0x20 == 0,
        0x10u8 & 0x01 == 0 && 0x10u8 & 0x10 == 0x10 && 0x10u8 & 0x20 == 0,
        0x04u8 & 0x01 == 0 && 0x04u8 & 0x10 == 0 && 0x04u8 & 0x20 == 0,
        0x24u8 & 0x01 == 0 && 0x24u8 & 0x10 == 0 && 0x24u8 & 0x20 == 0x20,
        0x20u8 & 0x01 == 0 && 0x20u8 & 0x10 == 0 && 0x20u8 & 0x20 == 0x20,
        0x02u8 | 0x10u8 == 0x12 && 0x04u8 | 0x20u8 == 0x24,
{
    assert(0u8 & 0x01 == 0 && 0u8 & 0x10 == 0 && 0u8 & 0x20 == 0 && 0x01u8 & 0x01 == 0x01
        && 0x01u8 & 0x10 == 0 && 0x01u8 & 0x20 == 0 && 0x02u8 & 0x01 == 0 && 0x02u8 & 0x10 == 0
        && 0x02u8 & 0x20 == 0 && 0x12u8 & 0x01 == 0 && 0x12u8 & 0x10 == 0x10 && 0x12u8 & 0x20 == 0
        && 0x10u8 & 0x01 == 0 && 0x10u8 & 0x10 == 0x10 && 0x10u8 & 0x20 == 0 && 0x04u8 & 0x01 == 0
        && 0x04u8 & 0x10 == 0 && 0x04u8 & 0x20 == 0 && 0x24u8 & 0x01 == 0 && 0x24u8 & 0x10 == 0
        && 0x24u8 & 0x20 == 0x20 && 0x20u8 & 0x01 == 0 && 0x20u8 & 0x10 == 0 && 0x20u8 & 0x20
        == 0x20 && 0x02u8 | 0x10u8 == 0x12 && 0x04u8 | 0x20u8 == 0x24) by (bit_vector);
}

/// Masking a three-way flag union selects the first operand's bits when
/// the others have none under the mask.
proof fn lemma_or3_first(a: u8, b: u8, c: u8, m: u8)
    requires
        b & m == 0,
        c & m == 0,
    ensures
        (a | b | c) & m == a & m,
{
    assert((a | b | c) & m == a & m) by (bit_vector)
        requires
            b & m == 0,
            c & m == 0,
    ;
}

/// Masking a three-way flag union selects the middle operand's bits when
/// the others have none under the mask.
proof fn lemma_or3_mid(a: u8, b: u8, c: u8, m: u8)
    requires
        a & m == 0,
        c & m == 0,
    ensures
        (a | b | c) & m == b & m,
{
    assert((a | b | c) & m == b & m) by (bit_vector)
        requires
            a & m == 0,
            c & m == 0,
    ;
}

/// Masking a three-way flag union selects the last operand's bits when
/// the others have none under the mask.
proof fn lemma_or3_last(a: u8, b: u8, c: u8, m: u8)
    requires
        a & m == 0,
        b & m == 0,
    ensures
        (a | b | c) & m == c & m,
{
    assert((a | b | c) & m == c & m) by (bit_vector)
        requires
            a & m == 0,
            b & m == 0,
    ;
}

/// One entry of the encoder reads back as exactly the delta it encodes,
/// and its flag carries the point's on/off-curve state.
proof fn lemma_delta_extract(points: Seq<CurvePoint>, i: int)
    requires
        deltas_fit(points),
        0 <= i < points.len(),
    ensures
        spec_delta_x(spec_entries(points)[i].0, spec_entries(points)[i].1) == points[i].x
            - spec_prev_x(points, i),
        spec_delta_y(spec_entries(points)[i].0, spec_entries(points)[i].2) == points[i].y
            - spec_prev_y(points, i),
        (spec_entries(points)[i].0 & ON_CURVE_POINT != 0) == points[i].on_curve,
{
    lemma_flag_constants();
    let dx = points[i].x - spec_prev_x(points, i);
    let dy = points[i].y - spec_prev_y(points, i);
    let xr = spec_flag_delta(dx, X_SHORT_VECTOR, X_IS_SAME_OR_POSITIVE_X_SHORT_VECTOR);
    let yr = spec_flag_delta(dy, Y_SHORT_VECTOR, Y_IS_SAME_OR_POSITIVE_Y_SHORT_VECTOR);
    let on: u8 = if points[i].on_curve {
        ON_CURVE_POINT
    } else {
        0
    };
    assert(spec_entries(points)[i] == spec_delta_entry(points, i));
    assert(on & 0x10 == 0 && on & 0x20 == 0);
    assert(xr.0 & 0x01 == 0 && xr.0 & 0x20 == 0);
    assert(yr.0 & 0x01 == 0 && yr.0 & 0x10 == 0);
    lemma_or3_first(on, xr.0, yr.0, 0x01);
    lemma_or3_mid(on, xr.0, yr.0, 0x10);
    lemma_or3_last(on, xr.0, yr.0, 0x20);
    assert((on & 0x01 != 0) == points[i].on_curve);
    if dx == 0 {
    } else if -255 <= dx && dx <= -1 {
        assert(xr.0 & 0x10 == 0);
    } else if 1 <= dx && dx <= 255 {
        assert(xr.0 & 0x10 == 0x10);
    } else {
        assert(-32768 <= dx <= 32767);
    }
    if dy == 0 {
    } else if -255 <= dy && dy <= -1 {
        assert(yr.0 & 0x20 == 0);
    } else if 1 <= dy && dy <= 255 {
        assert(yr.0 & 0x20 == 0x20);
    } else {
        assert(-32768 <= dy <= 32767);
    }
}

/// The running delta sums of the encoder's entries reproduce each
/// coordinate: after `i` entries they stand at the point before index `i`.
proof fn lemma_delta_sums(points: Seq<CurvePoint>, i: int)
    requires
        deltas_fit(points),
        0 <= i <= points.len(),
    ensures
        spec_sum_x(spec_entries(points), i) == spec_prev_x(points, i),
        spec_sum_y(spec_entries(points), i) == spec_prev_y(points, i),
    decreases i,
{
    if i > 0 {
        lemma_delta_sums(points, i - 1);
        lemma_delta_extract(points, i - 1);
    }
}

/// Law: a point list whose consecutive deltas fit survives the round trip
/// through its flags-and-deltas encoding — the running delta sums equal
/// the input coordinates, point by point, and the flag sequence
/// carries the same on/off-curve states.
pub proof fn lemma_point_deltas_round_trip(points: Seq<CurvePoint>)
    requires
        deltas_fit(points),
    ensures
        spec_entries(points).len() == points.len(),
        sums_fit(spec_entries(points)),
        forall|i: int|
            0 <= i < points.len() ==> spec_sum_x(spec_entries(points), i + 1) == points[i].x as int,
        forall|i: int|
            0 <= i < points.len() ==> spec_sum_y(spec_entries(points), i + 1) == points[i].y as int,
        forall|i: int|
            0 <= i < points.len() ==> ((#[trigger] spec_entries(points)[i]).0 & ON_CURVE_POINT != 0)
                == points[i].on_curve,
{
    let es = spec_entries(points);
    assert forall|i: int| 0 <= i < points.len() implies spec_sum_x(es, i + 1) == points[i].x as int
        && spec_sum_y(es, i + 1) == points[i].y as int && ((#[trigger] es[i]).0 & ON_CURVE_POINT
        != 0) == points[i].on_curve by {
        lemma_delta_sums(points, i + 1);
        lemma_delta_extract(points, i);
    }
    assert forall|i: int| 1 <= i <= es.len() implies -32768 <= #[trigger] spec_sum_x(es, i)
        <= 32767 by {
        lemma_delta_sums(points, i);
    }
    assert forall|i: int| 1 <= i <= es.len() implies -32768 <= #[trigger] spec_sum_y(es, i)
        <= 32767 by {
        lemma_delta_sums(points, i);
    }
}


/// The number of points in the first `i` contours.
pub open spec fn spec_cum_points(cs: Seq<Seq<CurvePoint>>, i: int) -> int
    decreases i,
{
    if i <= 0 {
        0
    } else {
        spec_cum_points(cs, i - 1) + cs[i - 1].len() as int
    }
}

/// Point-count prefixes only grow.
proof fn lemma_cum_points_mono(cs: Seq<Seq<CurvePoint>>, i: int, j: int)
    requires
        0 <= i <= j,
    ensures
        spec_cum_points(cs, i) <= spec_cum_points(cs, j),
    decreases j - i,
{
    if i < j {
        lemma_cum_points_mono(cs, i, j - 1);
    }
}

/// The end-point indices of the first `i` contours: each is the running
/// point count less one, as a 16-bit value.
pub open spec fn spec_endpoints_bytes(cs: Seq<Seq<CurvePoint>>, i: int) -> Seq<u8>
    decreases i,
{
    if i <= 0 {
        Seq::empty()
    } else {
        spec_endpoints_bytes(cs, i - 1) + crate::read::be_bytes_of_u16(
            (spec_cum_points(cs, i) - 1) as u16,
        )
    }
}

/// The first `i` entries' flag bytes.
pub open spec fn spec_flags_bytes(entries: Seq<(u8, CoordDelta, CoordDelta)>, i: int) -> Seq<u8>
    decreases i,
{
    if i <= 0 {
        Seq::empty()
    } else {
        spec_flags_bytes(entries, i - 1) + seq![entries[i - 1].0]
    }
}

/// The bytes one delta carrier emits: nothing for a skip, one byte for a
/// short magnitude, two for a long value.
pub open spec fn spec_coord_bytes(d: CoordDelta) -> Seq<u8> {
    match d {
        CoordDelta::Skip => Seq::empty(),
        CoordDelta::Short(m) => seq![m],
        CoordDelta::Long(v) => crate::read::be_bytes_of_i16(v),
    }
}

/// The first `i` entries' x-delta bytes.
pub open spec fn spec_xs_bytes(entries: Seq<(u8, CoordDelta, CoordDelta)>, i: int) -> Seq<u8>
    decreases i,
{
    if i <= 0 {
        Seq::empty()
    } else {
        spec_xs_bytes(entries, i - 1) + spec_coord_bytes(entries[i - 1].1)
    }
}

/// The first `i` entries' y-delta bytes.
pub open spec fn spec_ys_bytes(entries: Seq<(u8, CoordDelta, CoordDelta)>, i: int) -> Seq<u8>
    decreases i,
{
    if i <= 0 {
        Seq::empty()
    } else {
        spec_ys_bytes(entries, i - 1) + spec_coord_bytes(entries[i - 1].2)
    }
}

impl CoordDelta {
    /// Serialize this delta carrier: a skip writes nothing, a short one
    /// byte, a long two.
    pub fn write_into(&self, writer: &mut crate::writer::TableWriter)
        ensures
            final(writer)@ == old(writer)@ + spec_coord_bytes(*self),
    {
        match self {
            CoordDelta::Skip => {
                assert(writer@ =~= old(writer)@ + spec_coord_bytes(*self));
            },
            CoordDelta::Short(val) => {
                writer.write_u8(*val);
                assert(writer@ =~= old(writer)@ + spec_coord_bytes(*self));
            },
            CoordDelta::Long(val) => {
                writer.write_i16(*val);
            },
        }
    }
}

/// The whole encoded simple glyph: contour count, the bounding box in
/// the order x-max, y-max, x-min, y-min, the contour end-point indices,
/// the instructions behind their length, then one flag byte per point and
/// the per-axis delta bytes.
pub open spec fn spec_glyf_encoded(g: SimpleGlyf) -> Seq<u8> {
    let cs = g.spec_contours();
    let entries = spec_entries(g.spec_points());
    let n = entries.len() as int;
    crate::read::be_bytes_of_i16(cs.len() as i16) + crate::read::be_bytes_of_i16(g.spec_bbox().2)
        + crate::read::be_bytes_of_i16(g.spec_bbox().3) + crate::read::be_bytes_of_i16(
        g.spec_bbox().0,
    ) + crate::read::be_bytes_of_i16(g.spec_bbox().1) + spec_endpoints_bytes(cs, cs.len() as int)
        + crate::read::be_bytes_of_u16(g.spec_instructions().len() as u16) + g.spec_instructions()
        + spec_flags_bytes(entries, n) + spec_xs_bytes(entries, n) + spec_ys_bytes(entries, n)
}

impl SimpleGlyf {
    /// Nothing of a simple glyph is checked before writing.
    pub fn validate_impl(&self, ctx: &mut crate::writer::ValidationCtx)
        ensures
            final(ctx)@ == old(ctx)@,
    {
    }

    /// Serialize the glyph.  Counts must fit their fields and every
    /// contour must hold a point, as the construction path guarantees.
    pub fn write_into(&self, writer: &mut crate::writer::TableWriter)
        requires
            deltas_fit(self.spec_points()),
            self.spec_contours().len() < 32767,
            forall|i: int|
                0 <= i < self.spec_contours().len() ==> (#[trigger] self.spec_contours()[i]).len()
                    >= 1,
            spec_cum_points(self.spec_contours(), self.spec_contours().len() as int) <= 65535,
            self.spec_instructions().len() < 65535,
        ensures
            final(writer)@ == old(writer)@ + spec_glyf_encoded(*self),
    {
        let ghost base = writer@;
        let ghost cs = self.spec_contours();
        let n_contours: usize = self.contours.len();
        writer.write_i16(n_contours as i16);
        writer.write_i16(self.x_max);
        writer.write_i16(self.y_max);
        writer.write_i16(self.x_min);
        writer.write_i16(self.y_min);
        let ghost hdr = writer@;
        let mut cur: usize = 0;
        let mut i: usize = 0;
        while i < n_contours
            invariant
                cs == self.spec_contours(),
                self.contours@.len() == cs.len(),
                n_contours == cs.len(),
                i <= n_contours,
                cur == spec_cum_points(cs, i as int),
                forall|j: int| 0 <= j < cs.len() ==> (#[trigger] cs[j]).len() >= 1,
                spec_cum_points(cs, cs.len() as int) <= 65535,
                writer@ == hdr + spec_endpoints_bytes(cs, i as int),
            decreases n_contours - i,
        {
            proof {
                lemma_cum_points_mono(cs, i as int + 1, cs.len() as int);
                lemma_cum_points_mono(cs, 0, i as int);
                assert(self.contours@[i as int]@ == cs[i as int]);
            }
            cur = cur + self.contours[i].0.len();
            proof {
                assert(cur >= 1);
            }
            writer.write_u16((cur - 1) as u16);
            proof {
                assert(writer@ =~= hdr + spec_endpoints_bytes(cs, i as int + 1));
            }
            i = i + 1;
        }
        writer.write_u16(self.instructions.len() as u16);
        writer.write_bytes(self.instructions.as_slice());
        let ghost mid = writer@;
        let ghost entries = spec_entries(self.spec_points());
        let deltas = self.compute_point_deltas();
        proof {
            assert(deltas@ =~= entries);
        }
        let nd: usize = deltas.len();
        let mut k: usize = 0;
        while k < nd
            invariant
                deltas@ == entries,
                nd == entries.len(),
                k <= nd,
                writer@ == mid + spec_flags_bytes(entries, k as int),
            decreases nd - k,
        {
            writer.write_u8(deltas[k].0);
            proof {
                assert(writer@ =~= mid + spec_flags_bytes(entries, k as int + 1));
            }
            k = k + 1;
        }
        let ghost after_flags = writer@;
        let mut k2: usize = 0;
        while k2 < nd
            invariant
                deltas@ == entries,
                nd == entries.len(),
                k2 <= nd,
                writer@ == after_flags + spec_xs_bytes(entries, k2 as int),
            decreases nd - k2,
        {
            deltas[k2].1.write_into(writer);
            proof {
                assert(writer@ =~= after_flags + spec_xs_bytes(entries, k2 as int + 1));
            }
            k2 = k2 + 1;
        }
        let ghost after_xs = writer@;
        let mut k3: usize = 0;
        while k3 < nd
            invariant
                deltas@ == entries,
                nd == entries.len(),
                k3 <= nd,
                writer@ == after_xs + spec_ys_bytes(entries, k3 as int),
            decreases nd - k3,
        {
            deltas[k3].2.write_into(writer);
            proof {
                assert(writer@ =~= after_xs + spec_ys_bytes(entries, k3 as int + 1));
            }
            k3 = k3 + 1;
        }
        proof {
            assert(writer@ =~= base + spec_glyf_encoded(*self));
        }
    }
}

} // verus!
