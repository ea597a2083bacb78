//! The circle between two positions.

use vstd::prelude::*;
use crate::record::{
    field, lemma_locate_in_order, lemma_position_round_trip, lemma_record_data, locate,
    locate_fields, position_data, position_of, position_value, read_position, record_data,
    Data, DecodeError, Field, Value,
};
use crate::tools::draw::draw::diff;
use crate::tools::{point, point_at, Point, Segment};

verus! {

/// A circle between the position where it was started and the pointer.
#[derive(Debug, Clone, Copy, PartialEq, Eq)]
pub struct Circle {
    /// Where the circle was started.
    pub start: (i32, i32),
    /// The last pointer position; the start itself before the first motion.
    pub stop: (i32, i32),
}

/// Whether `r` is the square root of `n`, rounded down.
pub open spec fn is_sqrt_floor(n: nat, r: nat) -> bool {
    r * r <= n && n < (r + 1) * (r + 1)
}

/// The square root of `n`, rounded down.
pub open spec fn sqrt_floor(n: nat) -> nat {
    choose|r: nat| is_sqrt_floor(n, r)
}

/// No number has two rounded-down square roots.
pub proof fn lemma_sqrt_floor_unique(n: nat, a: nat, b: nat)
    requires
        is_sqrt_floor(n, a),
        is_sqrt_floor(n, b),
    ensures
        a == b,
{
    if a < b {
        assert((a + 1) * (a + 1) <= b * b) by (nonlinear_arith)
            requires
                a + 1 <= b,
        ;
    } else if b < a {
        assert((b + 1) * (b + 1) <= a * a) by (nonlinear_arith)
            requires
                b + 1 <= a,
        ;
    }
}

/// The square root of `n`, rounded down.
pub fn isqrt(n: u128) -> (r: u64)
    ensures
        is_sqrt_floor(n as nat, r as nat),
        r == sqrt_floor(n as nat),
{
    let mut lo: u128 = 0;
    let mut hi: u128 = 0x1_0000_0000_0000_0000;
    assert(n < hi * hi) by (nonlinear_arith)
        requires
            hi == 0x1_0000_0000_0000_0000,
            n <= u128::MAX,
    ;
    while hi - lo > 1
        invariant
            lo < hi <= 0x1_0000_0000_0000_0000,
            lo * lo <= n < hi * hi,
        decreases hi - lo,
    {
        let mid: u128 = lo + (hi - lo) / 2;
        assert(mid * mid <= u128::MAX) by (nonlinear_arith)
            requires
                mid < 0x1_0000_0000_0000_0000,
        ;
        if mid * mid <= n {
            lo = mid;
        } else {
            hi = mid;
        }
    }
    proof {
        assert(hi == lo + 1);
        assert(is_sqrt_floor(n as nat, lo as nat));
        lemma_sqrt_floor_unique(n as nat, lo as nat, sqrt_floor(n as nat));
    }
    lo as u64
}

/// Half of `v`, rounded down.
pub open spec fn half(v: int) -> int {
    v / 2
}

impl Circle {
    /// The fresh circle started at `pos`.
    pub open spec fn started(pos: (i32, i32)) -> Circle {
        Circle { start: pos, stop: pos }
    }

    /// The circle after the pointer moved to `motion`.
    pub open spec fn moved(self, motion: (i32, i32)) -> Circle {
        Circle { start: self.start, stop: motion }
    }

    /// The square of the distance between the two positions.
    pub open spec fn distance_squared(self) -> nat {
        ((self.stop.0 - self.start.0) * (self.stop.0 - self.start.0) + (self.stop.1
            - self.start.1) * (self.stop.1 - self.start.1)) as nat
    }

    /// The centre of the circle: the point half way between the two
    /// positions, each coordinate rounded down.
    pub open spec fn center(self) -> Point {
        Point {
            x: half(self.start.0 + self.stop.0) as i64,
            y: half(self.start.1 + self.stop.1) as i64,
        }
    }

    /// The radius of the circle: a quarter of the distance between the two
    /// positions, rounded down. Half the distance would put both positions
    /// on the circle; the circle drawn is half as wide as that.
    pub open spec fn radius(self) -> i64 {
        (sqrt_floor(self.distance_squared()) / 4) as i64
    }

    /// The path of the circle: one full turn around its centre.
    pub open spec fn path(self) -> Seq<Segment> {
        seq![Segment::Arc { center: self.center(), radius: self.radius() }]
    }

    /// The width and height of the circle, and the pointer's position as
    /// the place for the label.
    pub open spec fn size(self) -> ((i64, i64), Point) {
        (((2 * self.radius()) as i64, (2 * self.radius()) as i64), point_at(self.stop))
    }

    /// A circle that starts at a pointer position.
    pub fn new(pos: (i32, i32)) -> (circle: Circle)
        ensures
            circle == Circle::started(pos),
    {
        Circle { start: pos, stop: pos }
    }

    /// Takes in a new pointer position.
    pub fn update(&mut self, motion: (i32, i32))
        ensures
            *final(self) == old(self).moved(motion),
    {
        self.stop = motion;
    }

    /// The centre and the radius of the circle.
    pub fn arc(&self) -> (arc: (Point, i64))
        ensures
            arc.0 == self.center(),
            arc.1 == self.radius(),
            0 <= arc.1 < 0x8000_0000,
    {
        let d = diff(self.start, self.stop);
        let w: u128 = if d.0 < 0 {
            (-d.0) as u128
        } else {
            d.0 as u128
        };
        let h: u128 = if d.1 < 0 {
            (-d.1) as u128
        } else {
            d.1 as u128
        };
        assert(w * w <= 0x1_0000_0000 * 0x1_0000_0000) by (nonlinear_arith)
            requires
                w <= 0x1_0000_0000,
        ;
        assert(h * h <= 0x1_0000_0000 * 0x1_0000_0000) by (nonlinear_arith)
            requires
                h <= 0x1_0000_0000,
        ;
        assert(w * w == d.0 * d.0) by (nonlinear_arith)
            requires
                w == d.0 || w == -d.0,
        ;
        assert(h * h == d.1 * d.1) by (nonlinear_arith)
            requires
                h == d.1 || h == -d.1,
        ;
        let squared: u128 = w * w + h * h;
        assert(squared == self.distance_squared());
        let distance = isqrt(squared);
        assert(distance < 0x2_0000_0000) by (nonlinear_arith)
            requires
                distance * distance <= squared,
                squared <= 2 * (0x1_0000_0000 * 0x1_0000_0000),
        ;
        let sx: i64 = self.start.0 as i64 + self.stop.0 as i64;
        let sy: i64 = self.start.1 as i64 + self.stop.1 as i64;
        (Point { x: half_of(sx), y: half_of(sy) }, (distance / 4) as i64)
    }

    /// The path of the circle.
    pub fn draw(&self) -> (path: Vec<Segment>)
        ensures
            path@ == self.path(),
    {
        let arc = self.arc();
        let mut path: Vec<Segment> = Vec::new();
        path.push(Segment::Arc { center: arc.0, radius: arc.1 });
        assert(path@ =~= self.path());
        path
    }

    /// The width and height of the circle, and where to write them.
    pub fn draw_size(&self) -> (size: ((i64, i64), Point))
        ensures
            size == self.size(),
    {
        let arc = self.arc();
        ((2 * arc.1, 2 * arc.1), point(self.stop))
    }
}

fn half_of(v: i64) -> (h: i64)
    requires
        -0x1_0000_0000 <= v <= 0x1_0000_0000,
    ensures
        h == half(v as int),
{
    if v >= 0 {
        v / 2
    } else {
        -((1 - v) / 2)
    }
}

/// A second motion to the same position changes nothing.
pub proof fn lemma_circle_update_idempotent(circle: Circle, motion: (i32, i32))
    ensures
        circle.moved(motion).moved(motion) == circle.moved(motion),
{
}

/// The radius is the largest whole length of which four, laid end to end,
/// are no longer than the way between the two positions.
pub proof fn lemma_circle_radius(circle: Circle)
    ensures
        0 <= circle.radius(),
        (4 * circle.radius()) * (4 * circle.radius()) <= circle.distance_squared(),
        circle.distance_squared() < (4 * circle.radius() + 4) * (4 * circle.radius() + 4),
{
    let n = circle.distance_squared();
    let dx = circle.stop.0 - circle.start.0;
    let dy = circle.stop.1 - circle.start.1;
    assert(0 <= dx * dx <= 0x1_0000_0000 * 0x1_0000_0000) by (nonlinear_arith)
        requires
            -0x1_0000_0000 <= dx <= 0x1_0000_0000,
    ;
    assert(0 <= dy * dy <= 0x1_0000_0000 * 0x1_0000_0000) by (nonlinear_arith)
        requires
            -0x1_0000_0000 <= dy <= 0x1_0000_0000,
    ;
    lemma_sqrt_floor_exists(n);
    let s = sqrt_floor(n);
    let r = s / 4;
    assert(s < 0x2_0000_0000) by (nonlinear_arith)
        requires
            s * s <= n,
            n <= 2 * (0x1_0000_0000 * 0x1_0000_0000),
    ;
    assert(circle.radius() == r);
    assert((4 * r) * (4 * r) <= s * s) by (nonlinear_arith)
        requires
            0 <= 4 * r <= s,
    ;
    assert((s + 1) * (s + 1) <= (4 * r + 4) * (4 * r + 4)) by (nonlinear_arith)
        requires
            0 <= s + 1 <= 4 * r + 4,
    ;
}

/// Every number has a rounded-down square root.
pub proof fn lemma_sqrt_floor_exists(n: nat)
    ensures
        is_sqrt_floor(n, sqrt_floor(n)),
    decreases n,
{
    if n == 0 {
        assert(0nat * 0nat == 0 && (0nat + 1) * (0nat + 1) == 1) by (nonlinear_arith);
        assert(is_sqrt_floor(0, 0));
    } else {
        lemma_sqrt_floor_exists((n - 1) as nat);
        let r = sqrt_floor((n - 1) as nat);
        if n < (r + 1) * (r + 1) {
            assert(is_sqrt_floor(n, r));
        } else {
            assert(n == (r + 1) * (r + 1));
            assert((r + 1) * (r + 1) < (r + 1 + 1) * (r + 1 + 1)) by (nonlinear_arith);
            assert(is_sqrt_floor(n, r + 1));
        }
    }
}

/// The names of the fields of a circle, in the order in which it is
/// written.
pub open spec fn circle_names() -> Seq<&'static str> {
    seq!["start", "stop"]
}

/// The tree of a circle: a record of its two positions.
pub open spec fn circle_data(circle: Circle) -> Data {
    Data::Record(
        seq![("start"@, position_data(circle.start)), ("stop"@, position_data(circle.stop))],
    )
}

/// The circle that a tree stands for. The tree is a record of the two
/// positions, in either order; the start is read first.
pub open spec fn circle_of(d: Data) -> Result<Circle, DecodeError> {
    match d {
        Data::Record(fields) => match locate_fields(fields, circle_names()) {
            Err(e) => Err(e),
            Ok(at) => match position_of(fields[at[0] as int].1) {
                Err(e) => Err(e),
                Ok(start) => match position_of(fields[at[1] as int].1) {
                    Err(e) => Err(e),
                    Ok(stop) => Ok(Circle { start, stop }),
                },
            },
        },
        _ => Err(DecodeError::InvalidType),
    }
}

proof fn lemma_circle_names_distinct()
    ensures
        circle_names().len() == 2,
        forall|i: int, j: int|
            0 <= i < j < circle_names().len() ==> (#[trigger] circle_names()[i])@ != (
            #[trigger] circle_names()[j])@,
{
    reveal_strlit("start");
    reveal_strlit("stop");
    let names = circle_names();
    assert(names[0]@.len() == 5);
    assert(names[1]@.len() == 4);
}

/// Reading the tree of a circle gives the circle back.
pub proof fn lemma_circle_round_trip(circle: Circle)
    ensures
        circle_of(circle_data(circle)) == Ok::<Circle, DecodeError>(circle),
{
    let fields = circle_data(circle)->Record_0;
    lemma_circle_names_distinct();
    lemma_locate_in_order(fields, circle_names());
    lemma_position_round_trip(circle.start);
    lemma_position_round_trip(circle.stop);
}

fn circle_fields() -> (names: Vec<&'static str>)
    ensures
        names@ == circle_names(),
{
    let mut names: Vec<&'static str> = Vec::new();
    names.push("start");
    names.push("stop");
    assert(names@ =~= circle_names());
    names
}

impl Circle {
    /// The tree of this circle.
    pub fn serialize(&self) -> (v: Value)
        ensures
            v@ == circle_data(*self),
    {
        let mut fields: Vec<Field> = Vec::new();
        fields.push(field("start", position_value(self.start)));
        fields.push(field("stop", position_value(self.stop)));
        proof {
            lemma_record_data(fields, 2);
            assert(record_data(fields, 2) =~= circle_data(*self)->Record_0);
        }
        Value::Record(fields)
    }

    /// Reads a circle from its tree.
    pub fn deserialize(v: &Value) -> (r: Result<Circle, DecodeError>)
        ensures
            r == circle_of(v@),
    {
        match v {
            Value::Record(fields) => {
                proof {
                    lemma_record_data(*fields, fields@.len());
                }
                let names = circle_fields();
                let at = match locate(fields, &names) {
                    Ok(at) => at,
                    Err(e) => {
                        return Err(e);
                    },
                };
                let start = match read_position(&fields[at[0]].value) {
                    Ok(start) => start,
                    Err(e) => {
                        return Err(e);
                    },
                };
                let stop = match read_position(&fields[at[1]].value) {
                    Ok(stop) => stop,
                    Err(e) => {
                        return Err(e);
                    },
                };
                Ok(Circle { start, stop })
            },
            _ => Err(DecodeError::InvalidType),
        }
    }
}

} // verus!
