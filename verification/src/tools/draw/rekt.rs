//! The rectangle, free or constrained to a square.

use vstd::prelude::*;
use crate::keymap::Modifiers;
use crate::record::{
    bool_of, field, lemma_locate_in_order, lemma_position_round_trip, lemma_record_data,
    locate, locate_fields, optional_position_data, optional_position_of,
    optional_position_value, position_data, position_of, position_value, read_bool,
    read_optional_position, read_position, record_data, Data, DecodeError, Field, Value,
};
use crate::tools::draw::draw::{abs, diff, diff_spec, magnitude, INITIAL_REACH};
use crate::tools::{point, point_at, Point, Segment};

verus! {

/// A rectangle from the position where it was started to the pointer.
#[derive(Debug, Clone, Copy, PartialEq, Eq)]
pub struct Rect {
    /// The corner at which the rectangle was started.
    pub start: (i32, i32),
    /// The last pointer position, as it came; none before the first motion.
    pub real_stop: Option<(i32, i32)>,
    /// Whether the rectangle is constrained to a square.
    pub square: bool,
}

/// A length of the given size with the sign of `like`; zero counts as
/// positive.
pub open spec fn with_sign_of(size: i64, like: i64) -> i64 {
    if like < 0 {
        (-size) as i64
    } else {
        size
    }
}

/// The extent of a constrained rectangle whose pointer is `d` away from the
/// start: the shorter side takes the length of the longer and keeps its own
/// direction.
pub open spec fn squared(d: (i64, i64)) -> (i64, i64) {
    if magnitude(d.0) > magnitude(d.1) {
        (d.0, with_sign_of(magnitude(d.0), d.1))
    } else if magnitude(d.1) > magnitude(d.0) {
        (with_sign_of(magnitude(d.1), d.0), d.1)
    } else {
        d
    }
}

impl Rect {
    /// The fresh rectangle started at `pos`.
    pub open spec fn started(pos: (i32, i32)) -> Rect {
        Rect { start: pos, real_stop: None, square: false }
    }

    /// The rectangle after the pointer moved to `motion`.
    pub open spec fn moved(self, motion: (i32, i32)) -> Rect {
        Rect { start: self.start, real_stop: Some(motion), square: self.square }
    }

    /// The rectangle after the modifier keys changed: shift constrains it.
    pub open spec fn modified(self, modifier: Modifiers) -> Rect {
        Rect { start: self.start, real_stop: self.real_stop, square: modifier.shift }
    }

    /// The signed width and height of the rectangle, from its start. Before
    /// the first motion both are a fixed reach. A free rectangle reaches to
    /// the pointer; a constrained one is the square on its longer side.
    pub open spec fn spec_extent(&self) -> (i64, i64) {
        match self.real_stop {
            None => (INITIAL_REACH, INITIAL_REACH),
            Some(motion) => {
                if self.square {
                    squared(diff_spec(self.start, motion))
                } else {
                    diff_spec(self.start, motion)
                }
            },
        }
    }

    /// The path of the rectangle: a move to its start, then the rectangle
    /// from there, with its signed width and height.
    pub open spec fn path(self) -> Seq<Segment> {
        seq![
            Segment::MoveTo(point_at(self.start)),
            Segment::Rect {
                origin: point_at(self.start),
                width: self.spec_extent().0,
                height: self.spec_extent().1,
            },
        ]
    }

    /// The lengths of the sides, and the corner opposite the start as the
    /// place for the label.
    pub open spec fn size(self) -> ((i64, i64), Point) {
        (
            (magnitude(self.spec_extent().0), magnitude(self.spec_extent().1)),
            Point {
                x: (self.start.0 + self.spec_extent().0) as i64,
                y: (self.start.1 + self.spec_extent().1) as i64,
            },
        )
    }

    /// A rectangle that starts at a pointer position.
    pub fn new(pos: (i32, i32)) -> (rect: Rect)
        ensures
            rect == Rect::started(pos),
    {
        Rect { start: pos, real_stop: None, square: false }
    }

    /// Takes in a new pointer position.
    pub fn update(&mut self, motion: (i32, i32))
        ensures
            *final(self) == old(self).moved(motion),
    {
        self.real_stop = Some(motion);
    }

    /// Takes in the state of the modifier keys.
    pub fn modifier(&mut self, modifier: &Modifiers)
        ensures
            *final(self) == old(self).modified(*modifier),
    {
        self.square = modifier.shift;
    }

    /// The signed width and height of the rectangle.
    #[verifier::when_used_as_spec(spec_extent)]
    pub fn extent(&self) -> (e: (i64, i64))
        ensures
            e == self.spec_extent(),
            -0x1_0000_0000 < e.0 < 0x1_0000_0000,
            -0x1_0000_0000 < e.1 < 0x1_0000_0000,
    {
        match self.real_stop {
            None => (INITIAL_REACH, INITIAL_REACH),
            Some(motion) => {
                let d = diff(self.start, motion);
                if self.square {
                    let w = abs(d.0);
                    let h = abs(d.1);
                    if w > h {
                        (
                            d.0,
                            if d.1 < 0 {
                                -w
                            } else {
                                w
                            },
                        )
                    } else if h > w {
                        (
                            if d.0 < 0 {
                                -h
                            } else {
                                h
                            },
                            d.1,
                        )
                    } else {
                        d
                    }
                } else {
                    d
                }
            },
        }
    }

    /// The path of the rectangle.
    pub fn draw(&self) -> (path: Vec<Segment>)
        ensures
            path@ == self.path(),
    {
        let e = self.extent();
        let origin = point(self.start);
        let mut path: Vec<Segment> = Vec::new();
        path.push(Segment::MoveTo(origin));
        path.push(Segment::Rect { origin, width: e.0, height: e.1 });
        assert(path@ =~= self.path());
        path
    }

    /// The lengths of the sides, and where to write them.
    pub fn draw_size(&self) -> (size: ((i64, i64), Point))
        ensures
            size == self.size(),
    {
        let e = self.extent();
        (
            (abs(e.0), abs(e.1)),
            Point { x: self.start.0 as i64 + e.0, y: self.start.1 as i64 + e.1 },
        )
    }
}

/// The four corners of a rectangle, as a set.
pub open spec fn corners(origin: Point, width: i64, height: i64) -> Set<(int, int)> {
    set![
        (origin.x as int, origin.y as int),
        (origin.x + width, origin.y as int),
        (origin.x + width, origin.y + height),
        (origin.x as int, origin.y + height),
    ]
}

/// A second motion to the same position changes nothing.
pub proof fn lemma_rect_update_idempotent(rect: Rect, motion: (i32, i32))
    ensures
        rect.moved(motion).moved(motion) == rect.moved(motion),
{
}

/// A constrained rectangle is a square: its sides are of one length, the
/// longer of the two ways from the start to the pointer, and each side
/// points the way the pointer went.
pub proof fn lemma_rect_square(rect: Rect)
    requires
        rect.square,
        rect.real_stop is Some,
    ensures
        magnitude(rect.spec_extent().0) == magnitude(rect.spec_extent().1),
        magnitude(rect.spec_extent().0) == vstd::math::max(
            magnitude(diff_spec(rect.start, rect.real_stop->0).0) as int,
            magnitude(diff_spec(rect.start, rect.real_stop->0).1) as int,
        ),
        diff_spec(rect.start, rect.real_stop->0).0 < 0 ==> rect.spec_extent().0 < 0,
        diff_spec(rect.start, rect.real_stop->0).0 > 0 ==> rect.spec_extent().0 > 0,
        diff_spec(rect.start, rect.real_stop->0).1 < 0 ==> rect.spec_extent().1 < 0,
        diff_spec(rect.start, rect.real_stop->0).1 > 0 ==> rect.spec_extent().1 > 0,
{
}

/// A rectangle with a negative width or height has the corners of the
/// rectangle that starts at the opposite corner and has the sides turned
/// round.
pub proof fn lemma_rect_mirrored(origin: Point, width: i64, height: i64)
    requires
        i64::MIN < width,
        i64::MIN < height,
        i64::MIN <= origin.x + width <= i64::MAX,
        i64::MIN <= origin.y + height <= i64::MAX,
    ensures
        corners(origin, width, height) == corners(
            Point { x: (origin.x + width) as i64, y: (origin.y + height) as i64 },
            (-width) as i64,
            (-height) as i64,
        ),
        corners(origin, width, height) == corners(
            Point { x: (origin.x + width) as i64, y: origin.y },
            (-width) as i64,
            height,
        ),
        corners(origin, width, height) == corners(
            Point { x: origin.x, y: (origin.y + height) as i64 },
            width,
            (-height) as i64,
        ),
{
    let a = corners(origin, width, height);
    let b = corners(
        Point { x: (origin.x + width) as i64, y: (origin.y + height) as i64 },
        (-width) as i64,
        (-height) as i64,
    );
    let c = corners(
        Point { x: (origin.x + width) as i64, y: origin.y },
        (-width) as i64,
        height,
    );
    let d = corners(
        Point { x: origin.x, y: (origin.y + height) as i64 },
        width,
        (-height) as i64,
    );
    assert(a =~= b);
    assert(a =~= c);
    assert(a =~= d);
}

/// The names of the fields of a rectangle, in the order in which it is
/// written.
pub open spec fn rect_names() -> Seq<&'static str> {
    seq!["start", "real_stop", "square"]
}

/// The tree of a rectangle: a record of its three fields.
pub open spec fn rect_data(rect: Rect) -> Data {
    Data::Record(
        seq![
            ("start"@, position_data(rect.start)),
            ("real_stop"@, optional_position_data(rect.real_stop)),
            ("square"@, Data::Bool(rect.square)),
        ],
    )
}

/// The rectangle that a tree stands for. The tree is a record of the three
/// fields, in any order; the fields are read in the order of their names.
pub open spec fn rect_of(d: Data) -> Result<Rect, DecodeError> {
    match d {
        Data::Record(fields) => match locate_fields(fields, rect_names()) {
            Err(e) => Err(e),
            Ok(at) => match position_of(fields[at[0] as int].1) {
                Err(e) => Err(e),
                Ok(start) => match optional_position_of(fields[at[1] as int].1) {
                    Err(e) => Err(e),
                    Ok(real_stop) => match bool_of(fields[at[2] as int].1) {
                        Err(e) => Err(e),
                        Ok(square) => Ok(Rect { start, real_stop, square }),
                    },
                },
            },
        },
        _ => Err(DecodeError::InvalidType),
    }
}

proof fn lemma_rect_names_distinct()
    ensures
        rect_names().len() == 3,
        forall|i: int, j: int|
            0 <= i < j < rect_names().len() ==> (#[trigger] rect_names()[i])@ != (
            #[trigger] rect_names()[j])@,
{
    reveal_strlit("start");
    reveal_strlit("real_stop");
    reveal_strlit("square");
    let names = rect_names();
    assert(names[0]@.len() == 5);
    assert(names[1]@.len() == 9);
    assert(names[2]@.len() == 6);
}

/// Reading the tree of a rectangle gives the rectangle back.
pub proof fn lemma_rect_round_trip(rect: Rect)
    ensures
        rect_of(rect_data(rect)) == Ok::<Rect, DecodeError>(rect),
{
    let fields = rect_data(rect)->Record_0;
    lemma_rect_names_distinct();
    lemma_locate_in_order(fields, rect_names());
    lemma_position_round_trip(rect.start);
    if rect.real_stop is Some {
        lemma_position_round_trip(rect.real_stop->0);
    }
}

fn rect_fields() -> (names: Vec<&'static str>)
    ensures
        names@ == rect_names(),
{
    let mut names: Vec<&'static str> = Vec::new();
    names.push("start");
    names.push("real_stop");
    names.push("square");
    assert(names@ =~= rect_names());
    names
}

impl Rect {
    /// The tree of this rectangle.
    pub fn serialize(&self) -> (v: Value)
        ensures
            v@ == rect_data(*self),
    {
        let mut fields: Vec<Field> = Vec::new();
        fields.push(field("start", position_value(self.start)));
        fields.push(field("real_stop", optional_position_value(self.real_stop)));
        fields.push(field("square", Value::Bool(self.square)));
        proof {
            lemma_record_data(fields, 3);
            assert(record_data(fields, 3) =~= rect_data(*self)->Record_0);
        }
        Value::Record(fields)
    }

    /// Reads a rectangle from its tree.
    pub fn deserialize(v: &Value) -> (r: Result<Rect, DecodeError>)
        ensures
            r == rect_of(v@),
    {
        match v {
            Value::Record(fields) => {
                proof {
                    lemma_record_data(*fields, fields@.len());
                }
                let names = rect_fields();
                let at = match locate(fields, &names) {
                    Ok(at) => at,
                    Err(e) => {
                        return Err(e);
                    },
                };
                let start = match read_position(&fields[at[0]].value) {
                    Ok(start) => start,
                    Err(e) => {
                        return Err(e);
                    },
                };
                let real_stop = match read_optional_position(&fields[at[1]].value) {
                    Ok(real_stop) => real_stop,
                    Err(e) => {
                        return Err(e);
                    },
                };
                let square = match read_bool(&fields[at[2]].value) {
                    Ok(square) => square,
                    Err(e) => {
                        return Err(e);
                    },
                };
                Ok(Rect { start, real_stop, square })
            },
            _ => Err(DecodeError::InvalidType),
        }
    }
}

} // verus!
