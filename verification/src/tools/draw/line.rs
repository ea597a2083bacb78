//! The straight line, free or locked to an axis.

use vstd::prelude::*;
use crate::keymap::Modifiers;
use crate::record::{
    bool_of, field, lemma_locate_in_order, lemma_position_round_trip, lemma_record_data,
    locate, locate_fields, optional_position_data, optional_position_of,
    optional_position_value, position_data, position_of, position_value, read_bool,
    read_optional_position, read_position, record_data, Data, DecodeError, Field, Value,
};
use crate::tools::draw::draw::{abs, diff, magnitude, INITIAL_REACH};
use crate::tools::{point, point_at, Point, Segment};

verus! {

/// A line from the position where it was started to the pointer.
#[derive(Debug, Clone, Copy, PartialEq, Eq)]
pub struct Line {
    /// Where the line starts.
    pub start: (i32, i32),
    /// The last pointer position, as it came; none before the first motion.
    pub real_stop: Option<(i32, i32)>,
    /// Whether the line is locked to the axis along which the pointer has
    /// moved further.
    pub straight: bool,
}

impl Line {
    /// The fresh line started at `pos`.
    pub open spec fn started(pos: (i32, i32)) -> Line {
        Line { start: pos, real_stop: None, straight: false }
    }

    /// The line after the pointer moved to `motion`.
    pub open spec fn moved(self, motion: (i32, i32)) -> Line {
        Line { start: self.start, real_stop: Some(motion), straight: self.straight }
    }

    /// The line after the modifier keys changed: shift locks it.
    pub open spec fn modified(self, modifier: Modifiers) -> Line {
        Line { start: self.start, real_stop: self.real_stop, straight: modifier.shift }
    }

    /// Where the line ends. Before the first motion that is a fixed reach
    /// away from the start. A free line ends at the pointer. A locked line
    /// keeps the pointer's coordinate on the axis along which it has moved
    /// further from the start, and the start's coordinate on the other; the
    /// vertical axis wins a tie.
    pub open spec fn spec_stop(&self) -> Point {
        match self.real_stop {
            None => Point {
                x: (self.start.0 + INITIAL_REACH) as i64,
                y: (self.start.1 + INITIAL_REACH) as i64,
            },
            Some(motion) => {
                if self.straight {
                    if magnitude((motion.0 - self.start.0) as i64) > magnitude(
                        (motion.1 - self.start.1) as i64,
                    ) {
                        Point { x: motion.0 as i64, y: self.start.1 as i64 }
                    } else {
                        Point { x: self.start.0 as i64, y: motion.1 as i64 }
                    }
                } else {
                    point_at(motion)
                }
            },
        }
    }

    /// The path of the line: a move to the start, a line to the end.
    pub open spec fn path(self) -> Seq<Segment> {
        seq![Segment::MoveTo(point_at(self.start)), Segment::LineTo(self.spec_stop())]
    }

    /// How far the line reaches along each axis, and its end as the place
    /// for the label.
    pub open spec fn size(self) -> ((i64, i64), Point) {
        (
            (
                magnitude((self.spec_stop().x - self.start.0) as i64),
                magnitude((self.spec_stop().y - self.start.1) as i64),
            ),
            self.spec_stop(),
        )
    }

    /// A line that starts at a pointer position.
    pub fn new(pos: (i32, i32)) -> (line: Line)
        ensures
            line == Line::started(pos),
    {
        Line { start: pos, real_stop: None, straight: false }
    }

    /// Takes in a new pointer position.
    pub fn update(&mut self, motion: (i32, i32))
        ensures
            *final(self) == old(self).moved(motion),
    {
        self.real_stop = Some(motion);
    }

    /// Takes in the state of the modifier keys. The pointer position is
    /// kept as it came, so that the line follows it again once shift is
    /// released.
    pub fn modifier(&mut self, modifier: &Modifiers)
        ensures
            *final(self) == old(self).modified(*modifier),
    {
        self.straight = modifier.shift;
    }

    /// Where the line ends.
    #[verifier::when_used_as_spec(spec_stop)]
    pub fn stop(&self) -> (p: Point)
        ensures
            p == self.spec_stop(),
    {
        match self.real_stop {
            None => Point {
                x: self.start.0 as i64 + INITIAL_REACH,
                y: self.start.1 as i64 + INITIAL_REACH,
            },
            Some(motion) => {
                if self.straight {
                    let d = diff(self.start, motion);
                    if abs(d.0) > abs(d.1) {
                        Point { x: motion.0 as i64, y: self.start.1 as i64 }
                    } else {
                        Point { x: self.start.0 as i64, y: motion.1 as i64 }
                    }
                } else {
                    point(motion)
                }
            },
        }
    }

    /// The path of the line.
    pub fn draw(&self) -> (path: Vec<Segment>)
        ensures
            path@ == self.path(),
    {
        let mut path: Vec<Segment> = Vec::new();
        path.push(Segment::MoveTo(point(self.start)));
        path.push(Segment::LineTo(self.stop()));
        assert(path@ =~= self.path());
        path
    }

    /// How far the line reaches along each axis, and where to write it.
    pub fn draw_size(&self) -> (size: ((i64, i64), Point))
        ensures
            size == self.size(),
    {
        let stop = self.stop();
        ((abs(stop.x - self.start.0 as i64), abs(stop.y - self.start.1 as i64)), stop)
    }
}

/// A second motion to the same position changes nothing.
pub proof fn lemma_line_update_idempotent(line: Line, motion: (i32, i32))
    ensures
        line.moved(motion).moved(motion) == line.moved(motion),
{
}

/// A locked line that has seen a motion lies along an axis through its
/// start.
pub proof fn lemma_line_locked(line: Line)
    requires
        line.straight,
        line.real_stop is Some,
    ensures
        line.spec_stop().x == line.start.0 || line.spec_stop().y == line.start.1,
{
}

/// Locking and releasing a line leaves it where the pointer is.
pub proof fn lemma_line_release(line: Line, locked: Modifiers, released: Modifiers)
    requires
        line.real_stop is Some,
        !released.shift,
    ensures
        line.modified(locked).modified(released).spec_stop() == point_at(line.real_stop->0),
{
}

/// The names of the fields of a line, in the order in which it is written.
pub open spec fn line_names() -> Seq<&'static str> {
    seq!["start", "real_stop", "straight"]
}

/// The tree of a line: a record of its three fields.
pub open spec fn line_data(line: Line) -> Data {
    Data::Record(
        seq![
            ("start"@, position_data(line.start)),
            ("real_stop"@, optional_position_data(line.real_stop)),
            ("straight"@, Data::Bool(line.straight)),
        ],
    )
}

/// The line that a tree stands for. The tree is a record of the three
/// fields, in any order; the fields are read in the order of their names.
pub open spec fn line_of(d: Data) -> Result<Line, DecodeError> {
    match d {
        Data::Record(fields) => match locate_fields(fields, line_names()) {
            Err(e) => Err(e),
            Ok(at) => match position_of(fields[at[0] as int].1) {
                Err(e) => Err(e),
                Ok(start) => match optional_position_of(fields[at[1] as int].1) {
                    Err(e) => Err(e),
                    Ok(real_stop) => match bool_of(fields[at[2] as int].1) {
                        Err(e) => Err(e),
                        Ok(straight) => Ok(Line { start, real_stop, straight }),
                    },
                },
            },
        },
        _ => Err(DecodeError::InvalidType),
    }
}

proof fn lemma_line_names_distinct()
    ensures
        line_names().len() == 3,
        forall|i: int, j: int|
            0 <= i < j < line_names().len() ==> (#[trigger] line_names()[i])@ != (
            #[trigger] line_names()[j])@,
{
    reveal_strlit("start");
    reveal_strlit("real_stop");
    reveal_strlit("straight");
    let names = line_names();
    assert(names[0]@.len() == 5);
    assert(names[1]@.len() == 9);
    assert(names[2]@.len() == 8);
}

/// Reading the tree of a line gives the line back.
pub proof fn lemma_line_round_trip(line: Line)
    ensures
        line_of(line_data(line)) == Ok::<Line, DecodeError>(line),
{
    let fields = line_data(line)->Record_0;
    lemma_line_names_distinct();
    lemma_locate_in_order(fields, line_names());
    lemma_position_round_trip(line.start);
    if line.real_stop is Some {
        lemma_position_round_trip(line.real_stop->0);
    }
}

fn line_fields() -> (names: Vec<&'static str>)
    ensures
        names@ == line_names(),
{
    let mut names: Vec<&'static str> = Vec::new();
    names.push("start");
    names.push("real_stop");
    names.push("straight");
    assert(names@ =~= line_names());
    names
}

impl Line {
    /// The tree of this line.
    pub fn serialize(&self) -> (v: Value)
        ensures
            v@ == line_data(*self),
    {
        let mut fields: Vec<Field> = Vec::new();
        fields.push(field("start", position_value(self.start)));
        fields.push(field("real_stop", optional_position_value(self.real_stop)));
        fields.push(field("straight", Value::Bool(self.straight)));
        proof {
            lemma_record_data(fields, 3);
            assert(record_data(fields, 3) =~= line_data(*self)->Record_0);
        }
        Value::Record(fields)
    }

    /// Reads a line from its tree.
    pub fn deserialize(v: &Value) -> (r: Result<Line, DecodeError>)
        ensures
            r == line_of(v@),
    {
        match v {
            Value::Record(fields) => {
                proof {
                    lemma_record_data(*fields, fields@.len());
                }
                let names = line_fields();
                let at = match locate(fields, &names) {
                    Ok(at) => at,
                    Err(e) => {
                        return Err(e);
                    },
                };
                let start = match read_position(&fields[at[0]].value) {
                    Ok(start) => start,
                    Err(e) => {
                        return Err(e);
                    },
                };
                let real_stop = match read_optional_position(&fields[at[1]].value) {
                    Ok(real_stop) => real_stop,
                    Err(e) => {
                        return Err(e);
                    },
                };
                let straight = match read_bool(&fields[at[2]].value) {
                    Ok(straight) => straight,
                    Err(e) => {
                        return Err(e);
                    },
                };
                Ok(Line { start, real_stop, straight })
            },
            _ => Err(DecodeError::InvalidType),
        }
    }
}

} // verus!
