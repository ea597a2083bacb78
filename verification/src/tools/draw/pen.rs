//! The freehand pen: every pointer position it was given, in order.

use vstd::prelude::*;
use crate::record::{
    lemma_list_data, lemma_position_round_trip, list_data, position_data, position_of,
    position_value, read_position, Data, DecodeError, Value,
};
use crate::tools::{point, point_at, Segment};

verus! {

/// A freehand stroke.
#[derive(Debug, PartialEq, Eq)]
pub struct Pen {
    /// The positions the pointer went through, oldest first.
    pub lines: Vec<(i32, i32)>,
}

impl View for Pen {
    type V = Seq<(i32, i32)>;

    open spec fn view(&self) -> Seq<(i32, i32)> {
        self.lines@
    }
}

/// The path of a stroke: a move to the first position, then for each later
/// position a line to it and a move to it, so that every piece of the
/// stroke is a sub-path of its own. No position gives the empty path.
pub open spec fn pen_path(points: Seq<(i32, i32)>) -> Seq<Segment>
    decreases points.len(),
{
    if points.len() == 0 {
        Seq::empty()
    } else if points.len() == 1 {
        seq![Segment::MoveTo(point_at(points[0]))]
    } else {
        pen_path(points.drop_last()).push(Segment::LineTo(point_at(points.last()))).push(
            Segment::MoveTo(point_at(points.last())),
        )
    }
}

/// Where each position of a stroke stands in its path.
pub proof fn lemma_pen_path(points: Seq<(i32, i32)>)
    requires
        points.len() > 0,
    ensures
        pen_path(points).len() == 2 * points.len() - 1,
        pen_path(points)[0] == Segment::MoveTo(point_at(points[0])),
        forall|i: int|
            1 <= i < points.len() ==> #[trigger] pen_path(points)[2 * i - 1] == Segment::LineTo(
                point_at(points[i]),
            ),
        forall|i: int|
            1 <= i < points.len() ==> #[trigger] pen_path(points)[2 * i] == Segment::MoveTo(
                point_at(points[i]),
            ),
    decreases points.len(),
{
    if points.len() > 1 {
        lemma_pen_path(points.drop_last());
        let rest = pen_path(points.drop_last());
        let n = points.len() - 1;
        assert forall|i: int| 1 <= i < points.len() implies #[trigger] pen_path(points)[2 * i - 1]
            == Segment::LineTo(point_at(points[i])) by {
            if i < n {
                assert(rest[2 * i - 1] == Segment::LineTo(point_at(points.drop_last()[i])));
            }
        }
        assert forall|i: int| 1 <= i < points.len() implies #[trigger] pen_path(points)[2 * i]
            == Segment::MoveTo(point_at(points[i])) by {
            if i < n {
                assert(rest[2 * i] == Segment::MoveTo(point_at(points.drop_last()[i])));
            }
        }
    }
}

impl Pen {
    /// A stroke that starts at a pointer position.
    pub fn new(pos: (i32, i32)) -> (pen: Pen)
        ensures
            pen@ == seq![pos],
    {
        let mut lines = Vec::new();
        lines.push(pos);
        assert(lines@ =~= seq![pos]);
        Pen { lines }
    }

    /// Appends a pointer position. The positions before stay as they are.
    pub fn update(&mut self, motion: (i32, i32))
        ensures
            final(self)@ == old(self)@.push(motion),
    {
        self.lines.push(motion);
    }

    /// The path of the stroke.
    pub fn draw(&self) -> (path: Vec<Segment>)
        ensures
            path@ == pen_path(self@),
    {
        let mut path: Vec<Segment> = Vec::new();
        if self.lines.len() == 0 {
            return path;
        }
        path.push(Segment::MoveTo(point(self.lines[0])));
        assert(self.lines@.take(1) =~= seq![self.lines@[0]]);
        let mut i: usize = 1;
        while i < self.lines.len()
            invariant
                1 <= i <= self.lines@.len(),
                path@ == pen_path(self.lines@.take(i as int)),
            decreases self.lines@.len() - i,
        {
            let p = point(self.lines[i]);
            path.push(Segment::LineTo(p));
            path.push(Segment::MoveTo(p));
            proof {
                let next = self.lines@.take(i + 1);
                assert(next.drop_last() =~= self.lines@.take(i as int));
                assert(next.last() == self.lines@[i as int]);
            }
            i += 1;
        }
        assert(self.lines@.take(i as int) =~= self.lines@);
        path
    }
}

/// The trees of some pointer positions.
pub open spec fn positions_data(points: Seq<(i32, i32)>) -> Seq<Data> {
    Seq::new(points.len(), |i: int| position_data(points[i]))
}

/// The pointer positions that the first `n` trees stand for; the first
/// that is no position is the error.
pub open spec fn positions_of(items: Seq<Data>, n: nat) -> Result<Seq<(i32, i32)>, DecodeError>
    decreases n,
{
    if n == 0 {
        Ok(Seq::empty())
    } else {
        match positions_of(items, (n - 1) as nat) {
            Err(e) => Err(e),
            Ok(points) => match position_of(items[n - 1]) {
                Err(e) => Err(e),
                Ok(p) => Ok(points.push(p)),
            },
        }
    }
}

/// The tree of a stroke: the list of its positions.
pub open spec fn pen_data(points: Seq<(i32, i32)>) -> Data {
    Data::List(positions_data(points))
}

/// The stroke that a tree stands for.
pub open spec fn pen_of(d: Data) -> Result<Seq<(i32, i32)>, DecodeError> {
    match d {
        Data::List(items) => positions_of(items, items.len()),
        _ => Err(DecodeError::InvalidType),
    }
}

proof fn lemma_positions_round_trip(points: Seq<(i32, i32)>, n: nat)
    requires
        n <= points.len(),
    ensures
        positions_of(positions_data(points), n) == Ok::<Seq<(i32, i32)>, DecodeError>(
            points.take(n as int),
        ),
    decreases n,
{
    if n == 0 {
        assert(points.take(0) =~= Seq::<(i32, i32)>::empty());
    } else {
        lemma_positions_round_trip(points, (n - 1) as nat);
        lemma_position_round_trip(points[n - 1]);
        assert(points.take(n as int) =~= points.take(n - 1).push(points[n - 1]));
    }
}

/// Reading the tree of a stroke gives the stroke back.
pub proof fn lemma_pen_round_trip(points: Seq<(i32, i32)>)
    ensures
        pen_of(pen_data(points)) == Ok::<Seq<(i32, i32)>, DecodeError>(points),
{
    lemma_positions_round_trip(points, points.len());
    assert(points.take(points.len() as int) =~= points);
    assert(positions_data(points).len() == points.len());
}

proof fn lemma_positions_stop(items: Seq<Data>, n: nat, m: nat)
    requires
        n <= m,
        positions_of(items, n) is Err,
    ensures
        positions_of(items, m) == positions_of(items, n),
    decreases m,
{
    if n < m {
        lemma_positions_stop(items, n, (m - 1) as nat);
    }
}

impl Pen {
    /// The tree of this stroke.
    pub fn serialize(&self) -> (v: Value)
        ensures
            v@ == pen_data(self@),
    {
        let mut items: Vec<Value> = Vec::new();
        let mut i: usize = 0;
        while i < self.lines.len()
            invariant
                i <= self.lines@.len(),
                items@.len() == i,
                forall|j: int| 0 <= j < i ==> (#[trigger] items@[j])@ == position_data(self.lines@[j]),
            decreases self.lines@.len() - i,
        {
            items.push(position_value(self.lines[i]));
            i += 1;
        }
        proof {
            lemma_list_data(items, items@.len());
            assert(list_data(items, items@.len()) =~= positions_data(self@));
        }
        Value::List(items)
    }

    /// Reads a stroke from its tree.
    pub fn deserialize(v: &Value) -> (r: Result<Pen, DecodeError>)
        ensures
            match r {
                Ok(pen) => pen_of(v@) == Ok::<Seq<(i32, i32)>, DecodeError>(pen@),
                Err(e) => pen_of(v@) == Err::<Seq<(i32, i32)>, DecodeError>(e),
            },
    {
        match v {
            Value::List(items) => {
                let ghost data = v@->List_0;
                proof {
                    lemma_list_data(*items, items@.len());
                }
                let mut lines: Vec<(i32, i32)> = Vec::new();
                let mut i: usize = 0;
                while i < items.len()
                    invariant
                        i <= items@.len(),
                        v@ == Data::List(data),
                        data.len() == items@.len(),
                        forall|j: int| 0 <= j < items@.len() ==> #[trigger] data[j] == items@[j]@,
                        positions_of(data, i as nat) == Ok::<Seq<(i32, i32)>, DecodeError>(lines@),
                    decreases items@.len() - i,
                {
                    match read_position(&items[i]) {
                        Err(e) => {
                            proof {
                                assert(positions_of(data, (i + 1) as nat) == Err::<
                                    Seq<(i32, i32)>,
                                    DecodeError,
                                >(e));
                                lemma_positions_stop(data, (i + 1) as nat, data.len());
                            }
                            return Err(e);
                        },
                        Ok(p) => {
                            lines.push(p);
                        },
                    }
                    i += 1;
                }
                Ok(Pen { lines })
            },
            _ => Err(DecodeError::InvalidType),
        }
    }
}

} // verus!
