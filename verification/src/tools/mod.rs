//! The drawing tools: one variant per shape, each with the state it needs
//! to follow the pointer and to describe itself as a path.

pub mod draw;

use vstd::prelude::*;
use crate::keymap::Modifiers;
use crate::record::{field, lemma_record_data, record_data, Data, DecodeError, Field, Value};
use crate::text::str_eq;
use crate::tools::draw::circle::{circle_data, circle_of, lemma_circle_round_trip};
use crate::tools::draw::line::{lemma_line_round_trip, line_data, line_of};
use crate::tools::draw::pen::{lemma_pen_round_trip, pen_data, pen_of};
use crate::tools::draw::rekt::{lemma_rect_round_trip, rect_data, rect_of};
use crate::tools::draw::circle::Circle;
use crate::tools::draw::line::Line;
use crate::tools::draw::pen::Pen;
use crate::tools::draw::rekt::Rect;

verus! {

/// A point of a path.
#[derive(Debug, Clone, Copy, PartialEq, Eq, Structural)]
pub struct Point {
    pub x: i64,
    pub y: i64,
}

/// One step of a path.
#[derive(Debug, Clone, Copy, PartialEq, Eq, Structural)]
pub enum Segment {
    /// Starts a new sub-path at the point.
    MoveTo(Point),
    /// A straight line from the current point to the point.
    LineTo(Point),
    /// A closed rectangle from a corner; width and height may be negative.
    Rect { origin: Point, width: i64, height: i64 },
    /// A full turn around the centre.
    Arc { center: Point, radius: i64 },
    /// Closes the current sub-path.
    Close,
}

/// The place of a pointer position in a path.
pub open spec fn point_at(pos: (i32, i32)) -> Point {
    Point { x: pos.0 as i64, y: pos.1 as i64 }
}

/// The place of a pointer position in a path.
pub fn point(pos: (i32, i32)) -> (p: Point)
    ensures
        p == point_at(pos),
{
    Point { x: pos.0 as i64, y: pos.1 as i64 }
}

/// The shapes that can be drawn.
#[derive(Debug, Clone, Copy, PartialEq, Eq, Structural)]
pub enum DrawKind {
    Pen,
    Line,
    Rect,
    Circle,
}

/// The shape that a name stands for.
pub open spec fn kind_named(name: Seq<char>) -> Option<DrawKind> {
    if name == "pen"@ {
        Some(DrawKind::Pen)
    } else if name == "line"@ {
        Some(DrawKind::Line)
    } else if name == "rect"@ {
        Some(DrawKind::Rect)
    } else if name == "circle"@ {
        Some(DrawKind::Circle)
    } else {
        None
    }
}

impl DrawKind {
    /// The name of the shape.
    pub open spec fn spec_name(&self) -> &'static str {
        match self {
            DrawKind::Pen => "pen",
            DrawKind::Line => "line",
            DrawKind::Rect => "rect",
            DrawKind::Circle => "circle",
        }
    }

    /// The name of the shape.
    #[verifier::when_used_as_spec(spec_name)]
    pub fn name(&self) -> (s: &'static str)
        ensures
            s == self.spec_name(),
    {
        match self {
            DrawKind::Pen => "pen",
            DrawKind::Line => "line",
            DrawKind::Rect => "rect",
            DrawKind::Circle => "circle",
        }
    }

    /// The shape that a name stands for; none for any other text.
    pub fn from_name(name: &str) -> (kind: Option<DrawKind>)
        ensures
            kind == kind_named(name@),
    {
        if str_eq(name, "pen") {
            Some(DrawKind::Pen)
        } else if str_eq(name, "line") {
            Some(DrawKind::Line)
        } else if str_eq(name, "rect") {
            Some(DrawKind::Rect)
        } else if str_eq(name, "circle") {
            Some(DrawKind::Circle)
        } else {
            None
        }
    }
}

/// Every shape is named by its own name.
pub proof fn lemma_kind_name(kind: DrawKind)
    ensures
        kind_named(kind.spec_name()@) == Some(kind),
{
    reveal_strlit("pen");
    reveal_strlit("line");
    reveal_strlit("rect");
    reveal_strlit("circle");
    assert("pen"@.len() == 3 && "line"@.len() == 4 && "rect"@.len() == 4 && "circle"@.len() == 6);
    assert("line"@[0] == 'l' && "rect"@[0] == 'r');
}

/// A shape being drawn or already drawn.
#[derive(Debug, PartialEq, Eq)]
pub enum Tool {
    Pen(Pen),
    Line(Line),
    Rect(Rect),
    Circle(Circle),
}

/// What a `Tool` holds.
pub enum ToolView {
    Pen(Seq<(i32, i32)>),
    Line(Line),
    Rect(Rect),
    Circle(Circle),
}

impl View for Tool {
    type V = ToolView;

    open spec fn view(&self) -> ToolView {
        match self {
            Tool::Pen(p) => ToolView::Pen(p@),
            Tool::Line(l) => ToolView::Line(*l),
            Tool::Rect(r) => ToolView::Rect(*r),
            Tool::Circle(c) => ToolView::Circle(*c),
        }
    }
}

impl ToolView {
    /// Which shape this is.
    pub open spec fn kind(self) -> DrawKind {
        match self {
            ToolView::Pen(_) => DrawKind::Pen,
            ToolView::Line(_) => DrawKind::Line,
            ToolView::Rect(_) => DrawKind::Rect,
            ToolView::Circle(_) => DrawKind::Circle,
        }
    }

    /// The fresh tool of a kind, started at a position.
    pub open spec fn start(kind: DrawKind, pos: (i32, i32)) -> ToolView {
        match kind {
            DrawKind::Pen => ToolView::Pen(seq![pos]),
            DrawKind::Line => ToolView::Line(Line::started(pos)),
            DrawKind::Rect => ToolView::Rect(Rect::started(pos)),
            DrawKind::Circle => ToolView::Circle(Circle::started(pos)),
        }
    }

    /// The tool after the pointer moved to `motion`.
    pub open spec fn moved(self, motion: (i32, i32)) -> ToolView {
        match self {
            ToolView::Pen(points) => ToolView::Pen(points.push(motion)),
            ToolView::Line(l) => ToolView::Line(l.moved(motion)),
            ToolView::Rect(r) => ToolView::Rect(r.moved(motion)),
            ToolView::Circle(c) => ToolView::Circle(c.moved(motion)),
        }
    }

    /// The tool after the modifier keys changed to `modifier`.
    pub open spec fn modified(self, modifier: Modifiers) -> ToolView {
        match self {
            ToolView::Pen(points) => ToolView::Pen(points),
            ToolView::Line(l) => ToolView::Line(l.modified(modifier)),
            ToolView::Rect(r) => ToolView::Rect(r.modified(modifier)),
            ToolView::Circle(c) => ToolView::Circle(c),
        }
    }

    /// The path of the shape.
    pub open spec fn path(self) -> Seq<Segment> {
        match self {
            ToolView::Pen(points) => crate::tools::draw::pen::pen_path(points),
            ToolView::Line(l) => l.path(),
            ToolView::Rect(r) => r.path(),
            ToolView::Circle(c) => c.path(),
        }
    }

    /// The size of the shape and the place for its label; a pen stroke has
    /// none.
    pub open spec fn size(self) -> Option<((i64, i64), Point)> {
        match self {
            ToolView::Pen(_) => None,
            ToolView::Line(l) => Some(l.size()),
            ToolView::Rect(r) => Some(r.size()),
            ToolView::Circle(c) => Some(c.size()),
        }
    }
}

impl Tool {
    /// A fresh tool of the given kind, started at a pointer position.
    pub fn new(kind: DrawKind, pos: (i32, i32)) -> (tool: Tool)
        ensures
            tool@ == ToolView::start(kind, pos),
    {
        match kind {
            DrawKind::Pen => Tool::Pen(Pen::new(pos)),
            DrawKind::Line => Tool::Line(Line::new(pos)),
            DrawKind::Rect => Tool::Rect(Rect::new(pos)),
            DrawKind::Circle => Tool::Circle(Circle::new(pos)),
        }
    }

    /// Which shape this is.
    pub fn kind(&self) -> (kind: DrawKind)
        ensures
            kind == self@.kind(),
    {
        match self {
            Tool::Pen(_) => DrawKind::Pen,
            Tool::Line(_) => DrawKind::Line,
            Tool::Rect(_) => DrawKind::Rect,
            Tool::Circle(_) => DrawKind::Circle,
        }
    }

    /// Takes in a new pointer position.
    pub fn update(&mut self, motion: (i32, i32))
        ensures
            final(self)@ == old(self)@.moved(motion),
            final(self)@.kind() == old(self)@.kind(),
    {
        match self {
            Tool::Pen(p) => p.update(motion),
            Tool::Line(l) => l.update(motion),
            Tool::Rect(r) => r.update(motion),
            Tool::Circle(c) => c.update(motion),
        }
    }

    /// Takes in the state of the modifier keys. Shift constrains a line to
    /// an axis and a rectangle to a square; pen and circle take no notice.
    pub fn modifier(&mut self, modifier: &Modifiers)
        ensures
            final(self)@ == old(self)@.modified(*modifier),
            final(self)@.kind() == old(self)@.kind(),
    {
        match self {
            Tool::Pen(_) => {},
            Tool::Line(l) => l.modifier(modifier),
            Tool::Rect(r) => r.modifier(modifier),
            Tool::Circle(_) => {},
        }
    }

    /// The path of the shape as it is now.
    pub fn draw(&self) -> (path: Vec<Segment>)
        ensures
            path@ == self@.path(),
    {
        match self {
            Tool::Pen(p) => p.draw(),
            Tool::Line(l) => l.draw(),
            Tool::Rect(r) => r.draw(),
            Tool::Circle(c) => c.draw(),
        }
    }

    /// The size of the shape, width and height, and the point at which to
    /// write it; none for a pen stroke.
    pub fn draw_size(&self) -> (size: Option<((i64, i64), Point)>)
        ensures
            size == self@.size(),
    {
        match self {
            Tool::Pen(_) => None,
            Tool::Line(l) => Some(l.draw_size()),
            Tool::Rect(r) => Some(r.draw_size()),
            Tool::Circle(c) => Some(c.draw_size()),
        }
    }
}

/// The tree of a tool: a record of one field, named after the shape, that
/// holds the tree of the shape.
pub open spec fn tool_data(tool: ToolView) -> Data {
    match tool {
        ToolView::Pen(points) => Data::Record(seq![("Pen"@, pen_data(points))]),
        ToolView::Line(l) => Data::Record(seq![("Line"@, line_data(l))]),
        ToolView::Rect(r) => Data::Record(seq![("Rect"@, rect_data(r))]),
        ToolView::Circle(c) => Data::Record(seq![("Circle"@, circle_data(c))]),
    }
}

/// The tool that a tree stands for.
pub open spec fn tool_of(d: Data) -> Result<ToolView, DecodeError> {
    match d {
        Data::Record(fields) => if fields.len() != 1 {
            Err(DecodeError::InvalidLength)
        } else if fields[0].0 == "Pen"@ {
            match pen_of(fields[0].1) {
                Ok(points) => Ok(ToolView::Pen(points)),
                Err(e) => Err(e),
            }
        } else if fields[0].0 == "Line"@ {
            match line_of(fields[0].1) {
                Ok(l) => Ok(ToolView::Line(l)),
                Err(e) => Err(e),
            }
        } else if fields[0].0 == "Rect"@ {
            match rect_of(fields[0].1) {
                Ok(r) => Ok(ToolView::Rect(r)),
                Err(e) => Err(e),
            }
        } else if fields[0].0 == "Circle"@ {
            match circle_of(fields[0].1) {
                Ok(c) => Ok(ToolView::Circle(c)),
                Err(e) => Err(e),
            }
        } else {
            Err(DecodeError::UnknownVariant)
        },
        _ => Err(DecodeError::InvalidType),
    }
}

/// Reading the tree of a tool gives the tool back.
pub proof fn lemma_tool_round_trip(tool: ToolView)
    ensures
        tool_of(tool_data(tool)) == Ok::<ToolView, DecodeError>(tool),
{
    reveal_strlit("Pen");
    reveal_strlit("Line");
    reveal_strlit("Rect");
    reveal_strlit("Circle");
    assert("Pen"@.len() == 3 && "Line"@.len() == 4 && "Circle"@.len() == 6 && "Rect"@.len() == 4);
    assert("Line"@[0] == 'L' && "Rect"@[0] == 'R');
    match tool {
        ToolView::Pen(points) => lemma_pen_round_trip(points),
        ToolView::Line(l) => lemma_line_round_trip(l),
        ToolView::Rect(r) => lemma_rect_round_trip(r),
        ToolView::Circle(c) => lemma_circle_round_trip(c),
    }
}

impl Tool {
    /// The tree of this tool.
    pub fn serialize(&self) -> (v: Value)
        ensures
            v@ == tool_data(self@),
    {
        let mut fields: Vec<Field> = Vec::new();
        match self {
            Tool::Pen(p) => fields.push(field("Pen", p.serialize())),
            Tool::Line(l) => fields.push(field("Line", l.serialize())),
            Tool::Rect(r) => fields.push(field("Rect", r.serialize())),
            Tool::Circle(c) => fields.push(field("Circle", c.serialize())),
        }
        proof {
            lemma_record_data(fields, 1);
            assert(record_data(fields, 1) =~= tool_data(self@)->Record_0);
        }
        Value::Record(fields)
    }

    /// Reads a tool from its tree.
    pub fn deserialize(v: &Value) -> (r: Result<Tool, DecodeError>)
        ensures
            match r {
                Ok(tool) => tool_of(v@) == Ok::<ToolView, DecodeError>(tool@),
                Err(e) => tool_of(v@) == Err::<ToolView, DecodeError>(e),
            },
    {
        match v {
            Value::Record(fields) => {
                proof {
                    lemma_record_data(*fields, fields@.len());
                }
                if fields.len() != 1 {
                    return Err(DecodeError::InvalidLength);
                }
                let name = fields[0].name.as_str();
                let shape = &fields[0].value;
                if str_eq(name, "Pen") {
                    match Pen::deserialize(shape) {
                        Ok(p) => Ok(Tool::Pen(p)),
                        Err(e) => Err(e),
                    }
                } else if str_eq(name, "Line") {
                    match Line::deserialize(shape) {
                        Ok(l) => Ok(Tool::Line(l)),
                        Err(e) => Err(e),
                    }
                } else if str_eq(name, "Rect") {
                    match Rect::deserialize(shape) {
                        Ok(r) => Ok(Tool::Rect(r)),
                        Err(e) => Err(e),
                    }
                } else if str_eq(name, "Circle") {
                    match Circle::deserialize(shape) {
                        Ok(c) => Ok(Tool::Circle(c)),
                        Err(e) => Err(e),
                    }
                } else {
                    Err(DecodeError::UnknownVariant)
                }
            },
            _ => Err(DecodeError::InvalidType),
        }
    }
}

} // verus!
