//! A draw: a tool together with the style and the colour of its stroke.

use vstd::prelude::*;
use vstd::string::*;
use vstd::utf8::*;
use crate::color::{hex_text, lemma_color_round_trip, parse_hex, parse_solid, Color};
use crate::keymap::Modifiers;
use crate::record::{
    bool_of, field, lemma_locate_in_order, lemma_record_data, locate, locate_fields, read_bool,
    read_text, record_data, text_of, Data, DecodeError, Field, Value,
};
use crate::text::{size_label, size_text};
use crate::tools::draw::draw::{
    lemma_style_round_trip, style_data, style_of, StrokeStyleSerialize, StyleView,
};
use crate::tools::{
    lemma_tool_round_trip, tool_data, tool_of, DrawKind, Point, Segment, Tool, ToolView,
};

verus! {

/// One shape on an output, with all that is needed to paint it.
#[derive(Debug, PartialEq, Eq)]
pub struct Draw {
    pub style: StrokeStyleSerialize,
    pub color: Color,
    /// Whether the size of the shape is written next to it.
    pub distance: bool,
    pub tool: Tool,
}

/// What a `Draw` holds.
pub struct DrawView {
    pub style: StyleView,
    pub color: Color,
    pub distance: bool,
    pub tool: ToolView,
}

impl View for Draw {
    type V = DrawView;

    open spec fn view(&self) -> DrawView {
        DrawView {
            style: self.style@,
            color: self.color,
            distance: self.distance,
            tool: self.tool@,
        }
    }
}

/// The text of a size and the point at which to write it.
#[derive(Debug, PartialEq, Eq)]
pub struct Label {
    pub text: String,
    pub anchor: Point,
}

impl DrawView {
    /// The draw after a motion of the pointer, or after a change of the
    /// modifier keys alone. The modifiers are taken in first; without a
    /// position the shape is redone from the position it saw last.
    pub open spec fn with_motion(self, motion: Option<(i32, i32)>, modifier: Modifiers) -> DrawView {
        DrawView {
            style: self.style,
            color: self.color,
            distance: self.distance,
            tool: match motion {
                Some(m) => self.tool.modified(modifier).moved(m),
                None => self.tool.modified(modifier),
            },
        }
    }

    /// The path to stroke: the path of the shape, closed.
    pub open spec fn path(self) -> Seq<Segment> {
        self.tool.path().push(Segment::Close)
    }

    /// The label to write next to the shape: none unless the draw asks for
    /// its size and the shape has one.
    pub open spec fn label(self) -> Option<(Seq<char>, Point)> {
        if self.distance {
            match self.tool.size() {
                Some(size) => Some(
                    (size_text(size.0.0 as u64 as nat, size.0.1 as u64 as nat), size.1),
                ),
                None => None,
            }
        } else {
            None
        }
    }
}

impl Draw {
    /// A fresh draw of the given kind, started at a pointer position.
    pub fn new(
        kind: DrawKind,
        pos: (i32, i32),
        style: StrokeStyleSerialize,
        color: Color,
        distance: bool,
    ) -> (draw: Draw)
        ensures
            draw@ == (DrawView {
                style: style@,
                color,
                distance,
                tool: ToolView::start(kind, pos),
            }),
    {
        Draw { style, color, distance, tool: Tool::new(kind, pos) }
    }

    /// Takes in a motion of the pointer together with the modifier keys
    /// held, or, without a position, a change of the modifier keys alone.
    pub fn add_motion(&mut self, motion: Option<(i32, i32)>, modifier: &Modifiers)
        ensures
            final(self)@ == old(self)@.with_motion(motion, *modifier),
            final(self)@.tool.kind() == old(self)@.tool.kind(),
    {
        self.tool.modifier(modifier);
        match motion {
            Some(m) => self.tool.update(m),
            None => {},
        }
    }

    /// The path to stroke with the style and the colour of this draw.
    pub fn draw(&self) -> (path: Vec<Segment>)
        ensures
            path@ == self@.path(),
    {
        let mut path = self.tool.draw();
        path.push(Segment::Close);
        path
    }

    /// The label to write next to the shape, if any.
    pub fn draw_size(&self) -> (label: Option<Label>)
        ensures
            match label {
                Some(l) => self@.label() == Some((l.text@, l.anchor)),
                None => self@.label() is None,
            },
    {
        if !self.distance {
            return None;
        }
        match self.tool.draw_size() {
            Some(size) => Some(
                Label { text: size_label(size.0.0 as u64, size.0.1 as u64), anchor: size.1 },
            ),
            None => None,
        }
    }
}

/// The names of the fields of a draw, in the order in which it is written.
pub open spec fn draw_names() -> Seq<&'static str> {
    seq!["style", "color", "distance", "action"]
}

/// The tree of a draw: a record of its style, its colour as a text, the
/// mark for the size, and its tool.
pub open spec fn draw_data(draw: DrawView) -> Data {
    Data::Record(
        seq![
            ("style"@, style_data(draw.style)),
            ("color"@, Data::Text(hex_text(draw.color))),
            ("distance"@, Data::Bool(draw.distance)),
            ("action"@, tool_data(draw.tool)),
        ],
    )
}

/// The draw that a tree stands for. The tree is a record of the four
/// fields, in any order; the fields are read in the order of their names.
pub open spec fn draw_of(d: Data) -> Result<DrawView, DecodeError> {
    match d {
        Data::Record(fields) => match locate_fields(fields, draw_names()) {
            Err(e) => Err(e),
            Ok(at) => match style_of(fields[at[0] as int].1) {
                Err(e) => Err(e),
                Ok(style) => match text_of(fields[at[1] as int].1) {
                    Err(e) => Err(e),
                    Ok(color_text) => match parse_hex(encode_utf8(color_text)) {
                        Err(e) => Err(DecodeError::Color(e)),
                        Ok(color) => match bool_of(fields[at[2] as int].1) {
                            Err(e) => Err(e),
                            Ok(distance) => match tool_of(fields[at[3] as int].1) {
                                Err(e) => Err(e),
                                Ok(tool) => Ok(DrawView { style, color, distance, tool }),
                            },
                        },
                    },
                },
            },
        },
        _ => Err(DecodeError::InvalidType),
    }
}

proof fn lemma_draw_names_distinct()
    ensures
        draw_names().len() == 4,
        forall|i: int, j: int|
            0 <= i < j < draw_names().len() ==> (#[trigger] draw_names()[i])@ != (
            #[trigger] draw_names()[j])@,
{
    reveal_strlit("style");
    reveal_strlit("color");
    reveal_strlit("distance");
    reveal_strlit("action");
    let names = draw_names();
    assert(names[0]@.len() == 5 && names[0]@[0] == 's');
    assert(names[1]@.len() == 5 && names[1]@[0] == 'c');
    assert(names[2]@.len() == 8);
    assert(names[3]@.len() == 6);
    assert forall|i: int, j: int| 0 <= i < j < names.len() implies (#[trigger] names[i])@ != (
    #[trigger] names[j])@ by {
        assert(names[i]@.len() != names[j]@.len() || names[i]@[0] != names[j]@[0]);
    }
}

/// Reading the tree of a draw gives the draw back.
pub proof fn lemma_draw_round_trip(draw: DrawView)
    ensures
        draw_of(draw_data(draw)) == Ok::<DrawView, DecodeError>(draw),
{
    let fields = draw_data(draw)->Record_0;
    lemma_draw_names_distinct();
    lemma_locate_in_order(fields, draw_names());
    lemma_style_round_trip(draw.style);
    lemma_color_round_trip(draw.color);
    lemma_tool_round_trip(draw.tool);
}

fn draw_fields() -> (names: Vec<&'static str>)
    ensures
        names@ == draw_names(),
{
    let mut names: Vec<&'static str> = Vec::new();
    names.push("style");
    names.push("color");
    names.push("distance");
    names.push("action");
    assert(names@ =~= draw_names());
    names
}

impl Draw {
    /// The tree of this draw.
    pub fn serialize(&self) -> (v: Value)
        ensures
            v@ == draw_data(self@),
    {
        let mut fields: Vec<Field> = Vec::new();
        fields.push(field("style", self.style.serialize()));
        fields.push(field("color", Value::Text(self.color.to_hex())));
        fields.push(field("distance", Value::Bool(self.distance)));
        fields.push(field("action", self.tool.serialize()));
        proof {
            lemma_record_data(fields, 4);
            assert(record_data(fields, 4) =~= draw_data(self@)->Record_0);
        }
        Value::Record(fields)
    }

    /// Reads a draw from its tree.
    pub fn deserialize(v: &Value) -> (r: Result<Draw, DecodeError>)
        ensures
            match r {
                Ok(draw) => draw_of(v@) == Ok::<DrawView, DecodeError>(draw@),
                Err(e) => draw_of(v@) == Err::<DrawView, DecodeError>(e),
            },
    {
        match v {
            Value::Record(fields) => {
                proof {
                    lemma_record_data(*fields, fields@.len());
                }
                let names = draw_fields();
                let at = match locate(fields, &names) {
                    Ok(at) => at,
                    Err(e) => {
                        return Err(e);
                    },
                };
                let style = match StrokeStyleSerialize::deserialize(&fields[at[0]].value) {
                    Ok(style) => style,
                    Err(e) => {
                        return Err(e);
                    },
                };
                let color_text = match read_text(&fields[at[1]].value) {
                    Ok(text) => text,
                    Err(e) => {
                        return Err(e);
                    },
                };
                let color = match parse_solid(color_text) {
                    Ok(color) => color,
                    Err(e) => {
                        return Err(DecodeError::Color(e));
                    },
                };
                let distance = match read_bool(&fields[at[2]].value) {
                    Ok(distance) => distance,
                    Err(e) => {
                        return Err(e);
                    },
                };
                let tool = match Tool::deserialize(&fields[at[3]].value) {
                    Ok(tool) => tool,
                    Err(e) => {
                        return Err(e);
                    },
                };
                Ok(Draw { style, color, distance, tool })
            },
            _ => Err(DecodeError::InvalidType),
        }
    }
}

} // verus!
