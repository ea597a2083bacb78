use sketchover::color::{Color, ColorError};
use sketchover::draw::Draw;
use sketchover::output::{restore, OutPut, OutputInfo, Saved};
use sketchover::record::{DecodeError, Field, Value};
use sketchover::tools::draw::circle::Circle;
use sketchover::tools::draw::draw::{
    read_cap, read_join, LineCap, LineJoin, StrokeStyleSerialize,
};
use sketchover::tools::draw::line::Line;
use sketchover::tools::draw::pen::Pen;
use sketchover::tools::draw::rekt::Rect;
use sketchover::tools::{DrawKind, Tool};

fn px(v: f64) -> i32 {
    (v * 256.0).round() as i32
}

fn to_json(v: &Value) -> serde_json::Value {
    match v {
        Value::Null => serde_json::Value::Null,
        Value::Bool(b) => serde_json::Value::Bool(*b),
        Value::Int(i) => serde_json::Value::Number(serde_json::Number::from(*i)),
        Value::Text(s) => serde_json::Value::String(s.clone()),
        Value::List(items) => serde_json::Value::Array(items.iter().map(to_json).collect()),
        Value::Record(fields) => {
            let mut map = serde_json::Map::new();
            for f in fields {
                map.insert(f.name.clone(), to_json(&f.value));
            }
            serde_json::Value::Object(map)
        }
    }
}

fn from_json(v: &serde_json::Value) -> Value {
    match v {
        serde_json::Value::Null => Value::Null,
        serde_json::Value::Bool(b) => Value::Bool(*b),
        serde_json::Value::Number(n) => Value::Int(n.as_i64().unwrap()),
        serde_json::Value::String(s) => Value::Text(s.clone()),
        serde_json::Value::Array(items) => Value::List(items.iter().map(from_json).collect()),
        serde_json::Value::Object(map) => Value::Record(
            map.iter()
                .map(|(k, v)| Field { name: k.clone(), value: from_json(v) })
                .collect(),
        ),
    }
}

fn through_text(v: &Value) -> Value {
    let j = serde_json::to_string(&to_json(v)).unwrap();
    from_json(&serde_json::from_str(&j).unwrap())
}

fn field(name: &str, value: Value) -> Field {
    Field { name: name.to_owned(), value }
}

fn style() -> StrokeStyleSerialize {
    StrokeStyleSerialize {
        width: px(3.0) as u32,
        cap: LineCap::Round,
        join: LineJoin::Round,
        miter_limit: px(0.0),
        dash_array: Vec::new(),
        dash_offset: px(0.0),
    }
}

#[test]
fn draw_serialize_deserialize() {
    let mut pen = Pen::new((px(23.0), px(48.0)));
    pen.update((px(48.0), px(93.9)));
    let pre = Draw {
        style: style(),
        color: Color { r: 200, g: 140, b: 80, a: 0 },
        distance: false,
        tool: Tool::Pen(pen),
    };
    let j = through_text(&pre.serialize());
    let post = Draw::deserialize(&j).unwrap();
    assert!(pre == post)
}

#[test]
fn draw_draw_serialize_deserialize() {
    let pre = Draw::new(
        DrawKind::Pen,
        (px(0.0), px(0.0)),
        style(),
        Color { r: 200, g: 140, b: 80, a: 0 },
        false,
    );
    let j = through_text(&pre.serialize());
    let post = Draw::deserialize(&j).unwrap();
    assert!(pre == post)
}

#[test]
fn stroke_serialize_deserialize() {
    let pre = StrokeStyleSerialize {
        width: px(3.0) as u32,
        cap: LineCap::Round,
        join: LineJoin::Miter,
        miter_limit: px(0.0),
        dash_array: Vec::new(),
        dash_offset: px(0.0),
    };
    let j = through_text(&pre.serialize());
    let post = StrokeStyleSerialize::deserialize(&j).unwrap();
    assert!(pre == post)
}

#[test]
fn draw_stroke_serialize_deserialize() {
    let pre = StrokeStyleSerialize {
        width: px(3.0) as u32,
        cap: LineCap::Round,
        join: LineJoin::Miter,
        miter_limit: px(0.0),
        dash_array: Vec::new(),
        dash_offset: px(0.0),
    };
    let post = StrokeStyleSerialize::deserialize(&pre.serialize()).unwrap();
    assert!(pre == post)
}

#[test]
fn style_tree_has_named_fields_and_cap_names() {
    let s = StrokeStyleSerialize {
        width: 768,
        cap: LineCap::Square,
        join: LineJoin::Bevel,
        miter_limit: 2560,
        dash_array: vec![512, 256],
        dash_offset: -3,
    };
    assert_eq!(
        s.serialize(),
        Value::Record(vec![
            field("width", Value::Int(768)),
            field("cap", Value::Text("square".to_owned())),
            field("join", Value::Text("bevel".to_owned())),
            field("miter_limit", Value::Int(2560)),
            field("dash_array", Value::List(vec![Value::Int(512), Value::Int(256)])),
            field("dash_offset", Value::Int(-3)),
        ])
    );
    assert_eq!(
        serde_json::to_string(&to_json(&s.serialize())).unwrap(),
        "{\"cap\":\"square\",\"dash_array\":[512,256],\"dash_offset\":-3,\"join\":\"bevel\",\"miter_limit\":2560,\"width\":768}"
    );
}

#[test]
fn every_style_is_read_back() {
    for cap in [LineCap::Round, LineCap::Square, LineCap::Butt] {
        for join in [LineJoin::Round, LineJoin::Miter, LineJoin::Bevel] {
            for dashes in [vec![], vec![1], vec![i32::MIN, 0, i32::MAX]] {
                let pre = StrokeStyleSerialize {
                    width: u32::MAX,
                    cap,
                    join,
                    miter_limit: i32::MIN,
                    dash_array: dashes,
                    dash_offset: i32::MAX,
                };
                let post = StrokeStyleSerialize::deserialize(&through_text(&pre.serialize()));
                assert_eq!(post, Ok(pre));
            }
        }
    }
}

#[test]
fn plain_style() {
    let s = StrokeStyleSerialize::default();
    assert_eq!(s.width, 256);
    assert_eq!(s.cap, LineCap::Butt);
    assert_eq!(s.join, LineJoin::Miter);
    assert_eq!(s.miter_limit, 2560);
    assert_eq!(s.dash_array, Vec::<i32>::new());
    assert_eq!(s.dash_offset, 0);
    assert_eq!(s.clone(), s);
}

#[test]
fn style_fields_may_come_in_any_order() {
    let v = Value::Record(vec![
        field("dash_offset", Value::Int(1)),
        field("join", Value::Text("miter".to_owned())),
        field("dash_array", Value::List(vec![Value::Int(5)])),
        field("width", Value::Int(9)),
        field("miter_limit", Value::Int(2)),
        field("cap", Value::Text("butt".to_owned())),
    ]);
    assert_eq!(
        StrokeStyleSerialize::deserialize(&v),
        Ok(StrokeStyleSerialize {
            width: 9,
            cap: LineCap::Butt,
            join: LineJoin::Miter,
            miter_limit: 2,
            dash_array: vec![5],
            dash_offset: 1,
        })
    );
}

fn style_fields_with(name: &str, value: Value) -> Value {
    let mut fields = match style().serialize() {
        Value::Record(fields) => fields,
        _ => unreachable!(),
    };
    for f in fields.iter_mut() {
        if f.name == name {
            f.value = value;
            return Value::Record(fields);
        }
    }
    fields.push(field(name, value));
    Value::Record(fields)
}

#[test]
fn unknown_cap_is_an_error() {
    let v = style_fields_with("cap", Value::Text("flat".to_owned()));
    assert_eq!(StrokeStyleSerialize::deserialize(&v), Err(DecodeError::Cap));
    assert_eq!(read_cap("flat"), Err("flat is not a cap".to_owned()));
    assert_eq!(read_cap("Round"), Err("Round is not a cap".to_owned()));
    assert_eq!(read_cap("round"), Ok(LineCap::Round));
    assert_eq!(read_cap("square"), Ok(LineCap::Square));
    assert_eq!(read_cap("butt"), Ok(LineCap::Butt));
}

#[test]
fn unknown_join_is_an_error() {
    let v = style_fields_with("join", Value::Text("square".to_owned()));
    assert_eq!(StrokeStyleSerialize::deserialize(&v), Err(DecodeError::Join));
    assert_eq!(read_join("square"), Err("square is not a join".to_owned()));
    assert_eq!(read_join(""), Err(" is not a join".to_owned()));
    assert_eq!(read_join("round"), Ok(LineJoin::Round));
    assert_eq!(read_join("miter"), Ok(LineJoin::Miter));
    assert_eq!(read_join("bevel"), Ok(LineJoin::Bevel));
}

#[test]
fn cap_and_join_names() {
    assert_eq!(LineCap::Round.name(), "round");
    assert_eq!(LineCap::Square.name(), "square");
    assert_eq!(LineCap::Butt.name(), "butt");
    assert_eq!(LineJoin::Round.name(), "round");
    assert_eq!(LineJoin::Miter.name(), "miter");
    assert_eq!(LineJoin::Bevel.name(), "bevel");
}

#[test]
fn missing_field_is_an_error() {
    for (i, name) in ["width", "cap", "join", "miter_limit", "dash_array", "dash_offset"]
        .into_iter()
        .enumerate()
    {
        let mut fields = match style().serialize() {
            Value::Record(fields) => fields,
            _ => unreachable!(),
        };
        fields.remove(i);
        assert_eq!(
            StrokeStyleSerialize::deserialize(&Value::Record(fields)),
            Err(DecodeError::MissingField(name))
        );
    }
    assert_eq!(
        StrokeStyleSerialize::deserialize(&Value::Record(Vec::new())),
        Err(DecodeError::MissingField("width"))
    );
}

#[test]
fn duplicate_field_is_an_error() {
    let mut fields = match style().serialize() {
        Value::Record(fields) => fields,
        _ => unreachable!(),
    };
    fields.push(field("cap", Value::Text("butt".to_owned())));
    assert_eq!(
        StrokeStyleSerialize::deserialize(&Value::Record(fields)),
        Err(DecodeError::DuplicateField("cap"))
    );
}

#[test]
fn unknown_field_is_an_error() {
    let v = style_fields_with("colour", Value::Int(1));
    assert_eq!(StrokeStyleSerialize::deserialize(&v), Err(DecodeError::UnknownField));
}

#[test]
fn the_first_faulty_field_of_a_record_is_the_error() {
    let v = Value::Record(vec![
        field("width", Value::Int(1)),
        field("width", Value::Int(1)),
        field("colour", Value::Int(1)),
    ]);
    assert_eq!(
        StrokeStyleSerialize::deserialize(&v),
        Err(DecodeError::DuplicateField("width"))
    );
    let v = Value::Record(vec![
        field("colour", Value::Int(1)),
        field("width", Value::Int(1)),
        field("width", Value::Int(1)),
    ]);
    assert_eq!(StrokeStyleSerialize::deserialize(&v), Err(DecodeError::UnknownField));
}

#[test]
fn value_of_a_wrong_kind_is_an_error() {
    assert_eq!(
        StrokeStyleSerialize::deserialize(&Value::Int(3)),
        Err(DecodeError::InvalidType)
    );
    assert_eq!(
        StrokeStyleSerialize::deserialize(&Value::List(Vec::new())),
        Err(DecodeError::InvalidType)
    );
    let v = style_fields_with("width", Value::Text("3".to_owned()));
    assert_eq!(StrokeStyleSerialize::deserialize(&v), Err(DecodeError::InvalidType));
    let v = style_fields_with("cap", Value::Int(0));
    assert_eq!(StrokeStyleSerialize::deserialize(&v), Err(DecodeError::InvalidType));
    let v = style_fields_with("dash_array", Value::Null);
    assert_eq!(StrokeStyleSerialize::deserialize(&v), Err(DecodeError::InvalidType));
    let v = style_fields_with("dash_array", Value::List(vec![Value::Int(1), Value::Bool(true)]));
    assert_eq!(StrokeStyleSerialize::deserialize(&v), Err(DecodeError::InvalidType));
}

#[test]
fn number_out_of_range_is_an_error() {
    let v = style_fields_with("width", Value::Int(-1));
    assert_eq!(StrokeStyleSerialize::deserialize(&v), Err(DecodeError::OutOfRange));
    let v = style_fields_with("width", Value::Int(u32::MAX as i64 + 1));
    assert_eq!(StrokeStyleSerialize::deserialize(&v), Err(DecodeError::OutOfRange));
    let v = style_fields_with("miter_limit", Value::Int(i32::MAX as i64 + 1));
    assert_eq!(StrokeStyleSerialize::deserialize(&v), Err(DecodeError::OutOfRange));
    let v = style_fields_with("dash_array", Value::List(vec![Value::Int(i32::MIN as i64 - 1)]));
    assert_eq!(StrokeStyleSerialize::deserialize(&v), Err(DecodeError::OutOfRange));
}

fn tools() -> Vec<Tool> {
    let mut pen = Pen::new((px(23.0), px(48.0)));
    pen.update((px(48.0), px(93.9)));
    let mut line = Line::new((1, -2));
    line.update((7, 8));
    line.straight = true;
    let mut rect = Rect::new((i32::MIN, i32::MAX));
    rect.square = true;
    let mut circle = Circle::new((5, 6));
    circle.update((-7, 0));
    vec![
        Tool::Pen(pen),
        Tool::Pen(Pen { lines: Vec::new() }),
        Tool::Line(line),
        Tool::Line(Line::new((0, 0))),
        Tool::Rect(rect),
        Tool::Circle(circle),
    ]
}

#[test]
fn every_tool_is_read_back() {
    for tool in tools() {
        let post = Tool::deserialize(&through_text(&tool.serialize()));
        assert_eq!(post, Ok(tool));
    }
}

#[test]
fn tool_tree_is_named_after_the_shape() {
    let mut line = Line::new((1, -2));
    line.update((7, 8));
    assert_eq!(
        Tool::Line(line).serialize(),
        Value::Record(vec![field(
            "Line",
            Value::Record(vec![
                field("start", Value::List(vec![Value::Int(1), Value::Int(-2)])),
                field("real_stop", Value::List(vec![Value::Int(7), Value::Int(8)])),
                field("straight", Value::Bool(false)),
            ])
        )])
    );
    assert_eq!(
        Tool::Rect(Rect::new((3, 4))).serialize(),
        Value::Record(vec![field(
            "Rect",
            Value::Record(vec![
                field("start", Value::List(vec![Value::Int(3), Value::Int(4)])),
                field("real_stop", Value::Null),
                field("square", Value::Bool(false)),
            ])
        )])
    );
    assert_eq!(
        Tool::Circle(Circle::new((3, 4))).serialize(),
        Value::Record(vec![field(
            "Circle",
            Value::Record(vec![
                field("start", Value::List(vec![Value::Int(3), Value::Int(4)])),
                field("stop", Value::List(vec![Value::Int(3), Value::Int(4)])),
            ])
        )])
    );
    assert_eq!(
        Tool::Pen(Pen::new((3, 4))).serialize(),
        Value::Record(vec![field(
            "Pen",
            Value::List(vec![Value::List(vec![Value::Int(3), Value::Int(4)])])
        )])
    );
}

#[test]
fn tool_of_no_known_shape_is_an_error() {
    let v = Value::Record(vec![field("Triangle", Value::Null)]);
    assert_eq!(Tool::deserialize(&v), Err(DecodeError::UnknownVariant));
    let v = Value::Record(vec![field("pen", Value::List(Vec::new()))]);
    assert_eq!(Tool::deserialize(&v), Err(DecodeError::UnknownVariant));
}

#[test]
fn tool_with_no_or_two_shapes_is_an_error() {
    assert_eq!(Tool::deserialize(&Value::Record(Vec::new())), Err(DecodeError::InvalidLength));
    let v = Value::Record(vec![
        field("Pen", Value::List(Vec::new())),
        field("Pen", Value::List(Vec::new())),
    ]);
    assert_eq!(Tool::deserialize(&v), Err(DecodeError::InvalidLength));
    assert_eq!(Tool::deserialize(&Value::Null), Err(DecodeError::InvalidType));
}

#[test]
fn position_needs_two_coordinates_in_range() {
    let pen = |items: Vec<Value>| Value::Record(vec![field("Pen", Value::List(vec![Value::List(items)]))]);
    assert_eq!(Tool::deserialize(&pen(vec![Value::Int(1)])), Err(DecodeError::InvalidLength));
    assert_eq!(
        Tool::deserialize(&pen(vec![Value::Int(1), Value::Int(2), Value::Int(3)])),
        Err(DecodeError::InvalidLength)
    );
    assert_eq!(
        Tool::deserialize(&pen(vec![Value::Int(1), Value::Int(i32::MAX as i64 + 1)])),
        Err(DecodeError::OutOfRange)
    );
    assert_eq!(
        Tool::deserialize(&pen(vec![Value::Int(1), Value::Text("2".to_owned())])),
        Err(DecodeError::InvalidType)
    );
    assert_eq!(
        Tool::deserialize(&pen(vec![Value::Int(1), Value::Int(2)])),
        Ok(Tool::Pen(Pen::new((1, 2))))
    );
}

#[test]
fn every_draw_is_read_back() {
    for tool in tools() {
        for distance in [false, true] {
            let pre = Draw {
                style: style(),
                color: Color { r: 1, g: 2, b: 3, a: 255 },
                distance,
                tool: Tool::deserialize(&tool.serialize()).unwrap(),
            };
            let post = Draw::deserialize(&through_text(&pre.serialize()));
            assert_eq!(post, Ok(pre));
        }
    }
}

#[test]
fn draw_tree_has_the_color_as_hex_text() {
    let d = Draw::new(DrawKind::Circle, (1, 2), style(), Color { r: 200, g: 140, b: 80, a: 0 }, true);
    assert_eq!(
        d.serialize(),
        Value::Record(vec![
            field("style", style().serialize()),
            field("color", Value::Text("#c88c5000".to_owned())),
            field("distance", Value::Bool(true)),
            field("action", Tool::new(DrawKind::Circle, (1, 2)).serialize()),
        ])
    );
}

fn draw_fields_with(name: &str, value: Value) -> Value {
    let d = Draw::new(DrawKind::Line, (1, 2), style(), Color { r: 200, g: 140, b: 80, a: 0 }, true);
    let mut fields = match d.serialize() {
        Value::Record(fields) => fields,
        _ => unreachable!(),
    };
    for f in fields.iter_mut() {
        if f.name == name {
            f.value = value;
            break;
        }
    }
    Value::Record(fields)
}

#[test]
fn draw_reads_colors_of_either_case_and_of_the_short_forms() {
    let d = Draw::deserialize(&draw_fields_with("color", Value::Text("#FF0000FF".to_owned())));
    assert_eq!(d.unwrap().color, Color { r: 255, g: 0, b: 0, a: 255 });
    let d = Draw::deserialize(&draw_fields_with("color", Value::Text("#f00".to_owned())));
    assert_eq!(d.unwrap().color, Color { r: 255, g: 0, b: 0, a: 255 });
}

#[test]
fn draw_with_a_faulty_color_is_an_error() {
    let d = Draw::deserialize(&draw_fields_with("color", Value::Text(String::new())));
    assert_eq!(d, Err(DecodeError::Color(ColorError::Empty)));
    let d = Draw::deserialize(&draw_fields_with("color", Value::Text("red".to_owned())));
    assert_eq!(d, Err(DecodeError::Color(ColorError::InvalidFormat)));
    let d = Draw::deserialize(&draw_fields_with("color", Value::Text("#c88c50zz".to_owned())));
    assert_eq!(d, Err(DecodeError::Color(ColorError::InvalidDigit)));
    let d = Draw::deserialize(&draw_fields_with("color", Value::Int(0)));
    assert_eq!(d, Err(DecodeError::InvalidType));
}

#[test]
fn draw_with_a_faulty_part_is_an_error() {
    let d = Draw::deserialize(&draw_fields_with("style", Value::Record(Vec::new())));
    assert_eq!(d, Err(DecodeError::MissingField("width")));
    let d = Draw::deserialize(&draw_fields_with("distance", Value::Int(1)));
    assert_eq!(d, Err(DecodeError::InvalidType));
    let d = Draw::deserialize(&draw_fields_with(
        "action",
        Value::Record(vec![field("Blob", Value::Null)]),
    ));
    assert_eq!(d, Err(DecodeError::UnknownVariant));
    let d = Draw::deserialize(&Value::Record(vec![field("style", style().serialize())]));
    assert_eq!(d, Err(DecodeError::MissingField("color")));
}

fn info(id: u32, model: &str, make: &str) -> OutputInfo {
    OutputInfo { id, model: model.to_owned(), make: make.to_owned(), name: None }
}

fn saved(id: u32, model: &str, make: &str, kinds: &[DrawKind]) -> Saved {
    Saved {
        id,
        model: model.to_owned(),
        make: make.to_owned(),
        draws: kinds
            .iter()
            .map(|k| Draw::new(*k, (1, 2), style(), Color { r: 1, g: 2, b: 3, a: 4 }, false))
            .collect(),
    }
}

#[test]
fn stored_draws_are_read_back() {
    let pre = saved(7, "U2720Q", "Dell", &[DrawKind::Pen, DrawKind::Rect, DrawKind::Circle]);
    let post = Saved::deserialize(&through_text(&pre.serialize()));
    assert_eq!(post, Ok(pre));
    let pre = saved(0, "", "", &[]);
    let post = Saved::deserialize(&through_text(&pre.serialize()));
    assert_eq!(post, Ok(pre));
}

#[test]
fn output_is_stored_with_its_display() {
    let mut output = OutPut::new(3, 800, 600, info(7, "U2720Q", "Dell"));
    output.start_draw(Draw::new(DrawKind::Pen, (1, 2), style(), Color { r: 1, g: 2, b: 3, a: 4 }, false));
    output.start_draw(Draw::new(DrawKind::Line, (1, 2), style(), Color { r: 1, g: 2, b: 3, a: 4 }, false));
    let stored = Saved::deserialize(&through_text(&output.save())).unwrap();
    assert_eq!(stored, saved(7, "U2720Q", "Dell", &[DrawKind::Pen, DrawKind::Line]));
}

#[test]
fn one_faulty_draw_fails_the_whole_store() {
    let good = saved(7, "U2720Q", "Dell", &[DrawKind::Pen, DrawKind::Rect]);
    let mut fields = match good.serialize() {
        Value::Record(fields) => fields,
        _ => unreachable!(),
    };
    match &mut fields[3].value {
        Value::List(draws) => draws[1] = draw_fields_with("color", Value::Text("#12".to_owned())),
        _ => unreachable!(),
    }
    assert_eq!(
        Saved::deserialize(&Value::Record(fields)),
        Err(DecodeError::Color(ColorError::InvalidFormat))
    );
}

#[test]
fn stored_draws_go_to_the_display_they_came_from() {
    let mut store = vec![
        saved(1, "A", "X", &[DrawKind::Pen]),
        saved(2, "B", "X", &[DrawKind::Line, DrawKind::Rect]),
        saved(2, "B", "Y", &[DrawKind::Circle]),
        saved(2, "B", "X", &[]),
    ];
    let draws = restore(&mut store, &info(2, "B", "X"));
    assert_eq!(draws.len(), 2);
    assert_eq!(draws[0].tool.kind(), DrawKind::Line);
    assert_eq!(draws[1].tool.kind(), DrawKind::Rect);
    assert_eq!(
        store,
        vec![
            saved(1, "A", "X", &[DrawKind::Pen]),
            saved(2, "B", "Y", &[DrawKind::Circle]),
            saved(2, "B", "X", &[]),
        ]
    );
    let draws = restore(&mut store, &info(3, "B", "X"));
    assert_eq!(draws, Vec::new());
    assert_eq!(store.len(), 3);
    let draws = restore(&mut store, &info(2, "B", "Z"));
    assert_eq!(draws, Vec::new());
    assert_eq!(store.len(), 3);

    let mut output = OutPut::new(3, 800, 600, info(2, "B", "Y"));
    output.start_draw(Draw::new(DrawKind::Pen, (0, 0), style(), Color { r: 0, g: 0, b: 0, a: 0 }, false));
    output.restore(&mut store);
    assert_eq!(output.draws.len(), 1);
    assert_eq!(output.draws[0].tool.kind(), DrawKind::Circle);
    assert_eq!(store.len(), 2);
    output.restore(&mut store);
    assert_eq!(output.draws.len(), 0);
    assert_eq!(store.len(), 2);
}
