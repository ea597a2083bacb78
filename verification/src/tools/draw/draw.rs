//! What the shapes share: lengths along the axes, and the style of the
//! stroke that draws them.

use vstd::prelude::*;
use vstd::string::*;
use crate::record::{
    field, int_of, lemma_list_data, lemma_locate_in_order, lemma_record_data, locate,
    locate_fields, read_int, read_text, text_of, Data, DecodeError, Field, Value,
};
use crate::text::str_eq;

verus! {

/// How far a fresh line, rectangle or circle reaches from its start along
/// each axis before the pointer has moved: twenty pixels.
pub const INITIAL_REACH: i64 = 5120;

/// The way from `pos` to `motion`, along each axis.
pub open spec fn diff_spec(pos: (i32, i32), motion: (i32, i32)) -> (i64, i64) {
    ((motion.0 - pos.0) as i64, (motion.1 - pos.1) as i64)
}

/// The way from `pos` to `motion`, along each axis.
pub fn diff(pos: (i32, i32), motion: (i32, i32)) -> (d: (i64, i64))
    ensures
        d == diff_spec(pos, motion),
        d.0 == motion.0 - pos.0,
        d.1 == motion.1 - pos.1,
{
    (motion.0 as i64 - pos.0 as i64, motion.1 as i64 - pos.1 as i64)
}

/// The size of a signed length.
pub open spec fn magnitude(v: i64) -> i64 {
    if v < 0 {
        (-v) as i64
    } else {
        v
    }
}

/// The size of a signed length.
pub(crate) fn abs(v: i64) -> (m: i64)
    requires
        v > i64::MIN,
    ensures
        m == magnitude(v),
        m >= 0,
{
    if v < 0 {
        -v
    } else {
        v
    }
}

/// How the ends of a stroke are drawn.
#[derive(Debug, Clone, Copy, PartialEq, Eq, Structural)]
pub enum LineCap {
    Round,
    Square,
    Butt,
}

/// How the corners of a stroke are drawn.
#[derive(Debug, Clone, Copy, PartialEq, Eq, Structural)]
pub enum LineJoin {
    Round,
    Miter,
    Bevel,
}

impl LineCap {
    /// The name of the cap in a store.
    pub open spec fn spec_name(&self) -> &'static str {
        match self {
            LineCap::Round => "round",
            LineCap::Square => "square",
            LineCap::Butt => "butt",
        }
    }

    /// The name of the cap in a store.
    #[verifier::when_used_as_spec(spec_name)]
    pub fn name(&self) -> (s: &'static str)
        ensures
            s == self.spec_name(),
    {
        match self {
            LineCap::Round => "round",
            LineCap::Square => "square",
            LineCap::Butt => "butt",
        }
    }
}

impl LineJoin {
    /// The name of the join in a store.
    pub open spec fn spec_name(&self) -> &'static str {
        match self {
            LineJoin::Round => "round",
            LineJoin::Miter => "miter",
            LineJoin::Bevel => "bevel",
        }
    }

    /// The name of the join in a store.
    #[verifier::when_used_as_spec(spec_name)]
    pub fn name(&self) -> (s: &'static str)
        ensures
            s == self.spec_name(),
    {
        match self {
            LineJoin::Round => "round",
            LineJoin::Miter => "miter",
            LineJoin::Bevel => "bevel",
        }
    }
}

/// The cap that a text names.
pub open spec fn cap_of(s: Seq<char>) -> Option<LineCap> {
    if s == "round"@ {
        Some(LineCap::Round)
    } else if s == "square"@ {
        Some(LineCap::Square)
    } else if s == "butt"@ {
        Some(LineCap::Butt)
    } else {
        None
    }
}

/// The join that a text names.
pub open spec fn join_of(s: Seq<char>) -> Option<LineJoin> {
    if s == "round"@ {
        Some(LineJoin::Round)
    } else if s == "miter"@ {
        Some(LineJoin::Miter)
    } else if s == "bevel"@ {
        Some(LineJoin::Bevel)
    } else {
        None
    }
}

/// Reads the name of a cap. Any other text comes back in the error,
/// followed by the words " is not a cap".
pub fn read_cap(str: &str) -> (r: Result<LineCap, String>)
    ensures
        match r {
            Ok(cap) => cap_of(str@) == Some(cap),
            Err(message) => cap_of(str@) is None && message@ == str@ + " is not a cap"@,
        },
{
    if str_eq(str, "round") {
        Ok(LineCap::Round)
    } else if str_eq(str, "square") {
        Ok(LineCap::Square)
    } else if str_eq(str, "butt") {
        Ok(LineCap::Butt)
    } else {
        Err(str.to_owned().concat(" is not a cap"))
    }
}

/// Reads the name of a join. Any other text comes back in the error,
/// followed by the words " is not a join".
pub fn read_join(str: &str) -> (r: Result<LineJoin, String>)
    ensures
        match r {
            Ok(join) => join_of(str@) == Some(join),
            Err(message) => join_of(str@) is None && message@ == str@ + " is not a join"@,
        },
{
    if str_eq(str, "round") {
        Ok(LineJoin::Round)
    } else if str_eq(str, "miter") {
        Ok(LineJoin::Miter)
    } else if str_eq(str, "bevel") {
        Ok(LineJoin::Bevel)
    } else {
        Err(str.to_owned().concat(" is not a join"))
    }
}

/// Every cap is read back from its name.
pub proof fn lemma_cap_name(cap: LineCap)
    ensures
        cap_of(cap.spec_name()@) == Some(cap),
{
    reveal_strlit("round");
    reveal_strlit("square");
    reveal_strlit("butt");
    assert("round"@.len() == 5 && "square"@.len() == 6 && "butt"@.len() == 4);
}

/// Every join is read back from its name.
pub proof fn lemma_join_name(join: LineJoin)
    ensures
        join_of(join.spec_name()@) == Some(join),
{
    reveal_strlit("round");
    reveal_strlit("miter");
    reveal_strlit("bevel");
    assert("round"@[0] == 'r' && "miter"@[0] == 'm' && "bevel"@[0] == 'b');
}

/// The style of a stroke. The width, the dashes and the dash offset are
/// lengths; the miter limit is a ratio with eight fractional bits.
#[derive(Debug, PartialEq, Eq)]
pub struct StrokeStyleSerialize {
    pub width: u32,
    pub cap: LineCap,
    pub join: LineJoin,
    pub miter_limit: i32,
    pub dash_array: Vec<i32>,
    pub dash_offset: i32,
}

/// What a `StrokeStyleSerialize` holds.
pub struct StyleView {
    pub width: u32,
    pub cap: LineCap,
    pub join: LineJoin,
    pub miter_limit: i32,
    pub dash_array: Seq<i32>,
    pub dash_offset: i32,
}

impl View for StrokeStyleSerialize {
    type V = StyleView;

    open spec fn view(&self) -> StyleView {
        StyleView {
            width: self.width,
            cap: self.cap,
            join: self.join,
            miter_limit: self.miter_limit,
            dash_array: self.dash_array@,
            dash_offset: self.dash_offset,
        }
    }
}

impl StyleView {
    /// A solid stroke one pixel wide, with butt caps and miter joins up to
    /// a limit of ten.
    pub open spec fn plain() -> StyleView {
        StyleView {
            width: 256,
            cap: LineCap::Butt,
            join: LineJoin::Miter,
            miter_limit: 2560,
            dash_array: Seq::empty(),
            dash_offset: 0,
        }
    }
}

impl Default for StrokeStyleSerialize {
    fn default() -> (style: StrokeStyleSerialize)
        ensures
            style@ == StyleView::plain(),
    {
        StrokeStyleSerialize {
            width: 256,
            cap: LineCap::Butt,
            join: LineJoin::Miter,
            miter_limit: 2560,
            dash_array: Vec::new(),
            dash_offset: 0,
        }
    }
}

impl Clone for StrokeStyleSerialize {
    fn clone(&self) -> (style: StrokeStyleSerialize)
        ensures
            style@ == self@,
    {
        let mut dash_array: Vec<i32> = Vec::new();
        let mut i: usize = 0;
        while i < self.dash_array.len()
            invariant
                i <= self.dash_array@.len(),
                dash_array@ == self.dash_array@.take(i as int),
            decreases self.dash_array@.len() - i,
        {
            dash_array.push(self.dash_array[i]);
            assert(self.dash_array@.take(i + 1) =~= self.dash_array@.take(i as int).push(
                self.dash_array@[i as int],
            ));
            i += 1;
        }
        assert(self.dash_array@.take(i as int) =~= self.dash_array@);
        StrokeStyleSerialize {
            width: self.width,
            cap: self.cap,
            join: self.join,
            miter_limit: self.miter_limit,
            dash_array,
            dash_offset: self.dash_offset,
        }
    }
}

/// The names of the fields of a style, in the order in which it is
/// written.
pub open spec fn style_names() -> Seq<&'static str> {
    seq!["width", "cap", "join", "miter_limit", "dash_array", "dash_offset"]
}

/// The trees of some lengths.
pub open spec fn ints_data(values: Seq<i32>) -> Seq<Data> {
    Seq::new(values.len(), |i: int| Data::Int(values[i] as i64))
}

/// The lengths that the first `n` trees stand for; the first that is no
/// length is the error.
pub open spec fn ints_of(items: Seq<Data>, n: nat) -> Result<Seq<i32>, DecodeError>
    decreases n,
{
    if n == 0 {
        Ok(Seq::empty())
    } else {
        match ints_of(items, (n - 1) as nat) {
            Err(e) => Err(e),
            Ok(values) => match int_of(items[n - 1], i32::MIN as i64, i32::MAX as i64) {
                Err(e) => Err(e),
                Ok(v) => Ok(values.push(v as i32)),
            },
        }
    }
}

/// The dashes that a tree stands for.
pub open spec fn dashes_of(d: Data) -> Result<Seq<i32>, DecodeError> {
    match d {
        Data::List(items) => ints_of(items, items.len()),
        _ => Err(DecodeError::InvalidType),
    }
}

/// The tree of a style: a record of its six fields, the cap and the join
/// by their names.
pub open spec fn style_data(style: StyleView) -> Data {
    Data::Record(
        seq![
            ("width"@, Data::Int(style.width as i64)),
            ("cap"@, Data::Text(style.cap.spec_name()@)),
            ("join"@, Data::Text(style.join.spec_name()@)),
            ("miter_limit"@, Data::Int(style.miter_limit as i64)),
            ("dash_array"@, Data::List(ints_data(style.dash_array))),
            ("dash_offset"@, Data::Int(style.dash_offset as i64)),
        ],
    )
}

/// The style that a tree stands for. The tree is a record of the six
/// fields, in any order; the fields are read in the order of their names.
pub open spec fn style_of(d: Data) -> Result<StyleView, DecodeError> {
    match d {
        Data::Record(fields) => match locate_fields(fields, style_names()) {
            Err(e) => Err(e),
            Ok(at) => match int_of(fields[at[0] as int].1, 0, u32::MAX as i64) {
                Err(e) => Err(e),
                Ok(width) => match text_of(fields[at[1] as int].1) {
                    Err(e) => Err(e),
                    Ok(cap_name) => match cap_of(cap_name) {
                        None => Err(DecodeError::Cap),
                        Some(cap) => match text_of(fields[at[2] as int].1) {
                            Err(e) => Err(e),
                            Ok(join_name) => match join_of(join_name) {
                                None => Err(DecodeError::Join),
                                Some(join) => match int_of(
                                    fields[at[3] as int].1,
                                    i32::MIN as i64,
                                    i32::MAX as i64,
                                ) {
                                    Err(e) => Err(e),
                                    Ok(miter_limit) => match dashes_of(fields[at[4] as int].1) {
                                        Err(e) => Err(e),
                                        Ok(dash_array) => match int_of(
                                            fields[at[5] as int].1,
                                            i32::MIN as i64,
                                            i32::MAX as i64,
                                        ) {
                                            Err(e) => Err(e),
                                            Ok(dash_offset) => Ok(
                                                StyleView {
                                                    width: width as u32,
                                                    cap,
                                                    join,
                                                    miter_limit: miter_limit as i32,
                                                    dash_array,
                                                    dash_offset: dash_offset as i32,
                                                },
                                            ),
                                        },
                                    },
                                },
                            },
                        },
                    },
                },
            },
        },
        _ => Err(DecodeError::InvalidType),
    }
}

proof fn lemma_style_names_distinct()
    ensures
        style_names().len() == 6,
        forall|i: int, j: int|
            0 <= i < j < style_names().len() ==> (#[trigger] style_names()[i])@ != (
            #[trigger] style_names()[j])@,
{
    reveal_strlit("width");
    reveal_strlit("cap");
    reveal_strlit("join");
    reveal_strlit("miter_limit");
    reveal_strlit("dash_array");
    reveal_strlit("dash_offset");
    let names = style_names();
    assert(names[0]@.len() == 5 && names[0]@[0] == 'w');
    assert(names[1]@.len() == 3 && names[1]@[0] == 'c');
    assert(names[2]@.len() == 4 && names[2]@[0] == 'j');
    assert(names[3]@.len() == 11 && names[3]@[0] == 'm');
    assert(names[4]@.len() == 10 && names[4]@[0] == 'd');
    assert(names[5]@.len() == 11 && names[5]@[0] == 'd');
    assert forall|i: int, j: int| 0 <= i < j < names.len() implies (#[trigger] names[i])@ != (
    #[trigger] names[j])@ by {
        assert(names[i]@.len() != names[j]@.len() || names[i]@[0] != names[j]@[0]);
    }
}

proof fn lemma_ints_round_trip(values: Seq<i32>, n: nat)
    requires
        n <= values.len(),
    ensures
        ints_of(ints_data(values), n) == Ok::<Seq<i32>, DecodeError>(values.take(n as int)),
    decreases n,
{
    if n == 0 {
        assert(values.take(0) =~= Seq::<i32>::empty());
    } else {
        lemma_ints_round_trip(values, (n - 1) as nat);
        assert(values.take(n as int) =~= values.take(n - 1).push(values[n - 1]));
    }
}

/// Reading the tree of a style gives the style back.
pub proof fn lemma_style_round_trip(style: StyleView)
    ensures
        style_of(style_data(style)) == Ok::<StyleView, DecodeError>(style),
{
    let fields = style_data(style)->Record_0;
    lemma_style_names_distinct();
    lemma_locate_in_order(fields, style_names());
    lemma_cap_name(style.cap);
    lemma_join_name(style.join);
    lemma_ints_round_trip(style.dash_array, style.dash_array.len());
    assert(style.dash_array.take(style.dash_array.len() as int) =~= style.dash_array);
    assert(ints_data(style.dash_array).len() == style.dash_array.len());
}

fn style_fields() -> (names: Vec<&'static str>)
    ensures
        names@ == style_names(),
{
    let mut names: Vec<&'static str> = Vec::new();
    names.push("width");
    names.push("cap");
    names.push("join");
    names.push("miter_limit");
    names.push("dash_array");
    names.push("dash_offset");
    assert(names@ =~= style_names());
    names
}

fn read_dashes(v: &Value) -> (r: Result<Vec<i32>, DecodeError>)
    ensures
        match r {
            Ok(values) => dashes_of(v@) == Ok::<Seq<i32>, DecodeError>(values@),
            Err(e) => dashes_of(v@) == Err::<Seq<i32>, DecodeError>(e),
        },
{
    match v {
        Value::List(items) => {
            let ghost data = v@->List_0;
            proof {
                lemma_list_data(*items, items@.len());
            }
            let mut values: Vec<i32> = Vec::new();
            let mut i: usize = 0;
            while i < items.len()
                invariant
                    i <= items@.len(),
                    v@ == Data::List(data),
                    data.len() == items@.len(),
                    forall|j: int| 0 <= j < items@.len() ==> #[trigger] data[j] == items@[j]@,
                    ints_of(data, i as nat) == Ok::<Seq<i32>, DecodeError>(values@),
                decreases items@.len() - i,
            {
                match read_int(&items[i], i32::MIN as i64, i32::MAX as i64) {
                    Err(e) => {
                        proof {
                            assert(ints_of(data, (i + 1) as nat) == Err::<Seq<i32>, DecodeError>(
                                e,
                            ));
                            lemma_ints_stop(data, (i + 1) as nat, data.len());
                        }
                        return Err(e);
                    },
                    Ok(x) => {
                        values.push(x as i32);
                    },
                }
                i += 1;
            }
            Ok(values)
        },
        _ => Err(DecodeError::InvalidType),
    }
}

proof fn lemma_ints_stop(items: Seq<Data>, n: nat, m: nat)
    requires
        n <= m,
        ints_of(items, n) is Err,
    ensures
        ints_of(items, m) == ints_of(items, n),
    decreases m,
{
    if n < m {
        lemma_ints_stop(items, n, (m - 1) as nat);
    }
}

fn dashes_value(values: &Vec<i32>) -> (v: Value)
    ensures
        v@ == Data::List(ints_data(values@)),
{
    let mut items: Vec<Value> = Vec::new();
    let mut i: usize = 0;
    while i < values.len()
        invariant
            i <= values@.len(),
            items@.len() == i,
            forall|j: int| 0 <= j < i ==> (#[trigger] items@[j])@ == Data::Int(values@[j] as i64),
        decreases values@.len() - i,
    {
        items.push(Value::Int(values[i] as i64));
        i += 1;
    }
    proof {
        lemma_list_data(items, items@.len());
        assert(crate::record::list_data(items, items@.len()) =~= ints_data(values@));
    }
    Value::List(items)
}

impl StrokeStyleSerialize {
    /// The tree of this style.
    pub fn serialize(&self) -> (v: Value)
        ensures
            v@ == style_data(self@),
    {
        let mut fields: Vec<Field> = Vec::new();
        fields.push(field("width", Value::Int(self.width as i64)));
        fields.push(field("cap", Value::Text(self.cap.name().to_owned())));
        fields.push(field("join", Value::Text(self.join.name().to_owned())));
        fields.push(field("miter_limit", Value::Int(self.miter_limit as i64)));
        fields.push(field("dash_array", dashes_value(&self.dash_array)));
        fields.push(field("dash_offset", Value::Int(self.dash_offset as i64)));
        proof {
            lemma_record_data(fields, 6);
            assert(crate::record::record_data(fields, 6) =~= style_data(self@)->Record_0);
        }
        Value::Record(fields)
    }

    /// Reads a style from its tree.
    pub fn deserialize(v: &Value) -> (r: Result<StrokeStyleSerialize, DecodeError>)
        ensures
            match r {
                Ok(style) => style_of(v@) == Ok::<StyleView, DecodeError>(style@),
                Err(e) => style_of(v@) == Err::<StyleView, DecodeError>(e),
            },
    {
        match v {
            Value::Record(fields) => {
                proof {
                    lemma_record_data(*fields, fields@.len());
                }
                let names = style_fields();
                let at = match locate(fields, &names) {
                    Ok(at) => at,
                    Err(e) => {
                        return Err(e);
                    },
                };
                let width = match read_int(&fields[at[0]].value, 0, u32::MAX as i64) {
                    Ok(width) => width as u32,
                    Err(e) => {
                        return Err(e);
                    },
                };
                let cap_name = match read_text(&fields[at[1]].value) {
                    Ok(name) => name,
                    Err(e) => {
                        return Err(e);
                    },
                };
                let cap = match read_cap(cap_name) {
                    Ok(cap) => cap,
                    Err(_) => {
                        return Err(DecodeError::Cap);
                    },
                };
                let join_name = match read_text(&fields[at[2]].value) {
                    Ok(name) => name,
                    Err(e) => {
                        return Err(e);
                    },
                };
                let join = match read_join(join_name) {
                    Ok(join) => join,
                    Err(_) => {
                        return Err(DecodeError::Join);
                    },
                };
                let miter_limit = match read_int(
                    &fields[at[3]].value,
                    i32::MIN as i64,
                    i32::MAX as i64,
                ) {
                    Ok(miter_limit) => miter_limit as i32,
                    Err(e) => {
                        return Err(e);
                    },
                };
                let dash_array = match read_dashes(&fields[at[4]].value) {
                    Ok(dash_array) => dash_array,
                    Err(e) => {
                        return Err(e);
                    },
                };
                let dash_offset = match read_int(
                    &fields[at[5]].value,
                    i32::MIN as i64,
                    i32::MAX as i64,
                ) {
                    Ok(dash_offset) => dash_offset as i32,
                    Err(e) => {
                        return Err(e);
                    },
                };
                Ok(StrokeStyleSerialize { width, cap, join, miter_limit, dash_array, dash_offset })
            },
            _ => Err(DecodeError::InvalidType),
        }
    }
}

} // verus!
