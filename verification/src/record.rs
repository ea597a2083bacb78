//! A tree of plain values with named fields: the form in which draws are
//! handed to a store and taken back from it.

use vstd::prelude::*;
use crate::color::ColorError;
use crate::text::str_eq;

verus! {

/// A value of the tree.
#[derive(Debug, PartialEq, Eq)]
pub enum Value {
    Null,
    Bool(bool),
    Int(i64),
    Text(String),
    List(Vec<Value>),
    Record(Vec<Field>),
}

/// A named value of a record.
#[derive(Debug, PartialEq, Eq)]
pub struct Field {
    pub name: String,
    pub value: Value,
}

/// What a `Value` holds.
pub enum Data {
    Null,
    Bool(bool),
    Int(i64),
    Text(Seq<char>),
    List(Seq<Data>),
    Record(Seq<(Seq<char>, Data)>),
}

/// Why a tree is not the value that was asked for.
#[derive(Debug, Clone, Copy, PartialEq, Eq)]
pub enum DecodeError {
    /// A value is of another kind than its place asks for.
    InvalidType,
    /// A number does not fit its field.
    OutOfRange,
    /// A position has not two coordinates.
    InvalidLength,
    /// A record has a field that the value has not.
    UnknownField,
    /// A record has the named field twice.
    DuplicateField(&'static str),
    /// A record lacks the named field.
    MissingField(&'static str),
    /// A tool is of no known shape.
    UnknownVariant,
    /// A text names no line cap.
    Cap,
    /// A text names no line join.
    Join,
    /// A text is no colour.
    Color(ColorError),
}

/// What a value holds.
pub open spec fn data_of(v: Value) -> Data
    decreases v, 0nat,
{
    match v {
        Value::Null => Data::Null,
        Value::Bool(b) => Data::Bool(b),
        Value::Int(i) => Data::Int(i),
        Value::Text(s) => Data::Text(s@),
        Value::List(items) => Data::List(list_data(items, items@.len())),
        Value::Record(fields) => Data::Record(record_data(fields, fields@.len())),
    }
}

/// What the first `n` items of a list hold.
pub open spec fn list_data(items: Vec<Value>, n: nat) -> Seq<Data>
    decreases items, n,
{
    if n == 0 || n > items@.len() {
        Seq::empty()
    } else {
        list_data(items, (n - 1) as nat).push(data_of(items@[n - 1]))
    }
}

/// What the first `n` fields of a record hold.
pub open spec fn record_data(fields: Vec<Field>, n: nat) -> Seq<(Seq<char>, Data)>
    decreases fields, n,
{
    if n == 0 || n > fields@.len() {
        Seq::empty()
    } else {
        record_data(fields, (n - 1) as nat).push(
            (fields@[n - 1].name@, data_of(fields@[n - 1].value)),
        )
    }
}

impl View for Value {
    type V = Data;

    open spec fn view(&self) -> Data {
        data_of(*self)
    }
}

/// A list holds what its items hold, in their order.
pub proof fn lemma_list_data(items: Vec<Value>, n: nat)
    requires
        n <= items@.len(),
    ensures
        list_data(items, n).len() == n,
        forall|i: int| 0 <= i < n ==> #[trigger] list_data(items, n)[i] == items@[i]@,
    decreases n,
{
    if n > 0 {
        lemma_list_data(items, (n - 1) as nat);
    }
}

/// A record holds the names of its fields and what they hold, in their
/// order.
pub proof fn lemma_record_data(fields: Vec<Field>, n: nat)
    requires
        n <= fields@.len(),
    ensures
        record_data(fields, n).len() == n,
        forall|i: int|
            0 <= i < n ==> #[trigger] record_data(fields, n)[i] == (
                fields@[i].name@,
                fields@[i].value@,
            ),
    decreases n,
{
    if n > 0 {
        lemma_record_data(fields, (n - 1) as nat);
    }
}

/// The truth value that a tree stands for.
pub open spec fn bool_of(d: Data) -> Result<bool, DecodeError> {
    match d {
        Data::Bool(b) => Ok(b),
        _ => Err(DecodeError::InvalidType),
    }
}

/// The number between `lo` and `hi` that a tree stands for.
pub open spec fn int_of(d: Data, lo: i64, hi: i64) -> Result<i64, DecodeError> {
    match d {
        Data::Int(i) => if lo <= i <= hi {
            Ok(i)
        } else {
            Err(DecodeError::OutOfRange)
        },
        _ => Err(DecodeError::InvalidType),
    }
}

/// The text that a tree stands for.
pub open spec fn text_of(d: Data) -> Result<Seq<char>, DecodeError> {
    match d {
        Data::Text(s) => Ok(s),
        _ => Err(DecodeError::InvalidType),
    }
}

/// The pointer position that a tree stands for: a list of its two
/// coordinates.
pub open spec fn position_of(d: Data) -> Result<(i32, i32), DecodeError> {
    match d {
        Data::List(items) => if items.len() != 2 {
            Err(DecodeError::InvalidLength)
        } else {
            match int_of(items[0], i32::MIN as i64, i32::MAX as i64) {
                Err(e) => Err(e),
                Ok(x) => match int_of(items[1], i32::MIN as i64, i32::MAX as i64) {
                    Err(e) => Err(e),
                    Ok(y) => Ok((x as i32, y as i32)),
                },
            }
        },
        _ => Err(DecodeError::InvalidType),
    }
}

/// The tree of a pointer position.
pub open spec fn position_data(pos: (i32, i32)) -> Data {
    Data::List(seq![Data::Int(pos.0 as i64), Data::Int(pos.1 as i64)])
}

/// The pointer position, if any, that a tree stands for: nothing for none.
pub open spec fn optional_position_of(d: Data) -> Result<Option<(i32, i32)>, DecodeError> {
    match d {
        Data::Null => Ok(None),
        _ => match position_of(d) {
            Ok(p) => Ok(Some(p)),
            Err(e) => Err(e),
        },
    }
}

/// The tree of a pointer position that may be none.
pub open spec fn optional_position_data(pos: Option<(i32, i32)>) -> Data {
    match pos {
        None => Data::Null,
        Some(p) => position_data(p),
    }
}

/// Reading the tree of a pointer position gives the position back.
pub proof fn lemma_position_round_trip(pos: (i32, i32))
    ensures
        position_of(position_data(pos)) == Ok::<(i32, i32), DecodeError>(pos),
        optional_position_of(position_data(pos)) == Ok::<Option<(i32, i32)>, DecodeError>(
            Some(pos),
        ),
        optional_position_of(Data::Null) == Ok::<Option<(i32, i32)>, DecodeError>(None),
{
}

/// Reads a truth value.
pub fn read_bool(v: &Value) -> (r: Result<bool, DecodeError>)
    ensures
        r == bool_of(v@),
{
    match v {
        Value::Bool(b) => Ok(*b),
        _ => Err(DecodeError::InvalidType),
    }
}

/// Reads a number between `lo` and `hi`.
pub fn read_int(v: &Value, lo: i64, hi: i64) -> (r: Result<i64, DecodeError>)
    ensures
        r == int_of(v@, lo, hi),
{
    match v {
        Value::Int(i) => {
            if lo <= *i && *i <= hi {
                Ok(*i)
            } else {
                Err(DecodeError::OutOfRange)
            }
        },
        _ => Err(DecodeError::InvalidType),
    }
}

/// Reads a text.
pub fn read_text(v: &Value) -> (r: Result<&str, DecodeError>)
    ensures
        match r {
            Ok(s) => text_of(v@) == Ok::<Seq<char>, DecodeError>(s@),
            Err(e) => text_of(v@) == Err::<Seq<char>, DecodeError>(e),
        },
{
    match v {
        Value::Text(s) => Ok(s.as_str()),
        _ => Err(DecodeError::InvalidType),
    }
}

/// Reads a pointer position.
pub fn read_position(v: &Value) -> (r: Result<(i32, i32), DecodeError>)
    ensures
        r == position_of(v@),
{
    match v {
        Value::List(items) => {
            proof {
                lemma_list_data(*items, items@.len());
            }
            if items.len() != 2 {
                return Err(DecodeError::InvalidLength);
            }
            let x = match read_int(&items[0], i32::MIN as i64, i32::MAX as i64) {
                Ok(x) => x,
                Err(e) => {
                    return Err(e);
                },
            };
            let y = match read_int(&items[1], i32::MIN as i64, i32::MAX as i64) {
                Ok(y) => y,
                Err(e) => {
                    return Err(e);
                },
            };
            Ok((x as i32, y as i32))
        },
        _ => Err(DecodeError::InvalidType),
    }
}

/// Reads a pointer position that may be none.
pub fn read_optional_position(v: &Value) -> (r: Result<Option<(i32, i32)>, DecodeError>)
    ensures
        r == optional_position_of(v@),
{
    match v {
        Value::Null => Ok(None),
        _ => match read_position(v) {
            Ok(p) => Ok(Some(p)),
            Err(e) => Err(e),
        },
    }
}

/// The tree of a pointer position.
pub fn position_value(pos: (i32, i32)) -> (v: Value)
    ensures
        v@ == position_data(pos),
{
    let mut items: Vec<Value> = Vec::new();
    items.push(Value::Int(pos.0 as i64));
    items.push(Value::Int(pos.1 as i64));
    proof {
        lemma_list_data(items, 2);
        assert(list_data(items, 2) =~= seq![Data::Int(pos.0 as i64), Data::Int(pos.1 as i64)]);
    }
    Value::List(items)
}

/// The tree of a pointer position that may be none.
pub fn optional_position_value(pos: Option<(i32, i32)>) -> (v: Value)
    ensures
        v@ == optional_position_data(pos),
{
    match pos {
        None => Value::Null,
        Some(p) => position_value(p),
    }
}

/// A field of a record.
pub fn field(name: &'static str, value: Value) -> (f: Field)
    ensures
        f.name@ == name@,
        f.value == value,
{
    Field { name: name.to_owned(), value }
}

/// The place of a name among the names from `from` on: the index of the
/// first that equals it, or -1.
pub open spec fn slot_of(names: Seq<&'static str>, name: Seq<char>, from: int) -> int
    decreases names.len() - from,
{
    if from < 0 || from >= names.len() {
        -1
    } else if names[from]@ == name {
        from
    } else {
        slot_of(names, name, from + 1)
    }
}

/// The slots, one for each name, after the first `n` fields of a record
/// were taken in, each field in turn: a field whose name is none of the
/// names, or whose slot is taken, stops the scan.
pub open spec fn scan_fields(
    fields: Seq<(Seq<char>, Data)>,
    names: Seq<&'static str>,
    n: nat,
) -> Result<Seq<Option<usize>>, DecodeError>
    decreases n,
{
    if n == 0 {
        Ok(Seq::new(names.len(), |k: int| None::<usize>))
    } else {
        match scan_fields(fields, names, (n - 1) as nat) {
            Err(e) => Err(e),
            Ok(slots) => {
                let k = slot_of(names, fields[n - 1].0, 0);
                if k < 0 {
                    Err(DecodeError::UnknownField)
                } else if slots[k] is Some {
                    Err(DecodeError::DuplicateField(names[k]))
                } else {
                    Ok(slots.update(k, Some((n - 1) as usize)))
                }
            },
        }
    }
}

/// The first empty slot from `from` on, or -1.
pub open spec fn first_missing(slots: Seq<Option<usize>>, from: int) -> int
    decreases slots.len() - from,
{
    if from < 0 || from >= slots.len() {
        -1
    } else if slots[from] is None {
        from
    } else {
        first_missing(slots, from + 1)
    }
}

/// Where in a record each of the names stands. The fields are taken in
/// turn, and the first that is unknown or comes a second time is the error;
/// after that the first name, in the order of the names, that no field has.
pub open spec fn locate_fields(fields: Seq<(Seq<char>, Data)>, names: Seq<&'static str>) -> Result<
    Seq<usize>,
    DecodeError,
> {
    match scan_fields(fields, names, fields.len()) {
        Err(e) => Err(e),
        Ok(slots) => {
            let m = first_missing(slots, 0);
            if m >= 0 {
                Err(DecodeError::MissingField(names[m]))
            } else {
                Ok(Seq::new(slots.len(), |k: int| slots[k]->0))
            }
        },
    }
}

proof fn lemma_slot_of(names: Seq<&'static str>, name: Seq<char>, from: int)
    requires
        0 <= from,
    ensures
        slot_of(names, name, from) == -1 || (from <= slot_of(names, name, from) < names.len()
            && names[slot_of(names, name, from)]@ == name),
        slot_of(names, name, from) == -1 ==> forall|k: int|
            from <= k < names.len() ==> (#[trigger] names[k])@ != name,
    decreases names.len() - from,
{
    if from < names.len() && names[from]@ != name {
        lemma_slot_of(names, name, from + 1);
    }
}

proof fn lemma_first_missing(slots: Seq<Option<usize>>, from: int)
    requires
        0 <= from,
    ensures
        first_missing(slots, from) == -1 || (from <= first_missing(slots, from) < slots.len()
            && slots[first_missing(slots, from)] is None),
        first_missing(slots, from) == -1 ==> forall|k: int|
            from <= k < slots.len() ==> (#[trigger] slots[k]) is Some,
    decreases slots.len() - from,
{
    if from < slots.len() && slots[from] is Some {
        lemma_first_missing(slots, from + 1);
    }
}

proof fn lemma_scan_fields(fields: Seq<(Seq<char>, Data)>, names: Seq<&'static str>, n: nat)
    requires
        n <= fields.len() <= usize::MAX,
    ensures
        scan_fields(fields, names, n) matches Ok(slots) ==> {
            &&& slots.len() == names.len()
            &&& forall|k: int|
                0 <= k < slots.len() ==> ((#[trigger] slots[k]) matches Some(i) ==> i < n
                    && fields[i as int].0 == names[k]@)
        },
    decreases n,
{
    if n > 0 {
        lemma_scan_fields(fields, names, (n - 1) as nat);
        lemma_slot_of(names, fields[n - 1].0, 0);
    }
}

/// Where a record has each of the names, once all were found: each index
/// lies in the record, at a field of that name.
pub proof fn lemma_located(fields: Seq<(Seq<char>, Data)>, names: Seq<&'static str>)
    requires
        fields.len() <= usize::MAX,
    ensures
        locate_fields(fields, names) matches Ok(at) ==> {
            &&& at.len() == names.len()
            &&& forall|k: int|
                0 <= k < at.len() ==> (#[trigger] at[k]) < fields.len() && fields[at[k] as int].0
                    == names[k]@
        },
{
    lemma_scan_fields(fields, names, fields.len());
    if let Ok(slots) = scan_fields(fields, names, fields.len()) {
        lemma_first_missing(slots, 0);
    }
}

/// A record that has exactly the names, each once and in their order, has
/// each name at its own index.
pub proof fn lemma_locate_in_order(fields: Seq<(Seq<char>, Data)>, names: Seq<&'static str>)
    requires
        fields.len() == names.len(),
        names.len() <= usize::MAX,
        forall|k: int| 0 <= k < names.len() ==> (#[trigger] fields[k]).0 == names[k]@,
        forall|i: int, j: int|
            0 <= i < j < names.len() ==> (#[trigger] names[i])@ != (#[trigger] names[j])@,
    ensures
        locate_fields(fields, names) == Ok::<Seq<usize>, DecodeError>(
            Seq::new(names.len(), |k: int| k as usize),
        ),
{
    lemma_scan_in_order(fields, names, fields.len());
    let slots = scan_fields(fields, names, fields.len())->Ok_0;
    lemma_first_missing(slots, 0);
    assert(Seq::new(slots.len(), |k: int| slots[k]->0) =~= Seq::new(
        names.len(),
        |k: int| k as usize,
    ));
}

proof fn lemma_scan_in_order(fields: Seq<(Seq<char>, Data)>, names: Seq<&'static str>, n: nat)
    requires
        n <= fields.len(),
        fields.len() == names.len(),
        names.len() <= usize::MAX,
        forall|k: int| 0 <= k < names.len() ==> (#[trigger] fields[k]).0 == names[k]@,
        forall|i: int, j: int|
            0 <= i < j < names.len() ==> (#[trigger] names[i])@ != (#[trigger] names[j])@,
    ensures
        scan_fields(fields, names, n) matches Ok(slots) && slots.len() == names.len()
            && forall|k: int|
            0 <= k < names.len() ==> #[trigger] slots[k] == if k < n {
                Some(k as usize)
            } else {
                None
            },
    decreases n,
{
    if n > 0 {
        lemma_scan_in_order(fields, names, (n - 1) as nat);
        let name = fields[n - 1].0;
        lemma_slot_of(names, name, 0);
        let k = slot_of(names, name, 0);
        assert(names[n - 1]@ == name);
        if k != n - 1 {
            if k == -1 {
                assert(names[n - 1]@ != name);
            } else if k < n - 1 {
                assert(names[k]@ != names[n - 1]@);
            } else {
                assert(names[n - 1]@ != names[k]@);
            }
        }
    }
}

fn find_slot(names: &Vec<&'static str>, name: &str) -> (r: Option<usize>)
    ensures
        match r {
            Some(k) => slot_of(names@, name@, 0) == k,
            None => slot_of(names@, name@, 0) == -1,
        },
{
    let mut k: usize = 0;
    while k < names.len()
        invariant
            k <= names@.len(),
            slot_of(names@, name@, 0) == slot_of(names@, name@, k as int),
        decreases names@.len() - k,
    {
        if str_eq(names[k], name) {
            return Some(k);
        }
        k += 1;
    }
    None
}

/// Finds each of the names in a record.
pub fn locate(fields: &Vec<Field>, names: &Vec<&'static str>) -> (r: Result<
    Vec<usize>,
    DecodeError,
>)
    ensures
        match r {
            Ok(at) => {
                &&& locate_fields(record_data(*fields, fields@.len()), names@) == Ok::<
                    Seq<usize>,
                    DecodeError,
                >(at@)
                &&& at@.len() == names@.len()
                &&& forall|k: int|
                    0 <= k < at@.len() ==> (#[trigger] at@[k]) < fields@.len()
                        && fields@[at@[k] as int].name@ == names@[k]@
            },
            Err(e) => locate_fields(record_data(*fields, fields@.len()), names@) == Err::<
                Seq<usize>,
                DecodeError,
            >(e),
        },
{
    let ghost data = record_data(*fields, fields@.len());
    proof {
        lemma_record_data(*fields, fields@.len());
    }
    let mut slots: Vec<Option<usize>> = Vec::new();
    let mut k: usize = 0;
    while k < names.len()
        invariant
            k <= names@.len(),
            slots@.len() == k,
            forall|j: int| 0 <= j < k ==> (#[trigger] slots@[j]) is None,
        decreases names@.len() - k,
    {
        slots.push(None);
        k += 1;
    }
    assert(slots@ =~= Seq::new(names@.len(), |k: int| None::<usize>));
    let mut i: usize = 0;
    while i < fields.len()
        invariant
            i <= fields@.len(),
            data == record_data(*fields, fields@.len()),
            data.len() == fields@.len(),
            forall|j: int|
                0 <= j < fields@.len() ==> #[trigger] data[j] == (
                    fields@[j].name@,
                    fields@[j].value@,
                ),
            slots@.len() == names@.len(),
            scan_fields(data, names@, i as nat) == Ok::<Seq<Option<usize>>, DecodeError>(slots@),
        decreases fields@.len() - i,
    {
        proof {
            lemma_slot_of(names@, data[i as int].0, 0);
        }
        match find_slot(names, fields[i].name.as_str()) {
            None => {
                proof {
                    lemma_scan_stops(data, names@, (i + 1) as nat, fields@.len() as nat);
                }
                return Err(DecodeError::UnknownField);
            },
            Some(k) => {
                if slots[k].is_some() {
                    proof {
                        lemma_scan_stops(data, names@, (i + 1) as nat, fields@.len() as nat);
                    }
                    return Err(DecodeError::DuplicateField(names[k]));
                }
                slots[k] = Some(i);
            },
        }
        i += 1;
    }
    let mut at: Vec<usize> = Vec::new();
    let mut k: usize = 0;
    while k < slots.len()
        invariant
            k <= slots@.len(),
            slots@.len() == names@.len(),
            at@.len() == k,
            data == record_data(*fields, fields@.len()),
            data.len() == fields@.len(),
            forall|j: int|
                0 <= j < fields@.len() ==> #[trigger] data[j] == (
                    fields@[j].name@,
                    fields@[j].value@,
                ),
            scan_fields(data, names@, data.len()) == Ok::<Seq<Option<usize>>, DecodeError>(
                slots@,
            ),
            first_missing(slots@, 0) == first_missing(slots@, k as int),
            forall|j: int| 0 <= j < k ==> (#[trigger] slots@[j]) == Some(at@[j]),
        decreases slots@.len() - k,
    {
        match slots[k] {
            None => {
                return Err(DecodeError::MissingField(names[k]));
            },
            Some(i) => {
                at.push(i);
            },
        }
        k += 1;
    }
    proof {
        lemma_first_missing(slots@, 0);
        lemma_located(data, names@);
        assert(at@ =~= Seq::new(slots@.len(), |k: int| slots@[k]->0));
    }
    Ok(at)
}

proof fn lemma_scan_stops(
    fields: Seq<(Seq<char>, Data)>,
    names: Seq<&'static str>,
    n: nat,
    m: nat,
)
    requires
        n <= m,
        scan_fields(fields, names, n) is Err,
    ensures
        scan_fields(fields, names, m) == scan_fields(fields, names, n),
    decreases m,
{
    if n < m {
        lemma_scan_stops(fields, names, n, (m - 1) as nat);
    }
}

} // verus!
