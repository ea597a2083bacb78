//! One output and its list of draws.

use vstd::prelude::*;
use vstd::string::*;
use crate::color::Color;
use crate::draw::{draw_data, draw_of, lemma_draw_round_trip, Draw, DrawView};
use crate::keymap::Modifiers;
use crate::pause::FrameFormat;
use crate::record::{
    field, int_of, lemma_list_data, lemma_locate_in_order, lemma_record_data, list_data, locate,
    locate_fields, read_int, read_text, record_data, text_of, Data, DecodeError, Field, Value,
};

verus! {

/// How a surface takes part in keyboard focus.
#[derive(Debug, Clone, Copy, PartialEq, Eq, Structural)]
pub enum KeyboardInteractivity {
    /// The surface never has the keyboard.
    Never,
    /// The surface has the keyboard to itself.
    Exclusive,
    /// The surface gets the keyboard when it is asked for.
    OnDemand,
}

/// What is known of the display behind an output.
#[derive(Debug, PartialEq, Eq)]
pub struct OutputInfo {
    pub id: u32,
    pub model: String,
    pub make: String,
    pub name: Option<String>,
}

/// What an `OutputInfo` holds.
pub struct OutputInfoView {
    pub id: u32,
    pub model: Seq<char>,
    pub make: Seq<char>,
    pub name: Option<Seq<char>>,
}

impl View for OutputInfo {
    type V = OutputInfoView;

    open spec fn view(&self) -> OutputInfoView {
        OutputInfoView {
            id: self.id,
            model: self.model@,
            make: self.make@,
            name: match self.name {
                Some(n) => Some(n@),
                None => None,
            },
        }
    }
}

/// The two buffers of an output, of which one is being drawn into.
#[derive(Debug, Clone, Copy, PartialEq, Eq, Structural)]
pub struct Buffers {
    /// The buffer to draw into: 0 or 1.
    pub current: usize,
}

/// The size of one buffer of an output.
#[derive(Debug, Clone, Copy, PartialEq, Eq, Structural)]
pub struct BufferLayout {
    pub width: i32,
    pub height: i32,
    /// The bytes of one row: four for each pixel.
    pub stride: i32,
    /// The bytes of one buffer, with which the pool of the output starts.
    pub pool: usize,
}

impl Buffers {
    /// Two buffers, the first of them current.
    pub fn new() -> (buffers: Buffers)
        ensures
            buffers.current == 0,
    {
        Buffers { current: 0 }
    }

    /// Makes the other buffer current.
    pub fn flip(&mut self)
        ensures
            final(self).current == if old(self).current == 0 {
                1usize
            } else {
                0usize
            },
            old(self).current <= 1 ==> final(self).current == 1 - old(self).current,
    {
        self.current = if self.current == 0 {
            1
        } else {
            0
        };
    }

    /// The index of the current buffer.
    pub fn buffer(&self) -> (index: usize)
        ensures
            index == self.current,
    {
        self.current
    }

    /// The size of a buffer for an output of the given width and height in
    /// pixels, at four bytes a pixel; none where a side, a row or the pool
    /// is more than the display protocol or the machine can count.
    pub fn layout(width: u32, height: u32) -> (layout: Option<BufferLayout>)
        ensures
            match layout {
                Some(l) => {
                    &&& l.width == width
                    &&& l.height == height
                    &&& l.stride == 4 * width
                    &&& l.pool == 4 * width * height
                },
                None => width > i32::MAX || height > i32::MAX || 4 * width > i32::MAX || 4 * width
                    * height > usize::MAX,
            },
    {
        if width > i32::MAX as u32 / 4 || height > i32::MAX as u32 {
            return None;
        }
        let stride: u32 = 4 * width;
        assert(stride * height <= 0x8000_0000 * 0x8000_0000) by (nonlinear_arith)
            requires
                stride <= 0x8000_0000,
                height <= 0x8000_0000,
        ;
        let pool: u64 = stride as u64 * height as u64;
        assert(pool == 4 * width * height) by (nonlinear_arith)
            requires
                pool == stride * height,
                stride == 4 * width,
        ;
        if pool > usize::MAX as u64 {
            return None;
        }
        Some(
            BufferLayout {
                width: width as i32,
                height: height as i32,
                stride: stride as i32,
                pool: pool as usize,
            },
        )
    }
}

/// One output: its size and state, and the draws on it, oldest first.
#[derive(Debug, PartialEq, Eq)]
pub struct OutPut {
    /// The number of the surface that covers the output.
    pub surface: u32,
    pub width: u32,
    pub height: u32,
    pub info: OutputInfo,
    pub buffers: Buffers,
    pub interactivity: KeyboardInteractivity,
    pub configured: bool,
    pub draws: Vec<Draw>,
    /// The format of the captured screen under the draws while the output
    /// is paused.
    pub screencopy: Option<FrameFormat>,
    pub fgcolor: Color,
}

/// What an `OutPut` holds.
pub struct OutPutView {
    pub surface: u32,
    pub width: u32,
    pub height: u32,
    pub info: OutputInfoView,
    pub buffers: Buffers,
    pub interactivity: KeyboardInteractivity,
    pub configured: bool,
    pub draws: Seq<DrawView>,
    pub screencopy: Option<FrameFormat>,
    pub fgcolor: Color,
}

/// What a list of draws holds.
pub open spec fn draws_view(draws: Seq<Draw>) -> Seq<DrawView> {
    Seq::new(draws.len(), |i: int| draws[i]@)
}

impl View for OutPut {
    type V = OutPutView;

    open spec fn view(&self) -> OutPutView {
        OutPutView {
            surface: self.surface,
            width: self.width,
            height: self.height,
            info: self.info@,
            buffers: self.buffers,
            interactivity: self.interactivity,
            configured: self.configured,
            draws: draws_view(self.draws@),
            screencopy: self.screencopy,
            fgcolor: self.fgcolor,
        }
    }
}

impl OutPutView {
    /// The output with another list of draws.
    pub open spec fn with_draws(self, draws: Seq<DrawView>) -> OutPutView {
        OutPutView {
            surface: self.surface,
            width: self.width,
            height: self.height,
            info: self.info,
            buffers: self.buffers,
            interactivity: self.interactivity,
            configured: self.configured,
            draws,
            screencopy: self.screencopy,
            fgcolor: self.fgcolor,
        }
    }

    /// The output after a draw was started on it: the draw is the last.
    pub open spec fn started(self, draw: DrawView) -> OutPutView {
        self.with_draws(self.draws.push(draw))
    }

    /// The output after its last draw took in a motion or a change of the
    /// modifier keys; an output without draws stays as it is.
    pub open spec fn updated(self, motion: Option<(i32, i32)>, modifier: Modifiers) -> OutPutView {
        if self.draws.len() == 0 {
            self
        } else {
            self.with_draws(
                self.draws.update(
                    self.draws.len() - 1,
                    self.draws.last().with_motion(motion, modifier),
                ),
            )
        }
    }

    /// The output after its last draw was taken back; an output without
    /// draws stays as it is.
    pub open spec fn undone(self) -> OutPutView {
        if self.draws.len() == 0 {
            self
        } else {
            self.with_draws(self.draws.drop_last())
        }
    }

    /// The output without its draws.
    pub open spec fn cleared(self) -> OutPutView {
        self.with_draws(Seq::empty())
    }
}

impl OutPut {
    /// A fresh output: not configured, not paused, without draws, with the
    /// keyboard to itself and a transparent black background.
    pub fn new(surface: u32, width: u32, height: u32, info: OutputInfo) -> (output: OutPut)
        ensures
            output@ == (OutPutView {
                surface,
                width,
                height,
                info: info@,
                buffers: Buffers { current: 0 },
                interactivity: KeyboardInteractivity::Exclusive,
                configured: false,
                draws: Seq::empty(),
                screencopy: None,
                fgcolor: Color { r: 0, g: 0, b: 0, a: 0 },
            }),
    {
        let output = OutPut {
            surface,
            width,
            height,
            info,
            buffers: Buffers::new(),
            interactivity: KeyboardInteractivity::Exclusive,
            configured: false,
            draws: Vec::new(),
            screencopy: None,
            fgcolor: Color { r: 0, g: 0, b: 0, a: 0 },
        };
        assert(output@.draws =~= Seq::empty());
        output
    }

    /// Sets the colour that the output is cleared to before the draws are
    /// painted.
    pub fn set_fg(&mut self, color: Color)
        ensures
            final(self).fgcolor == color,
            final(self)@ == (OutPutView { fgcolor: color, ..old(self)@ }),
    {
        self.fgcolor = color;
    }

    /// Pauses the output over a captured screen, or lets it run again.
    /// `captured` is the capture that was made for the pause; a pause
    /// without one leaves the output running.
    pub fn set_screen_copy(&mut self, pause: bool, captured: Option<FrameFormat>)
        ensures
            final(self)@ == (OutPutView {
                screencopy: if pause {
                    captured
                } else {
                    None
                },
                ..old(self)@
            }),
    {
        self.screencopy = if pause {
            captured
        } else {
            None
        };
    }

    /// Removes all draws.
    pub fn clear(&mut self)
        ensures
            final(self)@ == old(self)@.cleared(),
            old(self)@.draws.len() == 0 ==> final(self)@ == old(self)@,
    {
        self.draws = Vec::new();
        assert(self@.draws =~= Seq::empty());
        assert(old(self)@.draws.len() == 0 ==> old(self)@.draws =~= Seq::empty());
    }

    /// Takes back the last draw, if there is one.
    pub fn undo(&mut self)
        ensures
            final(self)@ == old(self)@.undone(),
            old(self)@.draws.len() == 0 ==> final(self)@ == old(self)@,
    {
        let _ = self.draws.pop();
        assert(self@.draws =~= old(self)@.undone().draws);
    }

    /// Lets keys through to what lies under the output, or takes them
    /// again. Gives back what the surface is to be told.
    pub fn set_enable(&mut self, enable: bool) -> (interactivity: KeyboardInteractivity)
        ensures
            interactivity == if enable {
                KeyboardInteractivity::Never
            } else {
                KeyboardInteractivity::Exclusive
            },
            final(self)@ == (OutPutView { interactivity, ..old(self)@ }),
    {
        self.interactivity = if enable {
            KeyboardInteractivity::Never
        } else {
            KeyboardInteractivity::Exclusive
        };
        self.interactivity
    }

    /// Appends a draw; the draws before stay as they are.
    pub fn start_draw(&mut self, draw: Draw)
        ensures
            final(self)@ == old(self)@.started(draw@),
            final(self).draws@ == old(self).draws@.push(draw),
    {
        self.draws.push(draw);
        assert(self@.draws =~= old(self)@.draws.push(draw@));
    }

    /// Hands a motion of the pointer, or a change of the modifier keys
    /// alone, to the last draw. Without draws nothing happens.
    pub fn update_active(&mut self, motion: Option<(i32, i32)>, modifier: &Modifiers)
        ensures
            final(self)@ == old(self)@.updated(motion, *modifier),
            final(self)@.draws.len() == old(self)@.draws.len(),
            forall|i: int|
                0 <= i < old(self).draws@.len() - 1 ==> final(self).draws@[i] == old(
                    self,
                ).draws@[i],
    {
        match self.draws.pop() {
            Some(mut draw) => {
                draw.add_motion(motion, modifier);
                self.draws.push(draw);
                assert(self@.draws =~= old(self)@.updated(motion, *modifier).draws);
            },
            None => {},
        }
    }

    /// The draws in the order in which they are painted: oldest first.
    pub fn iterate(&self) -> (draws: &Vec<Draw>)
        ensures
            draws == &self.draws,
            draws_view(draws@) == self@.draws,
    {
        &self.draws
    }

    /// The name of the display, or the empty text where it has none.
    pub fn name(&self) -> (name: String)
        ensures
            name@ == match self@.info.name {
                Some(n) => n,
                None => Seq::<char>::empty(),
            },
    {
        match &self.info.name {
            Some(n) => n.clone(),
            None => String::new(),
        }
    }
}

/// An output without draws is left as it is by taking back and by
/// clearing.
pub proof fn lemma_undo_clear_on_empty(output: OutPutView)
    requires
        output.draws.len() == 0,
    ensures
        output.undone() == output,
        output.cleared() == output,
{
    assert(output.draws =~= Seq::empty());
}

/// One step of work on the draws of an output, short of taking any away.
pub enum SessionStep {
    /// A draw is started.
    Start(DrawView),
    /// The last draw takes in a motion or a change of the modifier keys.
    Update(Option<(i32, i32)>, Modifiers),
}

impl OutPutView {
    /// The output after one step.
    pub open spec fn step(self, step: SessionStep) -> OutPutView {
        match step {
            SessionStep::Start(draw) => self.started(draw),
            SessionStep::Update(motion, modifier) => self.updated(motion, modifier),
        }
    }

    /// The output after the steps, taken in their order.
    pub open spec fn run(self, steps: Seq<SessionStep>) -> OutPutView
        decreases steps.len(),
    {
        if steps.len() == 0 {
            self
        } else {
            self.run(steps.drop_last()).step(steps.last())
        }
    }
}

/// How many of the steps start a draw.
pub open spec fn starts(steps: Seq<SessionStep>) -> nat
    decreases steps.len(),
{
    if steps.len() == 0 {
        0
    } else if steps.last() is Start {
        starts(steps.drop_last()) + 1
    } else {
        starts(steps.drop_last())
    }
}

/// While no draw is taken back and the list is not cleared, the list only
/// grows: by one draw for each draw started and by nothing else. The draws
/// that had a draw after them when the steps began stay as they were.
pub proof fn lemma_append_only(output: OutPutView, steps: Seq<SessionStep>)
    ensures
        output.run(steps).draws.len() == output.draws.len() + starts(steps),
        forall|i: int|
            0 <= i < output.draws.len() - 1 ==> #[trigger] output.run(steps).draws[i]
                == output.draws[i],
    decreases steps.len(),
{
    if steps.len() > 0 {
        lemma_append_only(output, steps.drop_last());
    }
}

/// The draws of an output as they were stored, with what tells the
/// display apart from others.
#[derive(Debug, PartialEq, Eq)]
pub struct Saved {
    pub id: u32,
    pub model: String,
    pub make: String,
    pub draws: Vec<Draw>,
}

/// What a `Saved` holds.
pub struct SavedView {
    pub id: u32,
    pub model: Seq<char>,
    pub make: Seq<char>,
    pub draws: Seq<DrawView>,
}

impl View for Saved {
    type V = SavedView;

    open spec fn view(&self) -> SavedView {
        SavedView {
            id: self.id,
            model: self.model@,
            make: self.make@,
            draws: draws_view(self.draws@),
        }
    }
}

/// Whether stored draws belong to a display: the number, the model and the
/// make are the same.
pub open spec fn belongs_to(saved: Saved, info: OutputInfoView) -> bool {
    saved.id == info.id && saved.model@ == info.model && saved.make@ == info.make
}

/// The index of the first of the stored draws, from `from` on, that belong
/// to a display, or -1.
pub open spec fn saved_for(saved: Seq<Saved>, info: OutputInfoView, from: int) -> int
    decreases saved.len() - from,
{
    if from < 0 || from >= saved.len() {
        -1
    } else if belongs_to(saved[from], info) {
        from
    } else {
        saved_for(saved, info, from + 1)
    }
}

/// Takes the draws that belong to a display out of what was stored: the
/// first entry for that display leaves the store and hands over its draws.
/// A display without an entry gets no draws, and the store stays as it is.
pub fn restore(saved: &mut Vec<Saved>, info: &OutputInfo) -> (draws: Vec<Draw>)
    ensures
        saved_for(old(saved)@, info@, 0) >= 0 ==> final(saved)@ == old(saved)@.remove(
            saved_for(old(saved)@, info@, 0),
        ) && draws == old(saved)@[saved_for(old(saved)@, info@, 0)].draws,
        saved_for(old(saved)@, info@, 0) < 0 ==> final(saved)@ == old(saved)@ && draws@.len()
            == 0,
{
    let mut i: usize = 0;
    while i < saved.len()
        invariant
            i <= saved@.len(),
            saved@ == old(saved)@,
            saved_for(saved@, info@, 0) == saved_for(saved@, info@, i as int),
        decreases saved@.len() - i,
    {
        if saved[i].id == info.id && saved[i].model == info.model && saved[i].make == info.make {
            let entry = saved.remove(i);
            return entry.draws;
        }
        i += 1;
    }
    Vec::new()
}

/// The names of the fields of stored draws, in the order in which they are
/// written.
pub open spec fn saved_names() -> Seq<&'static str> {
    seq!["id", "model", "make", "draws"]
}

/// The trees of some draws.
pub open spec fn draws_data(draws: Seq<DrawView>) -> Seq<Data> {
    Seq::new(draws.len(), |i: int| draw_data(draws[i]))
}

/// The draws that the first `n` trees stand for; the first that is no draw
/// is the error.
pub open spec fn draws_of(items: Seq<Data>, n: nat) -> Result<Seq<DrawView>, DecodeError>
    decreases n,
{
    if n == 0 {
        Ok(Seq::empty())
    } else {
        match draws_of(items, (n - 1) as nat) {
            Err(e) => Err(e),
            Ok(draws) => match draw_of(items[n - 1]) {
                Err(e) => Err(e),
                Ok(d) => Ok(draws.push(d)),
            },
        }
    }
}

/// The list of draws that a tree stands for.
pub open spec fn draw_list_of(d: Data) -> Result<Seq<DrawView>, DecodeError> {
    match d {
        Data::List(items) => draws_of(items, items.len()),
        _ => Err(DecodeError::InvalidType),
    }
}

/// The tree of stored draws: a record of the display's number, model and
/// make, and of the list of the draws.
pub open spec fn saved_data(saved: SavedView) -> Data {
    Data::Record(
        seq![
            ("id"@, Data::Int(saved.id as i64)),
            ("model"@, Data::Text(saved.model)),
            ("make"@, Data::Text(saved.make)),
            ("draws"@, Data::List(draws_data(saved.draws))),
        ],
    )
}

/// The stored draws that a tree stands for. The tree is a record of the
/// four fields, in any order; the fields are read in the order of their
/// names, and one draw that cannot be read fails the whole.
pub open spec fn saved_of(d: Data) -> Result<SavedView, DecodeError> {
    match d {
        Data::Record(fields) => match locate_fields(fields, saved_names()) {
            Err(e) => Err(e),
            Ok(at) => match int_of(fields[at[0] as int].1, 0, u32::MAX as i64) {
                Err(e) => Err(e),
                Ok(id) => match text_of(fields[at[1] as int].1) {
                    Err(e) => Err(e),
                    Ok(model) => match text_of(fields[at[2] as int].1) {
                        Err(e) => Err(e),
                        Ok(make) => match draw_list_of(fields[at[3] as int].1) {
                            Err(e) => Err(e),
                            Ok(draws) => Ok(SavedView { id: id as u32, model, make, draws }),
                        },
                    },
                },
            },
        },
        _ => Err(DecodeError::InvalidType),
    }
}

proof fn lemma_saved_names_distinct()
    ensures
        saved_names().len() == 4,
        forall|i: int, j: int|
            0 <= i < j < saved_names().len() ==> (#[trigger] saved_names()[i])@ != (
            #[trigger] saved_names()[j])@,
{
    reveal_strlit("id");
    reveal_strlit("model");
    reveal_strlit("make");
    reveal_strlit("draws");
    let names = saved_names();
    assert(names[0]@.len() == 2);
    assert(names[1]@.len() == 5 && names[1]@[0] == 'm');
    assert(names[2]@.len() == 4);
    assert(names[3]@.len() == 5 && names[3]@[0] == 'd');
    assert forall|i: int, j: int| 0 <= i < j < names.len() implies (#[trigger] names[i])@ != (
    #[trigger] names[j])@ by {
        assert(names[i]@.len() != names[j]@.len() || names[i]@[0] != names[j]@[0]);
    }
}

proof fn lemma_draws_round_trip(draws: Seq<DrawView>, n: nat)
    requires
        n <= draws.len(),
    ensures
        draws_of(draws_data(draws), n) == Ok::<Seq<DrawView>, DecodeError>(draws.take(n as int)),
    decreases n,
{
    if n == 0 {
        assert(draws.take(0) =~= Seq::<DrawView>::empty());
    } else {
        lemma_draws_round_trip(draws, (n - 1) as nat);
        lemma_draw_round_trip(draws[n - 1]);
        assert(draws.take(n as int) =~= draws.take(n - 1).push(draws[n - 1]));
    }
}

/// Reading the tree of stored draws gives them back.
pub proof fn lemma_saved_round_trip(saved: SavedView)
    ensures
        saved_of(saved_data(saved)) == Ok::<SavedView, DecodeError>(saved),
{
    let fields = saved_data(saved)->Record_0;
    lemma_saved_names_distinct();
    lemma_locate_in_order(fields, saved_names());
    lemma_draws_round_trip(saved.draws, saved.draws.len());
    assert(saved.draws.take(saved.draws.len() as int) =~= saved.draws);
    assert(draws_data(saved.draws).len() == saved.draws.len());
}

proof fn lemma_draws_stop(items: Seq<Data>, n: nat, m: nat)
    requires
        n <= m,
        draws_of(items, n) is Err,
    ensures
        draws_of(items, m) == draws_of(items, n),
    decreases m,
{
    if n < m {
        lemma_draws_stop(items, n, (m - 1) as nat);
    }
}

fn saved_fields() -> (names: Vec<&'static str>)
    ensures
        names@ == saved_names(),
{
    let mut names: Vec<&'static str> = Vec::new();
    names.push("id");
    names.push("model");
    names.push("make");
    names.push("draws");
    assert(names@ =~= saved_names());
    names
}

fn draws_value(draws: &Vec<Draw>) -> (v: Value)
    ensures
        v@ == Data::List(draws_data(draws_view(draws@))),
{
    let mut items: Vec<Value> = Vec::new();
    let mut i: usize = 0;
    while i < draws.len()
        invariant
            i <= draws@.len(),
            items@.len() == i,
            forall|j: int| 0 <= j < i ==> (#[trigger] items@[j])@ == draw_data(draws@[j]@),
        decreases draws@.len() - i,
    {
        items.push(draws[i].serialize());
        i += 1;
    }
    proof {
        lemma_list_data(items, items@.len());
        assert(list_data(items, items@.len()) =~= draws_data(draws_view(draws@)));
    }
    Value::List(items)
}

fn read_draws(v: &Value) -> (r: Result<Vec<Draw>, DecodeError>)
    ensures
        match r {
            Ok(draws) => draw_list_of(v@) == Ok::<Seq<DrawView>, DecodeError>(draws_view(draws@)),
            Err(e) => draw_list_of(v@) == Err::<Seq<DrawView>, DecodeError>(e),
        },
{
    match v {
        Value::List(items) => {
            let ghost data = v@->List_0;
            proof {
                lemma_list_data(*items, items@.len());
            }
            let mut draws: Vec<Draw> = Vec::new();
            let mut i: usize = 0;
            assert(draws_view(draws@) =~= Seq::empty());
            while i < items.len()
                invariant
                    i <= items@.len(),
                    v@ == Data::List(data),
                    data.len() == items@.len(),
                    forall|j: int| 0 <= j < items@.len() ==> #[trigger] data[j] == items@[j]@,
                    draws_of(data, i as nat) == Ok::<Seq<DrawView>, DecodeError>(
                        draws_view(draws@),
                    ),
                decreases items@.len() - i,
            {
                let ghost before = draws@;
                match Draw::deserialize(&items[i]) {
                    Err(e) => {
                        proof {
                            assert(draws_of(data, (i + 1) as nat) == Err::<
                                Seq<DrawView>,
                                DecodeError,
                            >(e));
                            lemma_draws_stop(data, (i + 1) as nat, data.len());
                        }
                        return Err(e);
                    },
                    Ok(d) => {
                        draws.push(d);
                        assert(draws_view(draws@) =~= draws_view(before).push(d@));
                    },
                }
                i += 1;
            }
            Ok(draws)
        },
        _ => Err(DecodeError::InvalidType),
    }
}

impl Saved {
    /// The tree of these stored draws.
    pub fn serialize(&self) -> (v: Value)
        ensures
            v@ == saved_data(self@),
    {
        let mut fields: Vec<Field> = Vec::new();
        fields.push(field("id", Value::Int(self.id as i64)));
        fields.push(field("model", Value::Text(self.model.clone())));
        fields.push(field("make", Value::Text(self.make.clone())));
        fields.push(field("draws", draws_value(&self.draws)));
        proof {
            lemma_record_data(fields, 4);
            assert(record_data(fields, 4) =~= saved_data(self@)->Record_0);
        }
        Value::Record(fields)
    }

    /// Reads stored draws from their tree.
    pub fn deserialize(v: &Value) -> (r: Result<Saved, DecodeError>)
        ensures
            match r {
                Ok(saved) => saved_of(v@) == Ok::<SavedView, DecodeError>(saved@),
                Err(e) => saved_of(v@) == Err::<SavedView, DecodeError>(e),
            },
    {
        match v {
            Value::Record(fields) => {
                proof {
                    lemma_record_data(*fields, fields@.len());
                }
                let names = saved_fields();
                let at = match locate(fields, &names) {
                    Ok(at) => at,
                    Err(e) => {
                        return Err(e);
                    },
                };
                let id = match read_int(&fields[at[0]].value, 0, u32::MAX as i64) {
                    Ok(id) => id as u32,
                    Err(e) => {
                        return Err(e);
                    },
                };
                let model = match read_text(&fields[at[1]].value) {
                    Ok(model) => model.to_owned(),
                    Err(e) => {
                        return Err(e);
                    },
                };
                let make = match read_text(&fields[at[2]].value) {
                    Ok(make) => make.to_owned(),
                    Err(e) => {
                        return Err(e);
                    },
                };
                let draws = match read_draws(&fields[at[3]].value) {
                    Ok(draws) => draws,
                    Err(e) => {
                        return Err(e);
                    },
                };
                Ok(Saved { id, model, make, draws })
            },
            _ => Err(DecodeError::InvalidType),
        }
    }
}

impl OutPutView {
    /// What is stored of the output: the display's number, model and make,
    /// and the draws.
    pub open spec fn saved(self) -> SavedView {
        SavedView {
            id: self.info.id,
            model: self.info.model,
            make: self.info.make,
            draws: self.draws,
        }
    }
}

impl OutPut {
    /// The tree to store for this output.
    pub fn save(&self) -> (v: Value)
        ensures
            v@ == saved_data(self@.saved()),
    {
        let mut fields: Vec<Field> = Vec::new();
        fields.push(field("id", Value::Int(self.info.id as i64)));
        fields.push(field("model", Value::Text(self.info.model.clone())));
        fields.push(field("make", Value::Text(self.info.make.clone())));
        fields.push(field("draws", draws_value(&self.draws)));
        proof {
            lemma_record_data(fields, 4);
            assert(record_data(fields, 4) =~= saved_data(self@.saved())->Record_0);
        }
        Value::Record(fields)
    }

    /// Takes this output's draws out of what was stored, in place of the
    /// draws it has.
    pub fn restore(&mut self, saved: &mut Vec<Saved>)
        ensures
            saved_for(old(saved)@, old(self).info@, 0) >= 0 ==> final(saved)@ == old(
                saved,
            )@.remove(saved_for(old(saved)@, old(self).info@, 0)) && final(self)@
                == old(self)@.with_draws(
                old(saved)@[saved_for(old(saved)@, old(self).info@, 0)]@.draws,
            ),
            saved_for(old(saved)@, old(self).info@, 0) < 0 ==> final(saved)@ == old(saved)@
                && final(self)@ == old(self)@.cleared(),
    {
        self.draws = restore(saved, &self.info);
        assert(saved_for(old(saved)@, old(self).info@, 0) < 0 ==> self@.draws =~= Seq::empty());
    }
}

} // verus!
