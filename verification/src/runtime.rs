//! The state of the whole overlay: the outputs, the one that has the
//! pointer, and the draw in progress. Every event from the display is one
//! step from state to state, together with what is left for the caller to
//! do.

use vstd::prelude::*;
use crate::color::Color;
use crate::draw::{Draw, DrawView};
use crate::keymap::{Modifiers, KEY_ESCAPE};
use crate::mousemap::{scroll, scroll_of, Mouse};
use crate::output::{draws_view, saved_data, Buffers, OutPut, OutPutView};
use crate::pause::FrameFormat;
use crate::record::{lemma_list_data, list_data, Data, Value};
use crate::render::{Frame, FrameView};
use crate::tools::draw::draw::{StrokeStyleSerialize, StyleView};
use crate::tools::{DrawKind, ToolView};

verus! {

/// What happened to the pointer.
#[derive(Debug, Clone, Copy)]
pub enum PointerEventKind {
    Enter,
    Leave,
    Motion,
    Press { button: u32, serial: u32 },
    Release { button: u32 },
    Axis { horizontal: i32, vertical: i32 },
}

/// One event of the pointer: over which surface, where on it, and what.
#[derive(Debug, Clone, Copy)]
pub struct PointerEvent {
    pub surface: u32,
    pub position: (i32, i32),
    pub kind: PointerEventKind,
}

/// What is left to do after an event of the pointer.
#[derive(Debug, Clone, Copy)]
pub enum PointerAction {
    /// Nothing.
    Nothing,
    /// Show the overlay's cursor.
    SetCursor,
    /// Run what is bound to the button.
    MouseBinding { button: u32, press: bool },
    /// Run what is bound to the scroll.
    Scroll(Mouse),
    /// Drop the events that came together with this one.
    EndFrame,
}

/// What is left to do after a key was pressed.
#[derive(Debug, Clone, Copy, PartialEq, Eq, Structural)]
pub enum KeyAction {
    /// Leave the overlay.
    Exit,
    /// Run what is bound to the key.
    KeyBinding,
}

/// The state of the overlay.
pub struct Runtime {
    current_output: Option<usize>,
    outputs: Vec<OutPut>,
    drawing: bool,
    last_pos: Option<(i32, i32)>,
    last_serial: Option<u32>,
    modifiers: Modifiers,
}

/// What a `Runtime` holds.
pub struct RuntimeView {
    /// The index of the output that has the pointer.
    pub current_output: Option<usize>,
    pub outputs: Seq<OutPutView>,
    /// Whether a draw is in progress.
    pub drawing: bool,
    /// Where the pointer was seen last.
    pub last_pos: Option<(i32, i32)>,
    /// The serial of the last button press.
    pub last_serial: Option<u32>,
    pub modifiers: Modifiers,
}

/// What some outputs hold.
pub open spec fn outputs_view(outputs: Seq<OutPut>) -> Seq<OutPutView> {
    Seq::new(outputs.len(), |i: int| outputs[i]@)
}

/// The index of the first output, from `from` on, that the surface covers,
/// or -1.
pub open spec fn surface_at(outputs: Seq<OutPutView>, surface: u32, from: int) -> int
    decreases outputs.len() - from,
{
    if from < 0 || from >= outputs.len() {
        -1
    } else if outputs[from].surface == surface {
        from
    } else {
        surface_at(outputs, surface, from + 1)
    }
}

/// The index of the first output, from `from` on, whose display has the
/// number, or -1.
pub open spec fn display_at(outputs: Seq<OutPutView>, id: u32, from: int) -> int
    decreases outputs.len() - from,
{
    if from < 0 || from >= outputs.len() {
        -1
    } else if outputs[from].info.id == id {
        from
    } else {
        display_at(outputs, id, from + 1)
    }
}

impl RuntimeView {
    /// The output that has the pointer, if any, is one of the outputs.
    pub open spec fn wf(self) -> bool {
        match self.current_output {
            Some(i) => i < self.outputs.len(),
            None => true,
        }
    }

    /// The index of the output that has the pointer, where it is one of
    /// the outputs.
    pub open spec fn focus(self) -> Option<usize> {
        match self.current_output {
            Some(i) => if i < self.outputs.len() {
                Some(i)
            } else {
                None
            },
            None => None,
        }
    }

    /// The state with other outputs.
    pub open spec fn with_outputs(self, outputs: Seq<OutPutView>) -> RuntimeView {
        RuntimeView { outputs, ..self }
    }

    /// The state with another output in the place of one.
    pub open spec fn with_output_at(self, index: int, output: OutPutView) -> RuntimeView {
        self.with_outputs(self.outputs.update(index, output))
    }

    /// The state before any event: no output, no pointer, no draw.
    pub open spec fn initial() -> RuntimeView {
        RuntimeView {
            current_output: None,
            outputs: Seq::empty(),
            drawing: false,
            last_pos: None,
            last_serial: None,
            modifiers: Modifiers::spec_none(),
        }
    }

    /// The number of the display that has the pointer.
    pub open spec fn current_output_id(self) -> Option<u32> {
        match self.focus() {
            Some(i) => Some(self.outputs[i as int].info.id),
            None => None,
        }
    }

    /// The index of the output that a surface covers.
    pub open spec fn output(self, surface: u32) -> Option<usize> {
        if surface_at(self.outputs, surface, 0) >= 0 {
            Some(surface_at(self.outputs, surface, 0) as usize)
        } else {
            None
        }
    }

    /// The index of the output of the display with a number, or, without a
    /// number, of the output that has the pointer.
    pub open spec fn locate(self, id: Option<u32>) -> Option<usize> {
        match id {
            Some(id) => if display_at(self.outputs, id, 0) >= 0 {
                Some(display_at(self.outputs, id, 0) as usize)
            } else {
                None
            },
            None => self.focus(),
        }
    }

    /// Where the pointer was seen last; the origin before it was seen.
    pub open spec fn pos(self) -> (i32, i32) {
        match self.last_pos {
            Some(p) => p,
            None => (0, 0),
        }
    }

    /// Whether a draw can be started: an output has the pointer, and the
    /// pointer was seen.
    pub open spec fn can_start(self) -> bool {
        self.focus() is Some && self.last_pos is Some
    }

    /// The state after a draw was asked for. Where one can be started, it
    /// starts where the pointer was seen last, as the last draw of the
    /// output that has the pointer, and is in progress. Otherwise nothing
    /// changes.
    pub open spec fn started(
        self,
        kind: DrawKind,
        style: StyleView,
        color: Color,
        distance: bool,
    ) -> RuntimeView {
        if self.can_start() {
            let index = self.focus()->0 as int;
            RuntimeView {
                drawing: true,
                outputs: self.outputs.update(
                    index,
                    self.outputs[index].started(
                        DrawView {
                            style,
                            color,
                            distance,
                            tool: ToolView::start(kind, self.last_pos->0),
                        },
                    ),
                ),
                ..self
            }
        } else {
            self
        }
    }

    /// The state after the draw in progress was ended. The draw stays as
    /// it is.
    pub open spec fn stopped(self) -> RuntimeView {
        RuntimeView { drawing: false, ..self }
    }

    /// The state after a motion, or a change of the modifier keys alone,
    /// was handed to the draw in progress: the last draw of the output that
    /// has the pointer takes it in. Without a draw in progress, or without
    /// such an output, nothing changes.
    pub open spec fn updated(self, motion: Option<(i32, i32)>, modifier: Modifiers) -> RuntimeView {
        if self.drawing && self.focus() is Some {
            let index = self.focus()->0 as int;
            self.with_output_at(index, self.outputs[index].updated(motion, modifier))
        } else {
            self
        }
    }

    /// The state after the last draw of the output that has the pointer was
    /// taken back.
    pub open spec fn undone(self) -> RuntimeView {
        match self.focus() {
            Some(i) => self.with_output_at(i as int, self.outputs[i as int].undone()),
            None => self,
        }
    }

    /// The state after the draws were removed: of all outputs, or of the
    /// one that has the pointer.
    pub open spec fn cleared(self, all: bool) -> RuntimeView {
        if all {
            self.with_outputs(
                Seq::new(self.outputs.len(), |i: int| self.outputs[i].cleared()),
            )
        } else {
            match self.focus() {
                Some(i) => self.with_output_at(i as int, self.outputs[i as int].cleared()),
                None => self,
            }
        }
    }

    /// The state with one more output, after the others.
    pub open spec fn with_output(self, output: OutPutView) -> RuntimeView {
        self.with_outputs(self.outputs.push(output))
    }

    /// The state without the output at an index. The output that has the
    /// pointer keeps it, unless it is the one that leaves.
    pub open spec fn without_output(self, index: int) -> RuntimeView {
        if 0 <= index < self.outputs.len() {
            RuntimeView {
                outputs: self.outputs.remove(index),
                current_output: match self.current_output {
                    Some(i) => if i == index {
                        None
                    } else if i > index {
                        Some((i - 1) as usize)
                    } else {
                        Some(i)
                    },
                    None => None,
                },
                ..self
            }
        } else {
            self
        }
    }

    /// The state after an output was paused over a captured screen or let
    /// run again. A pause without a capture leaves the output running.
    pub open spec fn paused(self, pause: bool, index: int, captured: Option<FrameFormat>) -> RuntimeView {
        if 0 <= index < self.outputs.len() {
            self.with_output_at(
                index,
                OutPutView {
                    screencopy: if pause {
                        captured
                    } else {
                        None
                    },
                    ..self.outputs[index]
                },
            )
        } else {
            self
        }
    }

    /// Whether the first size that the display proposes for an output is
    /// still to be taken.
    pub open spec fn awaits_size(self, index: int) -> bool {
        0 <= index < self.outputs.len() && !self.outputs[index].configured
    }

    /// The state after the display proposed a size for an output. Only the
    /// first proposal counts; a proposal with an empty side leaves the
    /// size as it is.
    pub open spec fn configured(self, index: int, new_size: (u32, u32)) -> RuntimeView {
        if self.awaits_size(index) {
            self.with_output_at(
                index,
                if new_size.0 == 0 || new_size.1 == 0 {
                    OutPutView { configured: true, ..self.outputs[index] }
                } else {
                    OutPutView {
                        configured: true,
                        width: new_size.0,
                        height: new_size.1,
                        ..self.outputs[index]
                    }
                },
            )
        } else {
            self
        }
    }

    /// The state after an output was painted: its other buffer is current.
    pub open spec fn painted(self, index: int) -> RuntimeView {
        self.with_output_at(
            index,
            OutPutView {
                buffers: Buffers {
                    current: if self.outputs[index].buffers.current == 0 {
                        1
                    } else {
                        0
                    },
                },
                ..self.outputs[index]
            },
        )
    }

    /// The tree to store for all outputs: the list of what is stored of
    /// each, in the order of the outputs.
    pub open spec fn saved(self) -> Data {
        Data::List(Seq::new(self.outputs.len(), |i: int| saved_data(self.outputs[i].saved())))
    }

    /// The state after the modifier keys changed: the keys are kept, and a
    /// draw in progress is redone with them.
    pub open spec fn with_modifiers(self, modifiers: Modifiers) -> RuntimeView {
        (RuntimeView { modifiers, ..self }).updated(None, modifiers)
    }

    /// The state after an event of the pointer. An event over a surface of
    /// no output changes nothing. On entering, the output gets the pointer.
    /// A motion is taken in by the last draw of the output under it while a
    /// draw is in progress. A press is kept by its serial.
    pub open spec fn after_pointer(self, event: PointerEvent) -> RuntimeView {
        match self.output(event.surface) {
            None => self,
            Some(index) => match event.kind {
                PointerEventKind::Enter => RuntimeView {
                    current_output: Some(index),
                    last_pos: Some(event.position),
                    ..self
                },
                PointerEventKind::Motion => RuntimeView {
                    last_pos: Some(event.position),
                    outputs: if self.drawing {
                        self.outputs.update(
                            index as int,
                            self.outputs[index as int].updated(
                                Some(event.position),
                                self.modifiers,
                            ),
                        )
                    } else {
                        self.outputs
                    },
                    ..self
                },
                PointerEventKind::Press { button, serial } => RuntimeView {
                    last_serial: Some(serial),
                    ..self
                },
                _ => self,
            },
        }
    }

    /// What is left to do after an event of the pointer. A press that
    /// comes again with the serial of the last is not acted on twice.
    pub open spec fn pointer_action(self, event: PointerEvent) -> PointerAction {
        match self.output(event.surface) {
            None => PointerAction::Nothing,
            Some(index) => match event.kind {
                PointerEventKind::Enter => PointerAction::SetCursor,
                PointerEventKind::Leave => PointerAction::Nothing,
                PointerEventKind::Motion => PointerAction::Nothing,
                PointerEventKind::Press { button, serial } => if self.last_serial == Some(serial) {
                    PointerAction::Nothing
                } else {
                    PointerAction::MouseBinding { button, press: true }
                },
                PointerEventKind::Release { button } => PointerAction::MouseBinding {
                    button,
                    press: false,
                },
                PointerEventKind::Axis { horizontal, vertical } => match scroll_of(
                    horizontal,
                    vertical,
                ) {
                    Some(action) => PointerAction::Scroll(action),
                    None => PointerAction::EndFrame,
                },
            },
        }
    }
}

impl View for Runtime {
    type V = RuntimeView;

    closed spec fn view(&self) -> RuntimeView {
        RuntimeView {
            current_output: self.current_output,
            outputs: outputs_view(self.outputs@),
            drawing: self.drawing,
            last_pos: self.last_pos,
            last_serial: self.last_serial,
            modifiers: self.modifiers,
        }
    }
}

impl Runtime {
    /// The state before any event.
    pub fn init() -> (runtime: Runtime)
        ensures
            runtime@ == RuntimeView::initial(),
            runtime@.wf(),
    {
        let runtime = Runtime {
            current_output: None,
            outputs: Vec::new(),
            drawing: false,
            last_pos: None,
            last_serial: None,
            modifiers: Modifiers::none(),
        };
        assert(runtime@.outputs =~= Seq::empty());
        runtime
    }

    /// The number of the display that has the pointer.
    pub fn current_output_id(&self) -> (id: Option<u32>)
        ensures
            id == self@.current_output_id(),
    {
        match self.focus() {
            Some(i) => Some(self.outputs[i].info.id),
            None => None,
        }
    }

    /// The index of the output that has the pointer.
    pub fn current_output(&self) -> (index: Option<usize>)
        ensures
            index == self@.focus(),
            index matches Some(i) ==> i < self@.outputs.len(),
    {
        self.focus()
    }

    fn focus(&self) -> (index: Option<usize>)
        ensures
            index == self@.focus(),
            index matches Some(i) ==> i < self.outputs@.len(),
    {
        match self.current_output {
            Some(i) => {
                if i < self.outputs.len() {
                    Some(i)
                } else {
                    None
                }
            },
            None => None,
        }
    }

    /// The outputs, in the order in which they came.
    pub fn outputs(&self) -> (outputs: &Vec<OutPut>)
        ensures
            outputs_view(outputs@) == self@.outputs,
    {
        &self.outputs
    }

    /// Whether a draw is in progress.
    pub fn drawing(&self) -> (drawing: bool)
        ensures
            drawing == self@.drawing,
    {
        self.drawing
    }

    /// The index of the output that a surface covers.
    pub fn output(&self, surface: u32) -> (index: Option<usize>)
        ensures
            index == self@.output(surface),
            index matches Some(i) ==> i < self@.outputs.len() && self@.outputs[i as int].surface
                == surface,
    {
        let mut i: usize = 0;
        while i < self.outputs.len()
            invariant
                i <= self.outputs@.len(),
                surface_at(self@.outputs, surface, 0) == surface_at(self@.outputs, surface, i as int),
            decreases self.outputs@.len() - i,
        {
            if self.outputs[i].surface == surface {
                return Some(i);
            }
            i += 1;
        }
        None
    }

    /// The modifier keys held.
    pub fn modifiers(&self) -> (modifiers: Modifiers)
        ensures
            modifiers == self@.modifiers,
    {
        self.modifiers
    }

    /// Where the pointer was seen last; the origin before it was seen.
    pub fn pos(&self) -> (pos: (i32, i32))
        ensures
            pos == self@.pos(),
    {
        match self.last_pos {
            Some(p) => p,
            None => (0, 0),
        }
    }

    /// Ends the draw in progress. The draw stays in its list as it is.
    pub fn stop_drawing(&mut self)
        ensures
            final(self)@ == old(self)@.stopped(),
            old(self)@.wf() ==> final(self)@.wf(),
    {
        self.drawing = false;
    }

    /// Starts a draw of the given kind at the place where the pointer was
    /// seen last, on the output that has the pointer. Says whether it did:
    /// without such an output, or before the pointer was seen, nothing
    /// changes.
    pub fn start_drawing(
        &mut self,
        kind: DrawKind,
        style: StrokeStyleSerialize,
        color: Color,
        distance: bool,
    ) -> (started: bool)
        ensures
            started == old(self)@.can_start(),
            final(self)@ == old(self)@.started(kind, style@, color, distance),
            old(self)@.wf() ==> final(self)@.wf(),
    {
        match (self.focus(), self.last_pos) {
            (Some(index), Some(pos)) => {
                self.drawing = true;
                self.outputs[index].start_draw(Draw::new(kind, pos, style, color, distance));
                assert(self@.outputs =~= old(self)@.started(
                    kind,
                    style@,
                    color,
                    distance,
                ).outputs);
                true
            },
            _ => false,
        }
    }

    /// Hands a motion of the pointer, or a change of the modifier keys
    /// alone, to the draw in progress.
    pub fn update_active(&mut self, motion: Option<(i32, i32)>, modifier: &Modifiers)
        ensures
            final(self)@ == old(self)@.updated(motion, *modifier),
            old(self)@.wf() ==> final(self)@.wf(),
    {
        if self.drawing {
            match self.focus() {
                Some(index) => {
                    self.outputs[index].update_active(motion, modifier);
                    assert(self@.outputs =~= old(self)@.updated(motion, *modifier).outputs);
                },
                None => {},
            }
        }
    }

    /// Removes the draws of all outputs, or of the one that has the
    /// pointer.
    pub fn clear(&mut self, all: bool)
        ensures
            final(self)@ == old(self)@.cleared(all),
            old(self)@.wf() ==> final(self)@.wf(),
    {
        if all {
            let mut i: usize = 0;
            while i < self.outputs.len()
                invariant
                    i <= self.outputs@.len(),
                    self.outputs@.len() == old(self).outputs@.len(),
                    self.current_output == old(self).current_output,
                    self.drawing == old(self).drawing,
                    self.last_pos == old(self).last_pos,
                    self.last_serial == old(self).last_serial,
                    self.modifiers == old(self).modifiers,
                    forall|j: int| 0 <= j < i ==> (#[trigger] self.outputs@[j])@ == old(
                        self,
                    ).outputs@[j]@.cleared(),
                    forall|j: int|
                        i <= j < self.outputs@.len() ==> #[trigger] self.outputs@[j] == old(
                            self,
                        ).outputs@[j],
                decreases self.outputs@.len() - i,
            {
                self.outputs[i].clear();
                i += 1;
            }
            assert(self@.outputs =~= old(self)@.cleared(all).outputs);
        } else {
            match self.focus() {
                Some(index) => {
                    self.outputs[index].clear();
                    assert(self@.outputs =~= old(self)@.cleared(all).outputs);
                },
                None => {},
            }
        }
    }

    /// Takes back the last draw of the output that has the pointer.
    pub fn undo(&mut self)
        ensures
            final(self)@ == old(self)@.undone(),
            old(self)@.wf() ==> final(self)@.wf(),
    {
        match self.focus() {
            Some(index) => {
                self.outputs[index].undo();
                assert(self@.outputs =~= old(self)@.undone().outputs);
            },
            None => {},
        }
    }

    /// The index of the output of the display with a number, or, without a
    /// number, of the output that has the pointer.
    pub fn locate_output_idx(&self, id: Option<u32>) -> (index: Option<usize>)
        ensures
            index == self@.locate(id),
            index matches Some(i) ==> i < self@.outputs.len(),
    {
        match id {
            Some(number) => {
                let mut i: usize = 0;
                while i < self.outputs.len()
                    invariant
                        i <= self.outputs@.len(),
                        id == Some(number),
                        display_at(self@.outputs, number, 0) == display_at(
                            self@.outputs,
                            number,
                            i as int,
                        ),
                    decreases self.outputs@.len() - i,
                {
                    if self.outputs[i].info.id == number {
                        return Some(i);
                    }
                    i += 1;
                }
                None
            },
            None => self.focus(),
        }
    }

    /// The output of the display with a number, or, without a number, the
    /// output that has the pointer, to work on in place.
    pub fn locate_output(&mut self, id: Option<u32>) -> (output: Option<&mut OutPut>)
        ensures
            match output {
                Some(o) => old(self)@.locate(id) matches Some(i) && (*o)@ == old(
                    self,
                )@.outputs[i as int] && final(self)@ == old(self)@.with_output_at(
                    i as int,
                    (*final(o))@,
                ),
                None => old(self)@.locate(id) is None && final(self)@ == old(self)@,
            },
            old(self)@.wf() ==> final(self)@.wf(),
    {
        match self.locate_output_idx(id) {
            Some(index) => {
                let output = &mut self.outputs[index];
                proof {
                    assert(outputs_view(after_borrow(self.outputs)@) =~= outputs_view(
                        old(self).outputs@,
                    ).update(index as int, (*final(output))@));
                }
                Some(output)
            },
            None => None,
        }
    }

    /// Pauses an output over a captured screen, or lets it run again. Says
    /// whether there is such an output. `captured` is the capture that was
    /// made for the pause; a pause without one leaves the output running.
    pub fn set_pause(&mut self, pause: bool, id: usize, captured: Option<FrameFormat>) -> (found:
        bool)
        ensures
            found == (id < old(self)@.outputs.len()),
            final(self)@ == old(self)@.paused(pause, id as int, captured),
            old(self)@.wf() ==> final(self)@.wf(),
    {
        if id < self.outputs.len() {
            self.outputs[id].set_screen_copy(pause, captured);
            assert(self@.outputs =~= old(self)@.paused(pause, id as int, captured).outputs);
            true
        } else {
            false
        }
    }

    /// What to paint for the output that a surface covers, if there is
    /// one. The output's other buffer is current afterwards.
    pub fn draw(&mut self, surface: u32) -> (frame: Option<Frame>)
        ensures
            match frame {
                Some(f) => old(self)@.output(surface) matches Some(i) && f@ == old(
                    self,
                )@.outputs[i as int].frame() && final(self)@ == old(self)@.painted(i as int),
                None => old(self)@.output(surface) is None && final(self)@ == old(self)@,
            },
            old(self)@.wf() ==> final(self)@.wf(),
    {
        match self.output(surface) {
            Some(index) => {
                let frame = self.outputs[index].render();
                self.outputs[index].buffers.flip();
                assert(self@.outputs =~= old(self)@.painted(index as int).outputs);
                Some(frame)
            },
            None => None,
        }
    }

    /// Takes in a new output, after the others. Gives back its index.
    pub fn new_output(&mut self, output: OutPut) -> (index: usize)
        ensures
            index == old(self)@.outputs.len(),
            final(self)@ == old(self)@.with_output(output@),
            old(self)@.wf() ==> final(self)@.wf(),
    {
        let index = self.outputs.len();
        self.outputs.push(output);
        assert(self@.outputs =~= old(self)@.outputs.push(output@));
        index
    }

    /// Lets go of the output of the display with a number, draws and all.
    /// Gives back the index it had; none where there is no such output.
    pub fn output_destroyed(&mut self, id: u32) -> (index: Option<usize>)
        ensures
            index == old(self)@.locate(Some(id)),
            match index {
                Some(i) => final(self)@ == old(self)@.without_output(i as int),
                None => final(self)@ == old(self)@,
            },
            old(self)@.wf() ==> final(self)@.wf(),
    {
        match self.locate_output_idx(Some(id)) {
            Some(index) => {
                let _ = self.outputs.remove(index);
                self.current_output = match self.current_output {
                    Some(i) => {
                        if i == index {
                            None
                        } else if i > index {
                            Some(i - 1)
                        } else {
                            Some(i)
                        }
                    },
                    None => None,
                };
                assert(self@.outputs =~= old(self)@.outputs.remove(index as int));
                Some(index)
            },
            None => None,
        }
    }

    /// Takes in the size that the display proposes for the output that a
    /// surface covers. Says whether the output is to be painted now: only
    /// the first proposal for an output counts.
    pub fn configure(&mut self, surface: u32, new_size: (u32, u32)) -> (paint: bool)
        ensures
            match old(self)@.output(surface) {
                Some(i) => paint == old(self)@.awaits_size(i as int) && final(self)@ == old(
                    self,
                )@.configured(i as int, new_size),
                None => !paint && final(self)@ == old(self)@,
            },
            old(self)@.wf() ==> final(self)@.wf(),
    {
        match self.output(surface) {
            Some(index) => {
                if self.outputs[index].configured {
                    return false;
                }
                if new_size.0 != 0 && new_size.1 != 0 {
                    self.outputs[index].width = new_size.0;
                    self.outputs[index].height = new_size.1;
                }
                self.outputs[index].configured = true;
                assert(self@.outputs =~= old(self)@.configured(index as int, new_size).outputs);
                true
            },
            None => false,
        }
    }

    /// What a pressed key asks for: escape always leaves the overlay, any
    /// other key is for the bindings.
    pub fn press_key(&self, keysym: u32) -> (action: KeyAction)
        ensures
            action == if keysym == KEY_ESCAPE {
                KeyAction::Exit
            } else {
                KeyAction::KeyBinding
            },
    {
        if keysym == KEY_ESCAPE {
            KeyAction::Exit
        } else {
            KeyAction::KeyBinding
        }
    }

    /// Takes in the state of the modifier keys, and redoes the draw in
    /// progress with them.
    pub fn update_modifiers(&mut self, modifiers: Modifiers)
        ensures
            final(self)@ == old(self)@.with_modifiers(modifiers),
            old(self)@.wf() ==> final(self)@.wf(),
    {
        self.modifiers = modifiers;
        self.update_active(None, &modifiers);
    }

    /// Takes in one event of the pointer, and says what is left to do.
    pub fn pointer_event(&mut self, event: &PointerEvent) -> (action: PointerAction)
        ensures
            final(self)@ == old(self)@.after_pointer(*event),
            action == old(self)@.pointer_action(*event),
            old(self)@.wf() ==> final(self)@.wf(),
    {
        let index = match self.output(event.surface) {
            Some(index) => index,
            None => {
                return PointerAction::Nothing;
            },
        };
        match event.kind {
            PointerEventKind::Enter => {
                self.current_output = Some(index);
                self.last_pos = Some(event.position);
                PointerAction::SetCursor
            },
            PointerEventKind::Leave => PointerAction::Nothing,
            PointerEventKind::Motion => {
                self.last_pos = Some(event.position);
                if self.drawing {
                    let modifiers = self.modifiers;
                    self.outputs[index].update_active(Some(event.position), &modifiers);
                    assert(self@.outputs =~= old(self)@.after_pointer(*event).outputs);
                }
                PointerAction::Nothing
            },
            PointerEventKind::Press { button, serial } => {
                let fresh = match self.last_serial {
                    Some(last) => last != serial,
                    None => true,
                };
                self.last_serial = Some(serial);
                if fresh {
                    PointerAction::MouseBinding { button, press: true }
                } else {
                    PointerAction::Nothing
                }
            },
            PointerEventKind::Release { button } => PointerAction::MouseBinding {
                button,
                press: false,
            },
            PointerEventKind::Axis { horizontal, vertical } => match scroll(horizontal, vertical) {
                Some(action) => PointerAction::Scroll(action),
                None => PointerAction::EndFrame,
            },
        }
    }

    /// The tree to store for all outputs.
    pub fn save_all(&self) -> (v: Value)
        ensures
            v@ == self@.saved(),
    {
        let mut items: Vec<Value> = Vec::new();
        let mut i: usize = 0;
        while i < self.outputs.len()
            invariant
                i <= self.outputs@.len(),
                items@.len() == i,
                forall|j: int|
                    0 <= j < i ==> (#[trigger] items@[j])@ == saved_data(self.outputs@[j]@.saved()),
            decreases self.outputs@.len() - i,
        {
            items.push(self.outputs[i].save());
            i += 1;
        }
        proof {
            lemma_list_data(items, items@.len());
            assert(list_data(items, items@.len()) =~= self@.saved()->List_0);
        }
        Value::List(items)
    }
}

/// Every step keeps the output that has the pointer among the outputs.
pub proof fn lemma_steps_keep_wf(
    r: RuntimeView,
    event: PointerEvent,
    motion: Option<(i32, i32)>,
    modifier: Modifiers,
    kind: DrawKind,
    style: StyleView,
    color: Color,
    distance: bool,
    output: OutPutView,
    index: int,
    all: bool,
    pause: bool,
    captured: Option<FrameFormat>,
    new_size: (u32, u32),
)
    requires
        r.wf(),
    ensures
        RuntimeView::initial().wf(),
        r.after_pointer(event).wf(),
        r.updated(motion, modifier).wf(),
        r.with_modifiers(modifier).wf(),
        r.started(kind, style, color, distance).wf(),
        r.stopped().wf(),
        r.undone().wf(),
        r.cleared(all).wf(),
        r.with_output(output).wf(),
        r.without_output(index).wf(),
        r.paused(pause, index, captured).wf(),
        r.configured(index, new_size).wf(),
        0 <= index < r.outputs.len() ==> r.painted(index).wf(),
        0 <= index < r.outputs.len() ==> r.with_output_at(index, output).wf(),
{
    lemma_surface_at(r.outputs, event.surface, 0);
}

/// An event of the pointer changes no output but the one under the
/// pointer, and of that one no draw that has a draw after it.
pub proof fn lemma_pointer_touches_one_draw(r: RuntimeView, event: PointerEvent, other: int)
    requires
        0 <= other < r.outputs.len(),
    ensures
        r.after_pointer(event).outputs.len() == r.outputs.len(),
        r.output(event.surface) != Some(other as usize) ==> r.after_pointer(event).outputs[other]
            == r.outputs[other],
        r.after_pointer(event).outputs[other].draws.len() == r.outputs[other].draws.len(),
        forall|i: int|
            0 <= i < r.outputs[other].draws.len() - 1 ==> r.after_pointer(
                event,
            ).outputs[other].draws[i] == r.outputs[other].draws[i],
{
    lemma_surface_at(r.outputs, event.surface, 0);
}

proof fn lemma_surface_at(outputs: Seq<OutPutView>, surface: u32, from: int)
    requires
        0 <= from,
    ensures
        surface_at(outputs, surface, from) == -1 || (from <= surface_at(outputs, surface, from)
            < outputs.len() && outputs[surface_at(outputs, surface, from)].surface == surface),
    decreases outputs.len() - from,
{
    if from < outputs.len() && outputs[from].surface != surface {
        lemma_surface_at(outputs, surface, from + 1);
    }
}

/// A motion that is handed to the draw in progress changes the last draw
/// of the output that has the pointer and nothing else: no other output,
/// and no draw that has a draw after it.
pub proof fn lemma_update_touches_one_draw(
    r: RuntimeView,
    motion: Option<(i32, i32)>,
    modifier: Modifiers,
    other: int,
)
    requires
        r.wf(),
        0 <= other < r.outputs.len(),
    ensures
        r.updated(motion, modifier).outputs.len() == r.outputs.len(),
        r.updated(motion, modifier).current_output == r.current_output,
        r.current_output != Some(other as usize) ==> r.updated(motion, modifier).outputs[other]
            == r.outputs[other],
        r.updated(motion, modifier).outputs[other].draws.len() == r.outputs[other].draws.len(),
        forall|i: int|
            0 <= i < r.outputs[other].draws.len() - 1 ==> r.updated(
                motion,
                modifier,
            ).outputs[other].draws[i] == r.outputs[other].draws[i],
{
}

/// After a draw was started on one output and the pointer entered another,
/// a motion handed to the draw in progress is taken in by the output that
/// the pointer entered; the output on which the draw was started stays as
/// it is, its last draw included.
pub proof fn lemma_single_active_session(
    r: RuntimeView,
    kind: DrawKind,
    style: StyleView,
    color: Color,
    distance: bool,
    enter: PointerEvent,
    motion: Option<(i32, i32)>,
    modifier: Modifiers,
)
    requires
        r.wf(),
        r.can_start(),
        enter.kind is Enter,
        r.output(enter.surface) is Some,
        r.output(enter.surface) != r.focus(),
    ensures
        ({
            let a = r.focus()->0 as int;
            let b = r.output(enter.surface)->0 as int;
            let started = r.started(kind, style, color, distance);
            let entered = started.after_pointer(enter);
            let moved = entered.updated(motion, modifier);
            &&& entered.current_output == Some(b as usize)
            &&& entered.outputs[a] == started.outputs[a]
            &&& moved.current_output == Some(b as usize)
            &&& moved.outputs[a] == started.outputs[a]
            &&& moved.outputs[b] == entered.outputs[b].updated(motion, modifier)
        }),
{
    lemma_surface_at(r.outputs, enter.surface, 0);
    let started = r.started(kind, style, color, distance);
    lemma_same_surfaces(r.outputs, started.outputs, enter.surface, 0);
}

proof fn lemma_same_surfaces(a: Seq<OutPutView>, b: Seq<OutPutView>, surface: u32, from: int)
    requires
        0 <= from,
        a.len() == b.len(),
        forall|i: int| 0 <= i < a.len() ==> (#[trigger] a[i]).surface == b[i].surface,
    ensures
        surface_at(a, surface, from) == surface_at(b, surface, from),
    decreases a.len() - from,
{
    if from < a.len() && a[from].surface != surface {
        lemma_same_surfaces(a, b, surface, from + 1);
    }
}

/// The state after some motions were handed to the draw in progress, one
/// after the other.
pub open spec fn after_motions(r: RuntimeView, motions: Seq<(Option<(i32, i32)>, Modifiers)>) -> RuntimeView
    decreases motions.len(),
{
    if motions.len() == 0 {
        r
    } else {
        after_motions(r, motions.drop_last()).updated(motions.last().0, motions.last().1)
    }
}

/// However many motions are handed to the draw in progress, an output that
/// has not the pointer stays as it is.
pub proof fn lemma_motions_leave_others(
    r: RuntimeView,
    motions: Seq<(Option<(i32, i32)>, Modifiers)>,
    other: int,
)
    requires
        r.wf(),
        0 <= other < r.outputs.len(),
        r.current_output != Some(other as usize),
    ensures
        after_motions(r, motions).wf(),
        after_motions(r, motions).current_output == r.current_output,
        after_motions(r, motions).outputs.len() == r.outputs.len(),
        after_motions(r, motions).outputs[other] == r.outputs[other],
    decreases motions.len(),
{
    if motions.len() > 0 {
        lemma_motions_leave_others(r, motions.drop_last(), other);
    }
}

} // verus!
