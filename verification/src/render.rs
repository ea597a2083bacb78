//! What to paint for an output: the layer under the draws, then one stroke
//! for each draw, oldest first, so that later draws lie on top.

use vstd::prelude::*;
use crate::color::Color;
use crate::draw::{Draw, DrawView, Label};
use crate::output::{draws_view, OutPut, OutPutView};
use crate::pause::FrameFormat;
use crate::tools::draw::draw::{StrokeStyleSerialize, StyleView};
use crate::tools::{Point, Segment};

verus! {

/// The layer under the draws.
#[derive(Debug, Clone, Copy, PartialEq, Eq, Structural)]
pub enum Base {
    /// The screen as it was captured when the output was paused.
    Screenshot(FrameFormat),
    /// The whole output in one colour.
    Clear(Color),
}

/// One path to stroke, and the label to write next to it.
#[derive(Debug, PartialEq, Eq)]
pub struct Stroke {
    pub path: Vec<Segment>,
    pub style: StrokeStyleSerialize,
    pub color: Color,
    pub label: Option<Label>,
}

/// What a `Stroke` holds.
pub struct StrokeView {
    pub path: Seq<Segment>,
    pub style: StyleView,
    pub color: Color,
    pub label: Option<(Seq<char>, Point)>,
}

impl View for Stroke {
    type V = StrokeView;

    open spec fn view(&self) -> StrokeView {
        StrokeView {
            path: self.path@,
            style: self.style@,
            color: self.color,
            label: match self.label {
                Some(l) => Some((l.text@, l.anchor)),
                None => None,
            },
        }
    }
}

/// All that is painted for one output at one time.
#[derive(Debug, PartialEq, Eq)]
pub struct Frame {
    /// Which of the output's two buffers to paint into.
    pub buffer: usize,
    pub width: u32,
    pub height: u32,
    pub base: Base,
    pub strokes: Vec<Stroke>,
}

/// What a `Frame` holds.
pub struct FrameView {
    pub buffer: usize,
    pub width: u32,
    pub height: u32,
    pub base: Base,
    pub strokes: Seq<StrokeView>,
}

/// What some strokes hold.
pub open spec fn strokes_view(strokes: Seq<Stroke>) -> Seq<StrokeView> {
    Seq::new(strokes.len(), |i: int| strokes[i]@)
}

impl View for Frame {
    type V = FrameView;

    open spec fn view(&self) -> FrameView {
        FrameView {
            buffer: self.buffer,
            width: self.width,
            height: self.height,
            base: self.base,
            strokes: strokes_view(self.strokes@),
        }
    }
}

impl DrawView {
    /// The stroke that paints the draw: its closed path in its style and
    /// colour, and its label.
    pub open spec fn stroke(self) -> StrokeView {
        StrokeView { path: self.path(), style: self.style, color: self.color, label: self.label() }
    }
}

impl OutPutView {
    /// The layer under the draws: the captured screen while the output is
    /// paused, and the background colour otherwise.
    pub open spec fn base(self) -> Base {
        match self.screencopy {
            Some(format) => Base::Screenshot(format),
            None => Base::Clear(self.fgcolor),
        }
    }

    /// What is painted for the output, into its current buffer: the base,
    /// then the stroke of each draw in the order of the draws.
    pub open spec fn frame(self) -> FrameView {
        FrameView {
            buffer: self.buffers.current,
            width: self.width,
            height: self.height,
            base: self.base(),
            strokes: Seq::new(self.draws.len(), |i: int| self.draws[i].stroke()),
        }
    }
}

impl Draw {
    /// The stroke that paints this draw.
    pub fn render(&self) -> (stroke: Stroke)
        ensures
            stroke@ == self@.stroke(),
    {
        Stroke {
            path: self.draw(),
            style: self.style.clone(),
            color: self.color,
            label: self.draw_size(),
        }
    }
}

impl OutPut {
    /// What to paint for this output.
    pub fn render(&self) -> (frame: Frame)
        ensures
            frame@ == self@.frame(),
    {
        let base = match self.screencopy {
            Some(format) => Base::Screenshot(format),
            None => Base::Clear(self.fgcolor),
        };
        let mut strokes: Vec<Stroke> = Vec::new();
        let mut i: usize = 0;
        while i < self.draws.len()
            invariant
                i <= self.draws@.len(),
                strokes@.len() == i,
                forall|j: int| 0 <= j < i ==> (#[trigger] strokes@[j])@ == self.draws@[j]@.stroke(),
            decreases self.draws@.len() - i,
        {
            strokes.push(self.draws[i].render());
            i += 1;
        }
        let frame = Frame {
            buffer: self.buffers.buffer(),
            width: self.width,
            height: self.height,
            base,
            strokes,
        };
        assert(frame@.strokes =~= self@.frame().strokes);
        frame
    }
}

/// An output without draws is painted as its base alone.
pub proof fn lemma_frame_of_empty(output: OutPutView)
    requires
        output.draws.len() == 0,
    ensures
        output.frame().strokes.len() == 0,
        output.frame().base == output.base(),
{
}

/// The frame has one stroke for each draw, in the order of the draws.
pub proof fn lemma_frame_order(output: OutPutView, i: int)
    requires
        0 <= i < output.draws.len(),
    ensures
        output.frame().strokes.len() == output.draws.len(),
        output.frame().strokes[i] == output.draws[i].stroke(),
{
}

} // verus!
