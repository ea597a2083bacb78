//! Progress of one screen capture, as the compositor reports it.

use vstd::prelude::*;

verus! {

/// The layout of the pixels of a captured frame.
#[derive(Debug, Clone, Copy, PartialEq, Eq, Structural)]
pub enum Format {
    /// Blue, green, red and alpha, a byte each, in that order in memory.
    Argb8888,
    /// Red, green, blue and an unused byte, in that order in memory.
    Xbgr8888,
    /// Another layout, by its number in the display protocol.
    Other(u32),
}

/// The format and the size of a captured frame.
#[derive(Debug, Clone, Copy, PartialEq, Eq, Structural)]
pub struct FrameFormat {
    pub format: Format,
    pub width: u32,
    pub height: u32,
    /// The bytes of one row.
    pub stride: u32,
}

/// How the compositor answered a request to copy a frame.
#[derive(Debug, Clone, Copy, PartialEq, Eq, Structural)]
pub enum FrameState {
    /// The compositor reported that the copy failed.
    Failed,
    /// The compositor reported that the copy is ready.
    Finished,
}

/// Why a capture produced no image.
#[derive(Debug, Clone, Copy, PartialEq, Eq, Structural)]
pub enum FrameError {
    /// The compositor never announced a buffer format.
    NoFormat,
    /// The compositor reported that the copy failed.
    FrameFailed,
}

impl FrameError {
    /// The message shown for this error.
    pub fn message(&self) -> (s: &'static str)
        ensures
            *self == FrameError::NoFormat ==> s@ == "NoFormat error"@,
            *self == FrameError::FrameFailed ==> s@ == "Failed to render frame"@,
    {
        match self {
            FrameError::NoFormat => "NoFormat error",
            FrameError::FrameFailed => "Failed to render frame",
        }
    }
}

/// What the compositor reports while a frame is captured.
#[derive(Debug, Clone, Copy, PartialEq, Eq, Structural)]
pub enum FrameEvent {
    /// The format and size of the buffer to hand in; the format is none
    /// where the compositor names one that is not known.
    Buffer { format: Option<Format>, width: u32, height: u32, stride: u32 },
    Flags,
    /// The copy is ready.
    Ready,
    /// The copy failed.
    Failed,
    Damage,
    LinuxDmabuf,
    /// All buffer formats were announced.
    BufferDone,
}

/// What is known of a capture so far.
#[derive(Debug, Clone, Copy, PartialEq, Eq, Structural)]
pub struct CaptureFrameState {
    pub format: Option<FrameFormat>,
    pub state: Option<FrameState>,
    pub buffer_done: bool,
}

/// What a pixel buffer needs before it can be painted.
#[derive(Debug, Clone, Copy, PartialEq, Eq, Structural)]
pub enum Conversion {
    /// Nothing: the pixels are in the layout that is painted.
    Keep,
    /// The first and the third byte of every pixel change places.
    SwapRedBlue,
    /// The layout cannot be painted.
    Unsupported,
}

/// What to do next in a capture.
#[derive(Debug, Clone, Copy, PartialEq, Eq, Structural)]
pub enum CaptureStep {
    /// Wait for the compositor's next events.
    Dispatch,
    /// Give up.
    Fail(FrameError),
    /// Make a buffer of the format, in a pool of so many bytes, and ask the
    /// compositor to copy the frame into it.
    Copy { format: FrameFormat, pool: usize },
    /// The frame is in the buffer: convert it.
    Finish(Conversion),
}

/// The conversion that a pixel layout needs.
pub open spec fn conversion_of(format: Format) -> Conversion {
    match format {
        Format::Argb8888 => Conversion::Keep,
        Format::Xbgr8888 => Conversion::SwapRedBlue,
        Format::Other(_) => Conversion::Unsupported,
    }
}

impl CaptureFrameState {
    /// A capture of which nothing is known yet.
    pub open spec fn fresh() -> CaptureFrameState {
        CaptureFrameState { format: None, state: None, buffer_done: false }
    }

    /// The capture after a report of the compositor. A buffer of a known
    /// format is kept as the format of the capture; one of an unknown
    /// format is passed over.
    pub open spec fn after(self, event: FrameEvent) -> CaptureFrameState {
        match event {
            FrameEvent::Buffer { format, width, height, stride } => match format {
                Some(format) => CaptureFrameState {
                    format: Some(FrameFormat { format, width, height, stride }),
                    ..self
                },
                None => self,
            },
            FrameEvent::Ready => CaptureFrameState { state: Some(FrameState::Finished), ..self },
            FrameEvent::Failed => CaptureFrameState { state: Some(FrameState::Failed), ..self },
            FrameEvent::BufferDone => CaptureFrameState { buffer_done: true, ..self },
            _ => self,
        }
    }

    /// What to do next. Before the copy was asked for: wait until all
    /// formats were announced, then give up if none is known, if the
    /// capture needs more bytes than can be counted, or else ask for the
    /// copy. After it was asked for: wait for the answer, then give up on
    /// a failure, or else convert the pixels.
    pub open spec fn next(self, copying: bool) -> CaptureStep {
        if !copying {
            if !self.buffer_done {
                CaptureStep::Dispatch
            } else {
                match self.format {
                    None => CaptureStep::Fail(FrameError::NoFormat),
                    Some(format) => if format.height * format.stride <= usize::MAX {
                        CaptureStep::Copy { format, pool: (format.height * format.stride) as usize }
                    } else {
                        CaptureStep::Fail(FrameError::NoFormat)
                    },
                }
            }
        } else {
            match self.state {
                None => CaptureStep::Dispatch,
                Some(FrameState::Failed) => CaptureStep::Fail(FrameError::FrameFailed),
                Some(FrameState::Finished) => match self.format {
                    Some(format) => CaptureStep::Finish(conversion_of(format.format)),
                    None => CaptureStep::Fail(FrameError::NoFormat),
                },
            }
        }
    }

    /// A capture of which nothing is known yet.
    pub fn new() -> (capture: CaptureFrameState)
        ensures
            capture == CaptureFrameState::fresh(),
    {
        CaptureFrameState { format: None, state: None, buffer_done: false }
    }

    /// Takes in a report of the compositor.
    pub fn event(&mut self, event: FrameEvent)
        ensures
            *final(self) == old(self).after(event),
    {
        match event {
            FrameEvent::Buffer { format, width, height, stride } => {
                match format {
                    Some(format) => {
                        self.format = Some(FrameFormat { format, width, height, stride });
                    },
                    None => {},
                }
            },
            FrameEvent::Ready => {
                self.state = Some(FrameState::Finished);
            },
            FrameEvent::Failed => {
                self.state = Some(FrameState::Failed);
            },
            FrameEvent::BufferDone => {
                self.buffer_done = true;
            },
            _ => {},
        }
    }

    /// What to do next; `copying` says whether the copy was asked for.
    pub fn step(&self, copying: bool) -> (step: CaptureStep)
        ensures
            step == self.next(copying),
    {
        if !copying {
            if !self.buffer_done {
                return CaptureStep::Dispatch;
            }
            match self.format {
                None => CaptureStep::Fail(FrameError::NoFormat),
                Some(format) => {
                    assert(format.height * format.stride <= 0xffff_ffff * 0xffff_ffff)
                        by (nonlinear_arith)
                        requires
                            format.height <= 0xffff_ffff,
                            format.stride <= 0xffff_ffff,
                    ;
                    let pool: u64 = format.height as u64 * format.stride as u64;
                    if pool <= usize::MAX as u64 {
                        CaptureStep::Copy { format, pool: pool as usize }
                    } else {
                        CaptureStep::Fail(FrameError::NoFormat)
                    }
                },
            }
        } else {
            match self.state {
                None => CaptureStep::Dispatch,
                Some(FrameState::Failed) => CaptureStep::Fail(FrameError::FrameFailed),
                Some(FrameState::Finished) => match self.format {
                    Some(format) => CaptureStep::Finish(conversion(format.format)),
                    None => CaptureStep::Fail(FrameError::NoFormat),
                },
            }
        }
    }
}

/// The conversion that a pixel layout needs.
pub fn conversion(format: Format) -> (c: Conversion)
    ensures
        c == conversion_of(format),
{
    match format {
        Format::Argb8888 => Conversion::Keep,
        Format::Xbgr8888 => Conversion::SwapRedBlue,
        Format::Other(_) => Conversion::Unsupported,
    }
}

/// The byte at an index after the first and the third byte of every whole
/// pixel of four bytes changed places; bytes after the last whole pixel
/// stay.
pub open spec fn swapped_at(pixels: Seq<u8>, i: int) -> u8 {
    if i - i % 4 + 4 <= pixels.len() {
        if i % 4 == 0 {
            pixels[i + 2]
        } else if i % 4 == 2 {
            pixels[i - 2]
        } else {
            pixels[i]
        }
    } else {
        pixels[i]
    }
}

/// The bytes after the first and the third byte of every whole pixel
/// changed places.
pub open spec fn swapped(pixels: Seq<u8>) -> Seq<u8> {
    Seq::new(pixels.len(), |i: int| swapped_at(pixels, i))
}

/// Changes the places of the first and the third byte of every pixel.
pub fn swap_red_blue(canvas: &mut [u8])
    ensures
        final(canvas)@ == swapped(old(canvas)@),
{
    let mut i: usize = 0;
    while i < canvas.len() && canvas.len() - i >= 4
        invariant
            i % 4 == 0,
            i <= canvas@.len(),
            canvas@.len() == old(canvas)@.len(),
            forall|k: int| 0 <= k < i ==> #[trigger] canvas@[k] == swapped_at(old(canvas)@, k),
            forall|k: int| i <= k < canvas@.len() ==> #[trigger] canvas@[k] == old(canvas)@[k],
        decreases canvas@.len() - i,
    {
        let first = canvas[i];
        let third = canvas[i + 2];
        canvas[i] = third;
        canvas[i + 2] = first;
        i += 4;
    }
    assert(canvas@ =~= swapped(old(canvas)@));
}

/// Changing the places twice gives the pixels back.
pub proof fn lemma_swap_twice(pixels: Seq<u8>)
    ensures
        swapped(swapped(pixels)) == pixels,
{
    assert(swapped(swapped(pixels)) =~= pixels);
}

} // verus!
