//! The frame-loop state: the current window size, the frame buffer that
//! always holds one packed pixel per window pixel, and the reaction to each
//! event that the windowing side delivers.

use vstd::prelude::*;
use crate::render::render_chunk;

verus! {

/// The window width the frame loop starts with.
pub const INITIAL_WIDTH: usize = 800;

/// The window height the frame loop starts with.
pub const INITIAL_HEIGHT: usize = 800;

/// The column and row `(i % width, i / width)` of flat pixel index `i`.
pub fn pixel_coords(i: usize, width: usize) -> (r: (usize, usize))
    requires
        width > 0,
    ensures
        r.0 == i % width,
        r.1 == i / width,
{
    (i % width, i / width)
}

/// An event from the windowing side, one per turn of the loop.
#[derive(Clone, Copy, Debug, PartialEq, Eq, Structural)]
pub enum Event {
    /// No input is pending: time to draw the next frame.
    Idle,
    /// The window now has this width and height, in pixels.
    Resized(usize, usize),
    /// The user asked to close the window.
    CloseRequested,
    /// Anything else; it does not touch the frame state.
    Other,
}

/// What the loop does after an event.
#[derive(Clone, Copy, Debug, PartialEq, Eq, Structural)]
pub enum Action {
    /// Shade every pixel of the buffer and present it.
    Render,
    /// The window has no pixels: draw nothing this turn.
    SkipFrame,
    /// Leave the loop.
    Exit,
    /// Nothing to do until the next event.
    Wait,
}

/// The mutable state of the frame loop.
pub struct RenderState {
    width: usize,
    height: usize,
    buffer: Vec<u32>,
    background: u32,
    closed: bool,
}

/// The action for an idle turn of a window of the given size.
pub open spec fn idle_action(width: nat, height: nat) -> Action {
    if width == 0 || height == 0 {
        Action::SkipFrame
    } else {
        Action::Render
    }
}

/// Whether the buffer of a window of this size can be indexed by `usize`.
pub open spec fn size_fits(width: nat, height: nat) -> bool {
    width * height <= usize::MAX
}

/// Whether an event can be handled without its buffer length overflowing.
pub open spec fn event_fits(ev: Event) -> bool {
    match ev {
        Event::Resized(w, h) => size_fits(w as nat, h as nat),
        _ => true,
    }
}

impl RenderState {
    /// The current window width.
    pub closed spec fn frame_width(&self) -> nat {
        self.width as nat
    }

    /// The current window height.
    pub closed spec fn frame_height(&self) -> nat {
        self.height as nat
    }

    /// The frame buffer, row by row.
    pub closed spec fn pixels(&self) -> Seq<u32> {
        self.buffer@
    }

    /// The pixel that fills newly created buffer slots.
    pub closed spec fn background(&self) -> u32 {
        self.background
    }

    /// Whether the loop has been asked to close.
    pub closed spec fn is_closed(&self) -> bool {
        self.closed
    }

    /// The buffer holds exactly one pixel per window pixel.
    pub open spec fn wf(&self) -> bool {
        self.pixels().len() == self.frame_width() * self.frame_height()
    }

    /// A state for a window of `width` by `height` pixels, its buffer filled
    /// with `background`.
    pub fn new(width: usize, height: usize, background: u32) -> (s: RenderState)
        requires
            size_fits(width as nat, height as nat),
        ensures
            s.wf(),
            s.frame_width() == width,
            s.frame_height() == height,
            s.background() == background,
            !s.is_closed(),
            s.pixels() == Seq::new((width * height) as nat, |i: int| background),
    {
        let len = width * height;
        let mut buffer: Vec<u32> = Vec::new();
        let mut i: usize = 0;
        while i < len
            invariant
                i <= len,
                buffer@ == Seq::new(i as nat, |k: int| background),
            decreases len - i,
        {
            buffer.push(background);
            i = i + 1;
            assert(buffer@ =~= Seq::new(i as nat, |k: int| background));
        }
        RenderState { width, height, buffer, background, closed: false }
    }

    /// The current window width.
    pub fn width(&self) -> (r: usize)
        ensures
            r == self.frame_width(),
    {
        self.width
    }

    /// The current window height.
    pub fn height(&self) -> (r: usize)
        ensures
            r == self.frame_height(),
    {
        self.height
    }

    /// Whether the loop has been asked to close.
    pub fn closed(&self) -> (r: bool)
        ensures
            r == self.is_closed(),
    {
        self.closed
    }

    /// The frame buffer, for presentation.
    pub fn buffer(&self) -> (r: &[u32])
        ensures
            r@ == self.pixels(),
    {
        self.buffer.as_slice()
    }

    /// The frame buffer, for a render pass; its length cannot change.
    pub fn buffer_mut(&mut self) -> (r: &mut [u32])
        ensures
            r@ == old(self).pixels(),
            final(self).pixels() == final(r)@,
            final(self).frame_width() == old(self).frame_width(),
            final(self).frame_height() == old(self).frame_height(),
            final(self).background() == old(self).background(),
            final(self).is_closed() == old(self).is_closed(),
    {
        self.buffer.as_mut_slice()
    }

    /// Shades the whole buffer on the calling thread: pixel `i` becomes what
    /// `shade` gives for `i`.
    pub fn render_serial<F: Fn(usize) -> u32>(&mut self, shade: &F)
        requires
            old(self).wf(),
            forall|i: usize| i < old(self).pixels().len() ==> shade.requires((i,)),
        ensures
            final(self).wf(),
            final(self).frame_width() == old(self).frame_width(),
            final(self).frame_height() == old(self).frame_height(),
            final(self).background() == old(self).background(),
            final(self).is_closed() == old(self).is_closed(),
            final(self).pixels().len() == old(self).pixels().len(),
            forall|i: int|
                0 <= i < old(self).pixels().len() ==> shade.ensures(
                    (i as usize,),
                    #[trigger] final(self).pixels()[i],
                ),
    {
        let n = self.buffer.len();
        render_chunk(self.buffer.as_mut_slice(), 0, shade);
        assert(self.buffer@.len() == n);
    }

    /// Takes on a new window size. The buffer gets `width * height` pixels,
    /// all of them the background, until the next render pass.
    pub fn resize(&mut self, width: usize, height: usize)
        requires
            old(self).wf(),
            size_fits(width as nat, height as nat),
        ensures
            final(self).wf(),
            final(self).frame_width() == width,
            final(self).frame_height() == height,
            final(self).background() == old(self).background(),
            final(self).is_closed() == old(self).is_closed(),
            final(self).pixels() == Seq::new((width * height) as nat, |i: int| old(self).background()),
    {
        let len = width * height;
        self.buffer.clear();
        self.buffer.resize(len, self.background);
        assert(self.buffer@ =~= Seq::new(len as nat, |i: int| self.background));
        self.width = width;
        self.height = height;
    }

    /// Reacts to one event. Once closed, the state ignores every event.
    /// An idle turn asks for a render, or for a skipped frame when the window
    /// has no pixels; a resize takes on the new size; a close request closes.
    pub fn handle_event(&mut self, ev: Event) -> (r: Action)
        requires
            old(self).wf(),
            event_fits(ev),
        ensures
            final(self).wf(),
            old(self).is_closed() ==> r == Action::Wait && *final(self) == *old(self),
            !old(self).is_closed() ==> match ev {
                Event::Idle => r == idle_action(old(self).frame_width(), old(self).frame_height())
                    && *final(self) == *old(self),
                Event::Resized(w, h) => r == Action::Wait && final(self).frame_width() == w
                    && final(self).frame_height() == h && !final(self).is_closed()
                    && final(self).background() == old(self).background()
                    && final(self).pixels() == Seq::new(
                    (w * h) as nat,
                    |i: int| old(self).background(),
                ),
                Event::CloseRequested => r == Action::Exit && final(self).is_closed()
                    && final(self).frame_width() == old(self).frame_width()
                    && final(self).frame_height() == old(self).frame_height()
                    && final(self).pixels() == old(self).pixels()
                    && final(self).background() == old(self).background(),
                Event::Other => r == Action::Wait && *final(self) == *old(self),
            },
    {
        if self.closed {
            return Action::Wait;
        }
        match ev {
            Event::Idle => {
                if self.width == 0 || self.height == 0 {
                    Action::SkipFrame
                } else {
                    Action::Render
                }
            },
            Event::Resized(w, h) => {
                self.resize(w, h);
                Action::Wait
            },
            Event::CloseRequested => {
                self.closed = true;
                Action::Exit
            },
            Event::Other => Action::Wait,
        }
    }
}

} // verus!
