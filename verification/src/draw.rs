//! What a frame draws: the buffers of every window and its popups, then the
//! cursor.
use vstd::prelude::*;

use crate::point::{add_fits, point_add, point_sub, sub_fits, Point};
use crate::state::{CompositorState, Window};

verus! {

/// A buffer of a surface tree: where it is drawn relative to the root
/// surface, its size, and the surface it belongs to.
#[derive(Clone, Copy, PartialEq, Eq, Structural, Debug)]
pub struct Buffer {
    pub position: Point,
    pub size: Point,
    pub surface: u32,
}

/// The buffers of one popup: its position relative to the window, the
/// position of its `xdg_surface` geometry, and its front buffers.
pub struct PopupBuffers {
    pub position: Point,
    pub xdg_surface_position: Point,
    pub buffers: Vec<Buffer>,
}

/// The buffers of one window: its position, the position of its
/// `xdg_surface` geometry, its own front buffers and its popups.
pub struct WindowBuffers {
    pub toplevel_position: Point,
    pub xdg_surface_position: Point,
    pub buffers: Vec<Buffer>,
    pub popups: Vec<PopupBuffers>,
}

/// What a quad shows.
#[derive(Clone, Copy, PartialEq, Eq, Structural, Debug)]
pub enum QuadTexture {
    /// The buffer of surface `surface` of client `fd`.
    Surface { fd: i32, surface: u32 },
    /// The cursor image.
    Cursor,
}

/// A rectangle to draw and what it shows.
#[derive(Clone, Copy, PartialEq, Eq, Structural, Debug)]
pub struct Quad {
    pub position: Point,
    pub size: Point,
    pub texture: QuadTexture,
}

/// The width and height of the cursor quad.
pub const CURSOR_SIDE: i32 = 2;

/// The quads of the buffers `bs` of client `fd`, drawn from `origin`.
pub open spec fn buffer_quads(fd: i32, origin: Point, bs: Seq<Buffer>) -> Seq<Quad> {
    Seq::new(
        bs.len(),
        |i: int|
            Quad {
                position: point_add(origin, bs[i].position),
                size: bs[i].size,
                texture: QuadTexture::Surface { fd, surface: bs[i].surface },
            },
    )
}

/// Every buffer position, moved to `origin`, is representable.
pub open spec fn buffers_fit(origin: Point, bs: Seq<Buffer>) -> bool {
    forall|i: int| 0 <= i < bs.len() ==> add_fits(origin, #[trigger] bs[i].position)
}

/// Where the buffers of a popup of a window at `toplevel` are drawn from.
pub open spec fn popup_draw_origin(toplevel: Point, p: PopupBuffers) -> Point {
    point_sub(point_add(toplevel, p.position), p.xdg_surface_position)
}

/// The arithmetic of placing a popup stays in range.
pub open spec fn popup_fits(toplevel: Point, p: PopupBuffers) -> bool {
    &&& add_fits(toplevel, p.position)
    &&& sub_fits(point_add(toplevel, p.position), p.xdg_surface_position)
    &&& buffers_fit(popup_draw_origin(toplevel, p), p.buffers@)
}

/// The quads of the popups `ps` of client `fd`'s window at `toplevel`, in
/// order.
pub open spec fn popups_quads(fd: i32, toplevel: Point, ps: Seq<PopupBuffers>) -> Seq<Quad>
    decreases ps.len(),
{
    if ps.len() == 0 {
        Seq::empty()
    } else {
        popups_quads(fd, toplevel, ps.drop_last()) + buffer_quads(
            fd,
            popup_draw_origin(toplevel, ps.last()),
            ps.last().buffers@,
        )
    }
}

/// Where a window's own buffers are drawn from.
pub open spec fn window_draw_origin(wb: WindowBuffers) -> Point {
    point_sub(wb.toplevel_position, wb.xdg_surface_position)
}

/// The quads of one window of client `fd`: its own buffers, then its popups.
pub open spec fn window_quads(fd: i32, wb: WindowBuffers) -> Seq<Quad> {
    buffer_quads(fd, window_draw_origin(wb), wb.buffers@) + popups_quads(
        fd,
        wb.toplevel_position,
        wb.popups@,
    )
}

/// The arithmetic of drawing one window stays in range.
pub open spec fn window_fits(wb: WindowBuffers) -> bool {
    &&& sub_fits(wb.toplevel_position, wb.xdg_surface_position)
    &&& buffers_fit(window_draw_origin(wb), wb.buffers@)
    &&& forall|k: int| 0 <= k < wb.popups@.len() ==> popup_fits(wb.toplevel_position, #[trigger] wb.popups@[k])
}

/// The quads of the first `n` windows, in stack order.
pub open spec fn windows_quads(windows: Seq<Window>, wbs: Seq<WindowBuffers>, n: int) -> Seq<Quad>
    decreases n,
{
    if n <= 0 {
        Seq::empty()
    } else {
        windows_quads(windows, wbs, n - 1) + window_quads(windows[n - 1].fd, wbs[n - 1])
    }
}

/// Appends the quads of the buffers `bs` of client `fd`, drawn from `origin`.
fn push_buffers(out: &mut Vec<Quad>, fd: i32, origin: Point, bs: &Vec<Buffer>)
    requires
        buffers_fit(origin, bs@),
    ensures
        final(out)@ == old(out)@ + buffer_quads(fd, origin, bs@),
{
    let ghost start = out@;
    let mut k: usize = 0;
    while k < bs.len()
        invariant
            k <= bs.len(),
            buffers_fit(origin, bs@),
            out@ == start + buffer_quads(fd, origin, bs@.take(k as int)),
        decreases bs.len() - k,
    {
        let b = bs[k];
        proof {
            assert(add_fits(origin, bs@[k as int].position));
        }
        out.push(
            Quad {
                position: Point(origin.0 + b.position.0, origin.1 + b.position.1),
                size: b.size,
                texture: QuadTexture::Surface { fd, surface: b.surface },
            },
        );
        proof {
            assert(buffer_quads(fd, origin, bs@.take(k + 1)) =~= buffer_quads(
                fd,
                origin,
                bs@.take(k as int),
            ).push(out@.last()));
        }
        k = k + 1;
    }
    proof {
        assert(bs@.take(bs.len() as int) =~= bs@);
    }
}

impl<R> CompositorState<R> {
    /// The quads of a frame: for every window, topmost first, its buffers and
    /// then those of its popups; last the cursor at the pointer position,
    /// unless the client under the pointer hid it (`cursor_hidden`).
    /// `buffers[i]` holds the buffers of `windows[i]`.
    pub fn render(&self, buffers: &Vec<WindowBuffers>, cursor_hidden: bool) -> (r: Vec<Quad>)
        requires
            buffers@.len() == self.windows@.len(),
            forall|i: int| 0 <= i < buffers@.len() ==> window_fits(#[trigger] buffers@[i]),
        ensures
            r@ == windows_quads(self.windows@, buffers@, self.windows@.len() as int) + if self.pointer_over
                is Some && cursor_hidden {
                Seq::<Quad>::empty()
            } else {
                seq![Quad { position: self.pointer_position, size: Point(CURSOR_SIDE, CURSOR_SIDE), texture: QuadTexture::Cursor }]
            },
    {
        let mut out: Vec<Quad> = Vec::new();
        let mut i: usize = 0;
        while i < self.windows.len()
            invariant
                i <= self.windows.len(),
                buffers@.len() == self.windows@.len(),
                forall|j: int| 0 <= j < buffers@.len() ==> window_fits(#[trigger] buffers@[j]),
                out@ == windows_quads(self.windows@, buffers@, i as int),
            decreases self.windows.len() - i,
        {
            let fd = self.windows[i].fd;
            let wb = &buffers[i];
            proof {
                assert(window_fits(buffers@[i as int]));
            }
            let ghost before = out@;
            let origin = Point(
                wb.toplevel_position.0 - wb.xdg_surface_position.0,
                wb.toplevel_position.1 - wb.xdg_surface_position.1,
            );
            push_buffers(&mut out, fd, origin, &wb.buffers);
            let ghost mid = out@;
            let mut k: usize = 0;
            while k < wb.popups.len()
                invariant
                    k <= wb.popups.len(),
                    window_fits(*wb),
                    out@ == mid + popups_quads(fd, wb.toplevel_position, wb.popups@.take(k as int)),
                decreases wb.popups.len() - k,
            {
                let p = &wb.popups[k];
                proof {
                    assert(popup_fits(wb.toplevel_position, wb.popups@[k as int]));
                    assert(wb.popups@.take(k + 1).drop_last() =~= wb.popups@.take(k as int));
                    assert(wb.popups@.take(k + 1).last() == *p);
                }
                let at = Point(
                    wb.toplevel_position.0 + p.position.0,
                    wb.toplevel_position.1 + p.position.1,
                );
                let origin = Point(at.0 - p.xdg_surface_position.0, at.1 - p.xdg_surface_position.1);
                push_buffers(&mut out, fd, origin, &p.buffers);
                k = k + 1;
            }
            proof {
                assert(wb.popups@.take(wb.popups.len() as int) =~= wb.popups@);
                assert(out@ =~= before + window_quads(fd, *wb));
            }
            i = i + 1;
        }
        if !(self.pointer_over.is_some() && cursor_hidden) {
            out.push(Quad { position: self.pointer_position, size: Point(CURSOR_SIDE, CURSOR_SIDE), texture: QuadTexture::Cursor });
        }
        proof {
            let tail = if self.pointer_over is Some && cursor_hidden {
                Seq::<Quad>::empty()
            } else {
                seq![Quad { position: self.pointer_position, size: Point(CURSOR_SIDE, CURSOR_SIDE), texture: QuadTexture::Cursor }]
            };
            assert(out@ =~= windows_quads(self.windows@, buffers@, self.windows@.len() as int) + tail);
        }
        out
    }
}

} // verus!
