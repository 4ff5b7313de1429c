//! The mode-setting back end: one screen, driven by atomic commits and paced
//! by page flips.
use vstd::prelude::*;

use crate::drm::{AtomicHelper, ModeInfo, Object};
use crate::point::Point;

pub mod device;
pub mod egl;
pub mod gbm;

verus! {

/// Whether the screen waits for a page flip, and whether the frame in flight
/// shows a client buffer directly.
#[derive(Clone, Copy, PartialEq, Eq, Structural, Debug)]
pub enum ScreenState {
    WaitingForPageFlip { did_direct_scanout: bool },
    Idle,
}

/// The property ids that a frame sets.
#[derive(Clone, Copy, PartialEq, Eq, Structural, Debug)]
pub struct ScreenProps {
    pub connector_crtc_id: u32,
    pub crtc_mode_id: u32,
    pub crtc_active: u32,
    pub crtc_vrr_enabled: u32,
    pub plane_fb_id: u32,
    pub plane_crtc_id: u32,
    pub plane_src_x: u32,
    pub plane_src_y: u32,
    pub plane_src_w: u32,
    pub plane_src_h: u32,
    pub plane_crtc_x: u32,
    pub plane_crtc_y: u32,
    pub plane_crtc_w: u32,
    pub plane_crtc_h: u32,
    pub plane_in_fence_fd: u32,
}

/// The property changes of one frame: with a mode blob, the connector is
/// routed to the CRTC and the CRTC gets the mode and is switched on; then the
/// plane shows framebuffer `fb` over the whole mode, after `in_fence_fd`.
pub open spec fn frame_changes(
    connector: u32,
    crtc: u32,
    plane: u32,
    props: ScreenProps,
    mode_blob: Option<u32>,
    fb: u32,
    hdisplay: u16,
    vdisplay: u16,
    in_fence_fd: i32,
) -> Seq<(u32, u32, u64)> {
    let modeset = match mode_blob {
        Some(blob) => seq![
            (connector, props.connector_crtc_id, crtc as u64),
            (crtc, props.crtc_mode_id, blob as u64),
            (crtc, props.crtc_active, 1u64),
        ],
        None => Seq::empty(),
    };
    modeset + seq![
        (plane, props.plane_fb_id, fb as u64),
        (plane, props.plane_crtc_id, crtc as u64),
        (plane, props.plane_src_x, 0u64),
        (plane, props.plane_src_y, 0u64),
        (plane, props.plane_src_w, ((hdisplay as u32) << 16u32) as u64),
        (plane, props.plane_src_h, ((vdisplay as u32) << 16u32) as u64),
        (plane, props.plane_crtc_x, 0u64),
        (plane, props.plane_crtc_y, 0u64),
        (plane, props.plane_crtc_w, hdisplay as u64),
        (plane, props.plane_crtc_h, vdisplay as u64),
        (plane, props.plane_in_fence_fd, #[verifier::truncate] (in_fence_fd as u64)),
    ]
}

/// The commit flags of a frame: nonblocking page-flip event, plus
/// allow-modeset when the mode is set.
pub open spec fn frame_flags(modeset: bool) -> u32 {
    if modeset {
        0x601
    } else {
        0x201
    }
}

/// Queues the property changes of one frame in `ctx` and returns the commit
/// flags. `mode_blob` is the blob that holds the mode when the mode is set.
pub fn queue_frame<C: Object, R: Object, P: Object>(
    ctx: &mut AtomicHelper,
    connector: &C,
    crtc: &R,
    plane: &P,
    props: &ScreenProps,
    mode_blob: Option<u32>,
    fb: u32,
    mode: &ModeInfo,
    in_fence_fd: i32,
) -> (flags: u32)
    ensures
        final(ctx).props@ == old(ctx).props@ + frame_changes(
            connector.id_spec(),
            crtc.id_spec(),
            plane.id_spec(),
            *props,
            mode_blob,
            fb,
            mode.hdisplay,
            mode.vdisplay,
            in_fence_fd,
        ),
        flags == frame_flags(mode_blob is Some),
{
    let ghost before = ctx.props@;
    if let Some(blob) = mode_blob {
        ctx.add_property(connector, props.connector_crtc_id, crtc.get_id() as u64);
        ctx.add_property(crtc, props.crtc_mode_id, blob as u64);
        ctx.add_property(crtc, props.crtc_active, 1);
    }
    let ghost mid = ctx.props@;
    ctx.add_property(plane, props.plane_fb_id, fb as u64);
    ctx.add_property(plane, props.plane_crtc_id, crtc.get_id() as u64);
    ctx.add_property(plane, props.plane_src_x, 0);
    ctx.add_property(plane, props.plane_src_y, 0);
    ctx.add_property(plane, props.plane_src_w, ((mode.hdisplay as u32) << 16) as u64);
    ctx.add_property(plane, props.plane_src_h, ((mode.vdisplay as u32) << 16) as u64);
    ctx.add_property(plane, props.plane_crtc_x, 0);
    ctx.add_property(plane, props.plane_crtc_y, 0);
    ctx.add_property(plane, props.plane_crtc_w, mode.hdisplay as u64);
    ctx.add_property(plane, props.plane_crtc_h, mode.vdisplay as u64);
    ctx.add_property(plane, props.plane_in_fence_fd, #[verifier::truncate] (in_fence_fd as u64));
    proof {
        assert(ctx.props@ =~= before + frame_changes(
            connector.id_spec(),
            crtc.id_spec(),
            plane.id_spec(),
            *props,
            mode_blob,
            fb,
            mode.hdisplay,
            mode.vdisplay,
            in_fence_fd,
        ));
    }
    let mut flags: u32 = 0x200 | 0x1;
    assert(0x200u32 | 0x1u32 == 0x201u32) by (bit_vector);
    if mode_blob.is_some() {
        assert(0x201u32 | 0x400u32 == 0x601u32) by (bit_vector);
        flags = flags | 0x400;
    }
    flags
}

/// `a - b`, or 0 when `b` is larger.
pub open spec fn saturating_sub(a: int, b: int) -> int {
    if a >= b {
        a - b
    } else {
        0
    }
}

/// The pacing of the next frame after a page flip, in microseconds.
#[derive(Clone, Copy, PartialEq, Eq, Structural, Debug)]
pub struct PageFlipTiming {
    /// When the flip happened.
    pub refresh_us: u64,
    /// One refresh cycle of the mode.
    pub cycle_us: u64,
    /// How late the flip came against the expected refresh, when that is
    /// more than half a millisecond.
    pub missed_by_us: Option<u64>,
    /// The feedback flags for the presentation-time protocol: vsync, hardware
    /// clock and completion, plus zero-copy for a direct scanout.
    pub presentation_flags: u32,
    /// When to start rendering the next frame: one millisecond before the
    /// next expected refresh.
    pub next_render_us: u64,
}

/// The screen's frame pacing: its mode, whether a flip is pending and when
/// the last one happened.
pub struct Screen {
    pub mode: ModeInfo,
    pub state: ScreenState,
    pub last_refresh: Option<u64>,
}

/// The frame can show the client buffer directly: a single window without
/// sub-surfaces whose buffer is a dma-buf of the screen's size.
pub open spec fn direct_scanout_spec(window_count: int, child_count: int, buffer_size: Option<Point>) -> bool {
    window_count == 1 && child_count == 0 && buffer_size == Some(Point(2560, 1440))
}

/// Whether the frame can show the client buffer directly.
pub fn can_scan_out_directly(window_count: usize, child_count: usize, buffer_size: Option<Point>) -> (r: bool)
    ensures
        r == direct_scanout_spec(window_count as int, child_count as int, buffer_size),
{
    if window_count == 1 && child_count == 0 {
        match buffer_size {
            Some(size) => size == Point(2560, 1440),
            None => false,
        }
    } else {
        false
    }
}

impl Screen {
    /// A screen showing `mode`, with no frame in flight.
    pub fn new(mode: ModeInfo) -> (r: Self)
        ensures
            r.mode == mode,
            r.state == ScreenState::Idle,
            r.last_refresh is None,
    {
        Screen { mode, state: ScreenState::Idle, last_refresh: None }
    }

    /// A frame was committed; `direct_scanout` tells whether it shows a
    /// client buffer directly.
    pub fn begin_frame(&mut self, direct_scanout: bool)
        requires
            old(self).state == ScreenState::Idle,
        ensures
            final(self).state == (ScreenState::WaitingForPageFlip { did_direct_scanout: direct_scanout }),
            final(self).mode == old(self).mode,
            final(self).last_refresh == old(self).last_refresh,
    {
        self.state = ScreenState::WaitingForPageFlip { did_direct_scanout: direct_scanout };
    }

    /// The timer for the next frame went off: the frame shows the client
    /// buffer directly when [`direct_scanout_spec`] allows it and is rendered
    /// otherwise; either way a flip is now pending. Returns whether the frame
    /// is a direct scanout.
    pub fn on_timer(&mut self, window_count: usize, child_count: usize, buffer_size: Option<Point>) -> (r: bool)
        requires
            old(self).state == ScreenState::Idle,
        ensures
            r == direct_scanout_spec(window_count as int, child_count as int, buffer_size),
            final(self).state == (ScreenState::WaitingForPageFlip { did_direct_scanout: r }),
            final(self).mode == old(self).mode,
            final(self).last_refresh == old(self).last_refresh,
    {
        let direct = can_scan_out_directly(window_count, child_count, buffer_size);
        self.begin_frame(direct);
        direct
    }

    /// The page flip of the frame in flight happened at `tv_sec` seconds and
    /// `tv_usec` microseconds: the screen is idle again, and the timing of the
    /// next frame follows.
    pub fn on_page_flip(&mut self, tv_sec: u32, tv_usec: u32) -> (r: PageFlipTiming)
        requires
            old(self).state is WaitingForPageFlip,
            old(self).mode.vrefresh != 0,
            tv_sec * 1_000_000 + tv_usec + 1_000_000int / (old(self).mode.vrefresh as int) >= 1_000,
        ensures
            final(self).state == ScreenState::Idle,
            final(self).mode == old(self).mode,
            r.refresh_us == tv_sec * 1_000_000 + tv_usec,
            r.cycle_us == 1_000_000int / (old(self).mode.vrefresh as int),
            final(self).last_refresh == Some(r.refresh_us),
            r.missed_by_us == match old(self).last_refresh {
                Some(last) => {
                    let late = saturating_sub(
                        saturating_sub(r.refresh_us as int, last as int),
                        r.cycle_us as int,
                    );
                    if late > 500 {
                        Some(late as u64)
                    } else {
                        None
                    }
                },
                None => None,
            },
            r.presentation_flags == if old(self).state->did_direct_scanout {
                15u32
            } else {
                7u32
            },
            r.next_render_us == r.refresh_us + r.cycle_us - 1_000,
    {
        let did_direct_scanout = match self.state {
            ScreenState::WaitingForPageFlip { did_direct_scanout } => did_direct_scanout,
            ScreenState::Idle => false,
        };
        self.state = ScreenState::Idle;
        let refresh_us: u64 = tv_sec as u64 * 1_000_000 + tv_usec as u64;
        let cycle_us: u64 = 1_000_000 / self.mode.vrefresh as u64;
        let missed_by_us = match self.last_refresh {
            Some(last) => {
                let since_last = if refresh_us >= last {
                    refresh_us - last
                } else {
                    0
                };
                let late = if since_last >= cycle_us {
                    since_last - cycle_us
                } else {
                    0
                };
                if late > 500 {
                    Some(late)
                } else {
                    None
                }
            },
            None => None,
        };
        self.last_refresh = Some(refresh_us);
        let mut presentation_flags: u32 = 0x1 | 0x2 | 0x4;
        assert(0x1u32 | 0x2u32 | 0x4u32 == 7u32) by (bit_vector);
        if did_direct_scanout {
            assert(7u32 | 0x8u32 == 15u32) by (bit_vector);
            presentation_flags = presentation_flags | 0x8;
        }
        let next_render_us = refresh_us + cycle_us - 1_000;
        PageFlipTiming { refresh_us, cycle_us, missed_by_us, presentation_flags, next_render_us }
    }
}

} // verus!
