//! The bar itself: regions, extents, layout, repaint dispatch and message
//! routing.
//!
//! The bar never draws; each operation returns the ordered list of
//! [`DrawCmd`]s a renderer must perform, and the contracts pin both the
//! resulting geometry and the command list.

use vstd::prelude::*;

use crate::panel::{
    panel_width, resolve_seq, resolved_status, shown_width_prefix, shown_width_sum, Dependence,
    Panel, PanelDrawInfo, PanelStatus,
};

verus! {

/// One of the three horizontal bands that organize panels.
#[derive(Clone, Copy, Debug, PartialEq, Eq, Hash, Structural)]
pub enum Alignment {
    /// The band growing rightward from the left edge.
    Left,
    /// The band centered on the middle of the bar.
    Center,
    /// The band growing leftward from the right edge.
    Right,
}

/// Which side the center block was nudged toward on overflow.
#[derive(Clone, Copy, Debug, PartialEq, Eq, Structural)]
pub enum CenterState {
    /// The center block sits at its natural, centered position.
    Center,
    /// The center block was pushed left, away from a wide right region.
    Left,
    /// The center block was pushed right, away from a wide left region.
    Right,
    /// The center block overflowed the space between its neighbors.
    Unknown,
}

/// The scope of one background repaint.
#[derive(Clone, Copy, Debug, PartialEq, Eq, Structural)]
pub enum Region {
    /// The left region, from the bar's left edge.
    Left,
    /// The center and right regions together.
    CenterRight,
    /// The right region, to the bar's right edge.
    Right,
    /// The whole bar.
    All,
    /// An explicit x-range.
    Custom {
        /// Left edge of the range.
        start_x: i64,
        /// Right edge of the range.
        end_x: i64,
    },
}

/// The empty space demanded around the regions, in pixels.
#[derive(Clone, Copy, Debug, PartialEq, Eq, Structural)]
pub struct Margins {
    /// Space left of the left region.
    pub left: i64,
    /// Space demanded between adjacent regions.
    pub internal: i64,
    /// Space right of the right region.
    pub right: i64,
}

impl Margins {
    /// Margins are non-negative and fit on an X11 surface.
    pub open spec fn wf(self) -> bool {
        &&& 0 <= self.left <= crate::panel::MAX_DIM
        &&& 0 <= self.internal <= crate::panel::MAX_DIM
        &&& 0 <= self.right <= crate::panel::MAX_DIM
    }
}

/// The numeric layout state: where each region currently ends.
#[derive(Clone, Copy, Debug, PartialEq, Eq)]
pub struct Extents {
    /// Right edge of the last-placed left panel.
    pub left: i64,
    /// The computed start of the center region and its running placement
    /// cursor.
    pub center: (i64, i64),
    /// Left edge of the right region.
    pub right: i64,
}

/// One operation a renderer must perform, in order.
#[derive(Clone, Copy, Debug, PartialEq, Eq, Structural)]
pub enum DrawCmd {
    /// Fill `[start_x, end_x)` across the bar's full height with the
    /// background, using a source composite operator.
    ClearRect {
        /// Left edge of the fill.
        start_x: i64,
        /// Right edge of the fill.
        end_x: i64,
    },
    /// Translate to `x` and invoke the panel's draw callback.
    DrawPanel {
        /// The region holding the panel.
        alignment: Alignment,
        /// The panel's index within its region.
        idx: usize,
        /// The x coordinate the panel was placed at.
        x: i64,
    },
    /// Invoke the panel's show hook, if it has one.
    ShowHook {
        /// The region holding the panel.
        alignment: Alignment,
        /// The panel's index within its region.
        idx: usize,
    },
    /// Invoke the panel's hide hook, if it has one.
    HideHook {
        /// The region holding the panel.
        alignment: Alignment,
        /// The panel's index within its region.
        idx: usize,
    },
    /// Map the bar window.
    MapWindow,
    /// Unmap the bar window.
    UnmapWindow,
}

/// A color with 16-bit channels.
#[derive(Clone, Copy, Debug, PartialEq, Eq, Structural)]
pub struct Rgba {
    /// The red channel.
    pub r: u16,
    /// The green channel.
    pub g: u16,
    /// The blue channel.
    pub b: u16,
    /// The alpha channel.
    pub a: u16,
}

/// Information about the bar, published once after window creation and
/// read-only afterwards, usually for use in building panels.
#[derive(Clone, Copy, Debug, PartialEq, Eq, Structural)]
pub struct BarInfo {
    /// The X resource id of the bar window.
    pub window: u32,
    /// The id of the X visual that the bar uses.
    pub visual: u32,
    /// The width of the bar in pixels.
    pub width: u16,
    /// The height of the bar in pixels.
    pub height: u16,
    /// Whether the bar supports transparency.
    pub transparent: bool,
    /// The background color of the bar.
    pub bg: Rgba,
}

/// The bar itself: three ordered regions of panels and the layout state
/// that places them.
pub struct Bar {
    /// The bar's name, used to derive its message socket path.
    pub name: String,
    /// The width of the bar in pixels.
    pub width: i64,
    /// The height of the bar in pixels.
    pub height: u16,
    /// The empty space demanded around the regions.
    pub margins: Margins,
    /// Where each region currently ends.
    pub extents: Extents,
    /// Whether the scroll button pair is reversed.
    pub reverse_scroll: bool,
    /// The left region's panels, in placement order.
    pub left_panels: Vec<Panel>,
    /// The center region's panels, in placement order.
    pub center_panels: Vec<Panel>,
    /// The right region's panels, in placement order.
    pub right_panels: Vec<Panel>,
    /// Whether the message socket is enabled.
    pub ipc: bool,
    /// Whether the bar window is currently mapped.
    pub mapped: bool,
    /// Which side the center block was nudged toward on the last pass.
    pub center_state: CenterState,
}

/// Bound on every coordinate the layout can produce; region placement
/// stays far inside it, and repeated right-edge shifts are re-anchored by
/// a full repaint before they could reach it.
pub const MAX_COORD: i64 = 0x100_0000_0000;

/// A region holds at most this many panels.
pub const MAX_PANELS: usize = 65535;

/// Every panel of the sequence is well-formed.
pub open spec fn panels_wf(s: Seq<Panel>) -> bool {
    forall|i: int| 0 <= i < s.len() ==> (#[trigger] s[i]).wf()
}

/// The panel at `i` was shown on the previous pass and no longer is: its
/// hide hook is due.
pub open spec fn hide_transition(ps: Seq<Panel>, st: Seq<PanelStatus>, i: int) -> bool {
    ps[i].draw_info is Some && ps[i].last_status && st[i] != PanelStatus::Shown
}

/// The panel at `i` was not shown on the previous pass and now is: its
/// show hook is due.
pub open spec fn show_transition(ps: Seq<Panel>, st: Seq<PanelStatus>, i: int) -> bool {
    ps[i].draw_info is Some && !ps[i].last_status && st[i] == PanelStatus::Shown
}

/// The hide-hook commands for the first `n` panels, in index order.
pub open spec fn hide_cmds(a: Alignment, ps: Seq<Panel>, st: Seq<PanelStatus>, n: int) -> Seq<
    DrawCmd,
>
    decreases n,
{
    if n <= 0 {
        Seq::empty()
    } else {
        hide_cmds(a, ps, st, n - 1) + if hide_transition(ps, st, n - 1) {
            seq![DrawCmd::HideHook { alignment: a, idx: (n - 1) as usize }]
        } else {
            Seq::empty()
        }
    }
}

/// The show-hook commands for the first `n` panels, in index order.
pub open spec fn show_cmds(a: Alignment, ps: Seq<Panel>, st: Seq<PanelStatus>, n: int) -> Seq<
    DrawCmd,
>
    decreases n,
{
    if n <= 0 {
        Seq::empty()
    } else {
        show_cmds(a, ps, st, n - 1) + if show_transition(ps, st, n - 1) {
            seq![DrawCmd::ShowHook { alignment: a, idx: (n - 1) as usize }]
        } else {
            Seq::empty()
        }
    }
}

/// The panels with every latch updated to the given statuses.
pub open spec fn latched_panels(ps: Seq<Panel>, st: Seq<PanelStatus>) -> Seq<Panel> {
    Seq::new(ps.len(), |i: int| Panel { last_status: st[i] == PanelStatus::Shown, ..ps[i] })
}

/// The panels after a placement pass from `base`: latches updated, and
/// every shown panel placed at `base` plus the widths of the shown panels
/// before it.
pub open spec fn placed_panels(ps: Seq<Panel>, st: Seq<PanelStatus>, base: int) -> Seq<Panel> {
    Seq::new(
        ps.len(),
        |i: int|
            Panel {
                last_status: st[i] == PanelStatus::Shown,
                x: if st[i] == PanelStatus::Shown {
                    (base + shown_width_prefix(ps, st, i)) as i64
                } else {
                    ps[i].x
                },
                ..ps[i]
            },
    )
}

/// The panels after a placement pass alone, latches untouched: every
/// shown panel is placed at `base` plus the widths of the shown panels
/// before it.
pub open spec fn positioned_panels(ps: Seq<Panel>, st: Seq<PanelStatus>, base: int) -> Seq<Panel> {
    Seq::new(
        ps.len(),
        |i: int|
            if st[i] == PanelStatus::Shown {
                Panel { x: (base + shown_width_prefix(ps, st, i)) as i64, ..ps[i] }
            } else {
                ps[i]
            },
    )
}

/// The draw commands of a placement pass from `base`, in index order.
pub open spec fn draw_cmds(
    a: Alignment,
    ps: Seq<Panel>,
    st: Seq<PanelStatus>,
    base: int,
    n: int,
) -> Seq<DrawCmd>
    decreases n,
{
    if n <= 0 {
        Seq::empty()
    } else {
        draw_cmds(a, ps, st, base, n - 1) + if st[n - 1] == PanelStatus::Shown {
            seq![
                DrawCmd::DrawPanel {
                    alignment: a,
                    idx: (n - 1) as usize,
                    x: (base + shown_width_prefix(ps, st, n - 1)) as i64,
                },
            ]
        } else {
            Seq::empty()
        }
    }
}

/// The start of the center region and the resulting center state, from
/// the bar width, the margins, the left extent and the two region width
/// sums.
pub open spec fn center_geometry(width: int, m: Margins, lft: int, csum: int, rsum: int) -> (
    int,
    CenterState,
) {
    let r0 = width - rsum - m.internal;
    let mid = width / 2;
    if csum > r0 - lft - 2 * m.internal {
        (lft + m.internal, CenterState::Unknown)
    } else if csum > 2 * (r0 - mid - m.internal) {
        (r0 - csum - m.internal, CenterState::Left)
    } else if csum > 2 * (mid - lft - m.internal) {
        (lft + m.internal, CenterState::Right)
    } else {
        (mid - csum / 2, CenterState::Center)
    }
}

/// The final left edge of the right region: its natural position, or
/// pushed against the center cursor when the natural position would
/// come within the internal margin of it, so that the right region
/// always keeps at least that margin from the cursor.
pub open spec fn right_extent_after(rsum: int, c1: int, width: int, m: Margins) -> int {
    if rsum + m.right > width - c1 - m.internal {
        c1 + m.internal
    } else {
        width - (rsum + m.right)
    }
}

/// The commands of a left-region repaint: clear the old left region, run
/// the due hide then show hooks, then draw each shown panel at its place.
pub open spec fn left_cmds(lp: Seq<Panel>, e_left0: int, m: Margins) -> Seq<DrawCmd> {
    let st = resolve_seq(lp);
    let n = lp.len() as int;
    seq![DrawCmd::ClearRect { start_x: 0, end_x: (e_left0 + m.internal) as i64 }]
        + hide_cmds(Alignment::Left, lp, st, n) + show_cmds(Alignment::Left, lp, st, n)
        + draw_cmds(Alignment::Left, lp, st, m.left as int, n)
}

/// A left-region repaint: relates the region's panels and left extent
/// before and after, and pins the command list.
pub open spec fn left_pass(
    lp0: Seq<Panel>,
    e_left0: int,
    m: Margins,
    lp1: Seq<Panel>,
    left1: int,
    cmds: Seq<DrawCmd>,
) -> bool {
    let st = resolve_seq(lp0);
    &&& lp1 == placed_panels(lp0, st, m.left as int)
    &&& left1 == m.left + shown_width_sum(lp0, st)
    &&& cmds == left_cmds(lp0, e_left0, m)
}

/// The commands of a right-region repaint.
pub open spec fn right_cmds(
    rp: Seq<Panel>,
    c1: int,
    e_right0: int,
    width: int,
    m: Margins,
    standalone: bool,
) -> Seq<DrawCmd> {
    let st = resolve_seq(rp);
    let n = rp.len() as int;
    let rsum = shown_width_sum(rp, st);
    let rfin = right_extent_after(rsum, c1, width, m);
    (if standalone {
        seq![DrawCmd::ClearRect { start_x: (e_right0 - m.internal) as i64, end_x: width as i64 }]
    } else {
        Seq::empty()
    }) + hide_cmds(Alignment::Right, rp, st, n) + show_cmds(Alignment::Right, rp, st, n)
        + draw_cmds(Alignment::Right, rp, st, rfin, n)
}

/// A right-region repaint: relates the region's panels and right extent
/// before and after, and pins the command list.
pub open spec fn right_pass(
    rp0: Seq<Panel>,
    c1: int,
    e_right0: int,
    width: int,
    m: Margins,
    standalone: bool,
    rp1: Seq<Panel>,
    right1: int,
    cmds: Seq<DrawCmd>,
) -> bool {
    let st = resolve_seq(rp0);
    let rsum = shown_width_sum(rp0, st);
    let rfin = right_extent_after(rsum, c1, width, m);
    &&& rp1 == placed_panels(rp0, st, rfin)
    &&& right1 == rfin
    &&& cmds == right_cmds(rp0, c1, e_right0, width, m, standalone)
}

/// The commands of a center-and-right repaint.  The hook passes of the
/// trailing right-region repaint are omitted: the right latches are
/// already up to date when it runs, so they contribute no commands.
pub open spec fn center_right_cmds(
    cp: Seq<Panel>,
    rp: Seq<Panel>,
    lft: int,
    e_c00: int,
    width: int,
    m: Margins,
    standalone: bool,
) -> Seq<DrawCmd> {
    let cst = resolve_seq(cp);
    let rst = resolve_seq(rp);
    let cn = cp.len() as int;
    let rn = rp.len() as int;
    let csum = shown_width_sum(cp, cst);
    let rsum = shown_width_sum(rp, rst);
    let r0 = width - rsum - m.internal;
    let c0 = center_geometry(width, m, lft, csum, rsum).0;
    let c1 = c0 + csum;
    let rfin = right_extent_after(rsum, c1, width, m);
    (if standalone {
        seq![DrawCmd::ClearRect { start_x: (e_c00 - m.internal) as i64, end_x: width as i64 }]
    } else {
        Seq::empty()
    }) + hide_cmds(Alignment::Center, cp, cst, cn) + show_cmds(Alignment::Center, cp, cst, cn)
        + hide_cmds(Alignment::Right, rp, rst, rn) + show_cmds(Alignment::Right, rp, rst, rn)
        + draw_cmds(Alignment::Center, cp, cst, c0, cn) + (if standalone {
        seq![DrawCmd::ClearRect { start_x: (r0 - m.internal) as i64, end_x: width as i64 }]
    } else {
        Seq::empty()
    }) + draw_cmds(Alignment::Right, rp, rst, rfin, rn)
}

/// A center-and-right repaint: relates both regions' panels, the center
/// extents and state and the right extent before and after, and pins the
/// command list.
pub open spec fn center_right_pass(
    cp0: Seq<Panel>,
    rp0: Seq<Panel>,
    lft: int,
    e_c00: int,
    width: int,
    m: Margins,
    standalone: bool,
    cp1: Seq<Panel>,
    rp1: Seq<Panel>,
    c0_out: int,
    c1_out: int,
    state_out: CenterState,
    right_out: int,
    cmds: Seq<DrawCmd>,
) -> bool {
    let cst = resolve_seq(cp0);
    let rst = resolve_seq(rp0);
    let csum = shown_width_sum(cp0, cst);
    let rsum = shown_width_sum(rp0, rst);
    let geom = center_geometry(width, m, lft, csum, rsum);
    let c0 = geom.0;
    let c1 = c0 + csum;
    let rfin = right_extent_after(rsum, c1, width, m);
    &&& cp1 == placed_panels(cp0, cst, c0)
    &&& rp1 == placed_panels(rp0, rst, rfin)
    &&& c0_out == c0
    &&& c1_out == c1
    &&& state_out == geom.1
    &&& right_out == rfin
    &&& cmds == center_right_cmds(cp0, rp0, lft, e_c00, width, m, standalone)
}

/// The commands of a full repaint: clear the whole bar, then the left
/// pass and the center-and-right pass, with no further clears.
pub open spec fn bar_cmds(
    lp: Seq<Panel>,
    cp: Seq<Panel>,
    rp: Seq<Panel>,
    e0: Extents,
    width: int,
    m: Margins,
) -> Seq<DrawCmd> {
    let lft = m.left + shown_width_sum(lp, resolve_seq(lp));
    seq![DrawCmd::ClearRect { start_x: 0, end_x: width as i64 }] + left_cmds(lp, e0.left as int, m)
        + center_right_cmds(cp, rp, lft, e0.center.0 as int, width, m, false)
}

/// A full repaint: a left pass from the margins, then a center-and-right
/// pass using the fresh left extent.
pub open spec fn bar_pass(
    lp0: Seq<Panel>,
    cp0: Seq<Panel>,
    rp0: Seq<Panel>,
    e0: Extents,
    width: int,
    m: Margins,
    lp1: Seq<Panel>,
    cp1: Seq<Panel>,
    rp1: Seq<Panel>,
    e1: Extents,
    state1: CenterState,
    cmds: Seq<DrawCmd>,
) -> bool {
    let lst = resolve_seq(lp0);
    let lft = m.left + shown_width_sum(lp0, lst);
    let cst = resolve_seq(cp0);
    let rst = resolve_seq(rp0);
    let csum = shown_width_sum(cp0, cst);
    let rsum = shown_width_sum(rp0, rst);
    let geom = center_geometry(width, m, lft, csum, rsum);
    let c0 = geom.0;
    let c1 = c0 + csum;
    let rfin = right_extent_after(rsum, c1, width, m);
    &&& lp1 == placed_panels(lp0, lst, m.left as int)
    &&& cp1 == placed_panels(cp0, cst, c0)
    &&& rp1 == placed_panels(rp0, rst, rfin)
    &&& e1.left as int == lft
    &&& e1.center.0 as int == c0
    &&& e1.center.1 as int == c1
    &&& e1.right as int == rfin
    &&& state1 == geom.1
    &&& cmds == bar_cmds(lp0, cp0, rp0, e0, width, m)
}

/// The repaint dispatched for one panel update: the new draw information
/// is installed, and then the smallest region whose growth cannot disturb
/// its neighbors is repainted — the panel alone when its width is
/// unchanged, one region where the neighboring extents absorb the change,
/// and the whole bar otherwise.
pub open spec fn update_panel_pass(
    pre: Bar,
    a: Alignment,
    idx: int,
    di: PanelDrawInfo,
    post: Bar,
    cmds: Seq<DrawCmd>,
) -> bool {
    let e = pre.extents;
    let m = pre.margins;
    let w = pre.width as int;
    match a {
        Alignment::Left => {
            let ps0 = pre.left_panels@;
            let upd = ps0.update(idx, Panel { draw_info: Some(di), ..ps0[idx] });
            let neww = di.width as int;
            let curw = panel_width(ps0[idx]);
            if neww == curw {
                &&& post == (Bar { left_panels: post.left_panels, ..pre })
                &&& post.left_panels@ == upd
                &&& cmds == one_cmds(a, upd, idx)
            } else if neww - curw + e.left + m.internal < e.center.0 && (pre.center_state
                == CenterState::Center || pre.center_state == CenterState::Left) {
                &&& post == (Bar {
                    extents: post.extents,
                    left_panels: post.left_panels,
                    ..pre
                })
                &&& post.extents == (Extents { left: post.extents.left, ..e })
                &&& left_pass(
                    upd,
                    e.left as int,
                    m,
                    post.left_panels@,
                    post.extents.left as int,
                    cmds,
                )
            } else {
                &&& post == (Bar {
                    extents: post.extents,
                    center_state: post.center_state,
                    left_panels: post.left_panels,
                    center_panels: post.center_panels,
                    right_panels: post.right_panels,
                    ..pre
                })
                &&& bar_pass(
                    upd,
                    pre.center_panels@,
                    pre.right_panels@,
                    e,
                    w,
                    m,
                    post.left_panels@,
                    post.center_panels@,
                    post.right_panels@,
                    post.extents,
                    post.center_state,
                    cmds,
                )
            }
        },
        Alignment::Center => {
            let ps0 = pre.center_panels@;
            let upd = ps0.update(idx, Panel { draw_info: Some(di), ..ps0[idx] });
            let neww = di.width as int;
            let curw = panel_width(ps0[idx]);
            if neww == curw {
                &&& post == (Bar { center_panels: post.center_panels, ..pre })
                &&& post.center_panels@ == upd
                &&& cmds == one_cmds(a, upd, idx)
            } else {
                &&& post == (Bar {
                    extents: post.extents,
                    center_state: post.center_state,
                    left_panels: post.left_panels,
                    center_panels: post.center_panels,
                    right_panels: post.right_panels,
                    ..pre
                })
                &&& bar_pass(
                    pre.left_panels@,
                    upd,
                    pre.right_panels@,
                    e,
                    w,
                    m,
                    post.left_panels@,
                    post.center_panels@,
                    post.right_panels@,
                    post.extents,
                    post.center_state,
                    cmds,
                )
            }
        },
        Alignment::Right => {
            let ps0 = pre.right_panels@;
            let upd = ps0.update(idx, Panel { draw_info: Some(di), ..ps0[idx] });
            let neww = di.width as int;
            let curw = panel_width(ps0[idx]);
            if neww == curw {
                &&& post == (Bar { right_panels: post.right_panels, ..pre })
                &&& post.right_panels@ == upd
                &&& cmds == one_cmds(a, upd, idx)
            } else if e.right - (neww - curw) - m.internal > e.center.1 {
                &&& post == (Bar {
                    extents: post.extents,
                    right_panels: post.right_panels,
                    ..pre
                })
                &&& post.extents == (Extents { right: post.extents.right, ..e })
                &&& right_pass(
                    upd,
                    e.center.1 as int,
                    e.right as int,
                    w,
                    m,
                    true,
                    post.right_panels@,
                    post.extents.right as int,
                    cmds,
                )
            } else if (e.right - e.center.1 - m.internal) + (e.center.0 - e.left - m.internal)
                > neww - curw {
                &&& post == (Bar {
                    extents: post.extents,
                    center_state: post.center_state,
                    center_panels: post.center_panels,
                    right_panels: post.right_panels,
                    ..pre
                })
                &&& post.extents.left == e.left
                &&& center_right_pass(
                    pre.center_panels@,
                    upd,
                    e.left as int,
                    e.center.0 as int,
                    w,
                    m,
                    true,
                    post.center_panels@,
                    post.right_panels@,
                    post.extents.center.0 as int,
                    post.extents.center.1 as int,
                    post.center_state,
                    post.extents.right as int,
                    cmds,
                )
            } else {
                &&& post == (Bar {
                    extents: post.extents,
                    center_state: post.center_state,
                    left_panels: post.left_panels,
                    center_panels: post.center_panels,
                    right_panels: post.right_panels,
                    ..pre
                })
                &&& bar_pass(
                    pre.left_panels@,
                    pre.center_panels@,
                    upd,
                    e,
                    w,
                    m,
                    post.left_panels@,
                    post.center_panels@,
                    post.right_panels@,
                    post.extents,
                    post.center_state,
                    cmds,
                )
            }
        },
    }
}

/// What the bar decided to do with one windowing-system event.
pub enum EventAction {
    /// Repaint: the renderer must perform these commands.
    Repaint(Vec<DrawCmd>),
    /// Deliver the event on the addressed panel's endpoint.
    Forward {
        /// The region holding the panel.
        alignment: Alignment,
        /// The panel's index within its region.
        idx: usize,
        /// The translated event to deliver.
        event: crate::events::Event,
    },
    /// Nothing to do.
    Ignored,
}

/// What the bar decided to do with one message line.
pub enum MessageOutcome {
    /// Shut the bar down.
    Terminate,
    /// Repaint: the renderer must perform these commands.
    Repaint(Vec<DrawCmd>),
    /// Deliver the action on the addressed panel's endpoint and forward
    /// the panel's response to the caller.
    Forward {
        /// The region holding the panel.
        alignment: Alignment,
        /// The panel's index within its region.
        idx: usize,
        /// The action text to deliver.
        action: String,
    },
    /// Answer the caller at once with this response.
    Reply(crate::events::EventResponse),
    /// The message was ill-formed; no reply is owed.
    Rejected(crate::events::IpcError),
}

/// Whether the panel carries the named lifecycle hook.
pub open spec fn has_hook(p: Panel, show: bool) -> bool {
    match p.draw_info {
        Some(d) => if show {
            d.show_fn is Some
        } else {
            d.hide_fn is Some
        },
        None => false,
    }
}

/// The hook commands for every panel of the region that carries the
/// hook, in index order.
pub open spec fn lifecycle_cmds(a: Alignment, ps: Seq<Panel>, n: int, show: bool) -> Seq<DrawCmd>
    decreases n,
{
    if n <= 0 {
        Seq::empty()
    } else {
        lifecycle_cmds(a, ps, n - 1, show) + if has_hook(ps[n - 1], show) {
            seq![
                if show {
                    DrawCmd::ShowHook { alignment: a, idx: (n - 1) as usize }
                } else {
                    DrawCmd::HideHook { alignment: a, idx: (n - 1) as usize }
                },
            ]
        } else {
            Seq::empty()
        }
    }
}

/// The shutdown-hook handles of a region's panels, in index order.
pub open spec fn shutdown_handles(ps: Seq<Panel>, n: int) -> Seq<usize>
    decreases n,
{
    if n <= 0 {
        Seq::empty()
    } else {
        shutdown_handles(ps, n - 1) + (match ps[n - 1].draw_info {
            Some(d) => match d.shutdown {
                Some(h) => seq![h],
                None => Seq::empty(),
            },
            None => Seq::empty(),
        })
    }
}

/// The commands of a bar-level show: map the window, then every show
/// hook.
pub open spec fn bar_show_cmds(pre: Bar) -> Seq<DrawCmd> {
    seq![DrawCmd::MapWindow] + lifecycle_cmds(
        Alignment::Left,
        pre.left_panels@,
        pre.left_panels@.len() as int,
        true,
    ) + lifecycle_cmds(Alignment::Center, pre.center_panels@, pre.center_panels@.len() as int, true)
        + lifecycle_cmds(Alignment::Right, pre.right_panels@, pre.right_panels@.len() as int, true)
}

/// The commands of a bar-level hide: unmap the window, then every hide
/// hook.
pub open spec fn bar_hide_cmds(pre: Bar) -> Seq<DrawCmd> {
    seq![DrawCmd::UnmapWindow] + lifecycle_cmds(
        Alignment::Left,
        pre.left_panels@,
        pre.left_panels@.len() as int,
        false,
    ) + lifecycle_cmds(Alignment::Center, pre.center_panels@, pre.center_panels@.len() as int, false)
        + lifecycle_cmds(Alignment::Right, pre.right_panels@, pre.right_panels@.len() as int, false)
}

/// A bar-level message: `quit` asks for termination, `show` maps the
/// window and runs the show hooks, `hide` unmaps it and runs the hide
/// hooks, `toggle` branches on the current mapped state, and anything
/// else is silently ignored.
pub open spec fn ipc_event_pass(
    pre: Bar,
    msg: Seq<char>,
    post: Bar,
    quit: bool,
    cmds: Seq<DrawCmd>,
) -> bool {
    if msg == "quit"@ {
        &&& post == pre
        &&& quit
        &&& cmds == Seq::<DrawCmd>::empty()
    } else if msg == "show"@ {
        &&& post == (Bar { mapped: true, ..pre })
        &&& !quit
        &&& cmds == bar_show_cmds(pre)
    } else if msg == "hide"@ {
        &&& post == (Bar { mapped: false, ..pre })
        &&& !quit
        &&& cmds == bar_hide_cmds(pre)
    } else if msg == "toggle"@ {
        if pre.mapped {
            &&& post == (Bar { mapped: false, ..pre })
            &&& !quit
            &&& cmds == bar_hide_cmds(pre)
        } else {
            &&& post == (Bar { mapped: true, ..pre })
            &&& !quit
            &&& cmds == bar_show_cmds(pre)
        }
    } else {
        &&& post == pre
        &&& !quit
        &&& cmds == Seq::<DrawCmd>::empty()
    }
}

/// The parse of a panel visibility command `<region><index>.<verb>`:
/// the region letter, the index value, and the verb, or nothing when the
/// text is not of that shape.
pub open spec fn parse_panel_cmd(msg: Seq<char>) -> Option<(char, int, Seq<char>)> {
    if msg.len() < 1 {
        None
    } else if msg[0] != 'l' && msg[0] != 'c' && msg[0] != 'r' {
        None
    } else {
        let k = crate::text::digit_run_end(msg, 1);
        if k == 1 {
            None
        } else if k >= msg.len() {
            None
        } else if msg[k] != '.' {
            None
        } else if k + 1 >= msg.len() {
            None
        } else {
            Some(
                (
                    msg[0],
                    crate::text::digits_val(msg.subrange(1, k)),
                    msg.subrange(k + 1, msg.len() as int),
                ),
            )
        }
    }
}

/// A panel visibility command: on a well-formed command whose index
/// addresses a panel, the panel's visibility is set by the verb and the
/// panel's region is repainted; an index beyond the region is a silent
/// no-op; an unknown verb or an unrepresentable index is an error; text
/// not of the command shape is a silent no-op.
pub open spec fn panel_event_pass(
    pre: Bar,
    msg: Seq<char>,
    post: Bar,
    r: Result<(bool, Vec<DrawCmd>), crate::events::IpcError>,
) -> bool {
    match parse_panel_cmd(msg) {
        None => post == pre && (match r {
            Ok(ok) => !ok.0 && ok.1@ == Seq::<DrawCmd>::empty(),
            Err(_) => false,
        }),
        Some(pc) => {
            let region = pc.0;
            let idxv = pc.1;
            let verb = pc.2;
            if idxv > usize::MAX as int {
                post == pre && r == Result::<(bool, Vec<DrawCmd>), crate::events::IpcError>::Err(
                    crate::events::IpcError::BadIndex,
                )
            } else {
                let ps0 = if region == 'l' {
                    pre.left_panels@
                } else if region == 'c' {
                    pre.center_panels@
                } else {
                    pre.right_panels@
                };
                if idxv < ps0.len() {
                    if verb == "show"@ || verb == "hide"@ || verb == "toggle"@ {
                        let vis = if verb == "show"@ {
                            true
                        } else if verb == "hide"@ {
                            false
                        } else {
                            !ps0[idxv].visible
                        };
                        let upd = ps0.update(idxv, Panel { visible: vis, ..ps0[idxv] });
                        match r {
                            Ok(ok) => !ok.0 && (if region == 'l' {
                                &&& post == (Bar {
                                    extents: post.extents,
                                    left_panels: post.left_panels,
                                    ..pre
                                })
                                &&& post.extents == (Extents {
                                    left: post.extents.left,
                                    ..pre.extents
                                })
                                &&& left_pass(
                                    upd,
                                    pre.extents.left as int,
                                    pre.margins,
                                    post.left_panels@,
                                    post.extents.left as int,
                                    ok.1@,
                                )
                            } else if region == 'c' {
                                &&& post == (Bar {
                                    extents: post.extents,
                                    center_state: post.center_state,
                                    center_panels: post.center_panels,
                                    right_panels: post.right_panels,
                                    ..pre
                                })
                                &&& post.extents.left == pre.extents.left
                                &&& center_right_pass(
                                    upd,
                                    pre.right_panels@,
                                    pre.extents.left as int,
                                    pre.extents.center.0 as int,
                                    pre.width as int,
                                    pre.margins,
                                    true,
                                    post.center_panels@,
                                    post.right_panels@,
                                    post.extents.center.0 as int,
                                    post.extents.center.1 as int,
                                    post.center_state,
                                    post.extents.right as int,
                                    ok.1@,
                                )
                            } else {
                                &&& post == (Bar {
                                    extents: post.extents,
                                    right_panels: post.right_panels,
                                    ..pre
                                })
                                &&& post.extents == (Extents {
                                    right: post.extents.right,
                                    ..pre.extents
                                })
                                &&& right_pass(
                                    upd,
                                    pre.extents.center.1 as int,
                                    pre.extents.right as int,
                                    pre.width as int,
                                    pre.margins,
                                    true,
                                    post.right_panels@,
                                    post.extents.right as int,
                                    ok.1@,
                                )
                            }),
                            Err(_) => false,
                        }
                    } else {
                        post == pre && (match r {
                            Err(crate::events::IpcError::UnknownMessage(m)) => m@ == verb,
                            _ => false,
                        })
                    }
                } else {
                    post == pre && (match r {
                        Ok(ok) => !ok.0 && ok.1@ == Seq::<DrawCmd>::empty(),
                        Err(_) => false,
                    })
                }
            }
        },
    }
}

/// The number of panels named `name` among the first `n`.
pub open spec fn count_named(ps: Seq<Panel>, name: Seq<char>, n: int) -> int
    decreases n,
{
    if n <= 0 {
        0
    } else {
        count_named(ps, name, n - 1) + if ps[n - 1].name@ == name {
            1int
        } else {
            0int
        }
    }
}

/// The first index at or after `i` of a panel named `name`, or the
/// region's length.
pub open spec fn first_named(ps: Seq<Panel>, name: Seq<char>, i: int) -> int
    decreases ps.len() - i,
{
    if i < 0 || i >= ps.len() {
        ps.len() as int
    } else if ps[i].name@ == name {
        i
    } else {
        first_named(ps, name, i + 1)
    }
}

/// The region and index of the unique panel named `name`, assuming one
/// region holds a match.
pub open spec fn named_location(pre: Bar, name: Seq<char>) -> (Alignment, int) {
    if count_named(pre.left_panels@, name, pre.left_panels@.len() as int) >= 1 {
        (Alignment::Left, first_named(pre.left_panels@, name, 0))
    } else if count_named(pre.center_panels@, name, pre.center_panels@.len() as int) >= 1 {
        (Alignment::Center, first_named(pre.center_panels@, name, 0))
    } else {
        (Alignment::Right, first_named(pre.right_panels@, name, 0))
    }
}

/// A message line: `#` introduces a panel visibility command; otherwise
/// the part before the first `.` addresses a panel by name and the rest
/// is its action, and a line without `.` is a bar-level message.  A
/// panel address resolves to its unique named panel's endpoint; a
/// missing, ambiguous or endpoint-less panel earns the caller an
/// immediate failure reply.
pub open spec fn send_message_pass(
    pre: Bar,
    msg: Seq<char>,
    post: Bar,
    r: MessageOutcome,
) -> bool {
    if msg.len() >= 1 && msg[0] == '#' {
        let rest = msg.subrange(1, msg.len() as int);
        match r {
            MessageOutcome::Repaint(cmds) => panel_event_pass(
                pre,
                rest,
                post,
                Ok((false, cmds)),
            ),
            MessageOutcome::Rejected(e) => panel_event_pass(pre, rest, post, Err(e)),
            _ => false,
        }
    } else {
        let k = crate::text::char_pos(msg, '.', 0);
        if k == msg.len() {
            match r {
                MessageOutcome::Terminate => ipc_event_pass(
                    pre,
                    msg,
                    post,
                    true,
                    Seq::<DrawCmd>::empty(),
                ),
                MessageOutcome::Repaint(cmds) => ipc_event_pass(pre, msg, post, false, cmds@),
                _ => false,
            }
        } else {
            let dest = msg.subrange(0, k);
            let action = msg.subrange(k + 1, msg.len() as int);
            let total = count_named(pre.left_panels@, dest, pre.left_panels@.len() as int)
                + count_named(pre.center_panels@, dest, pre.center_panels@.len() as int)
                + count_named(pre.right_panels@, dest, pre.right_panels@.len() as int);
            &&& post == pre
            &&& if total == 0 {
                match r {
                    MessageOutcome::Reply(crate::events::EventResponse::Failure(e)) => e@
                        == "No panel with name "@ + dest + " was found"@,
                    _ => false,
                }
            } else if total >= 2 {
                match r {
                    MessageOutcome::Reply(crate::events::EventResponse::Failure(e)) => e@
                        == "This panel has multiple instances and cannot be messaged"@,
                    _ => false,
                }
            } else {
                let loc = named_location(pre, dest);
                let ps = match loc.0 {
                    Alignment::Left => pre.left_panels@,
                    Alignment::Center => pre.center_panels@,
                    Alignment::Right => pre.right_panels@,
                };
                if ps[loc.1].endpoint is Some {
                    match r {
                        MessageOutcome::Forward { alignment, idx, action: a } => alignment == loc.0
                            && idx as int == loc.1 && a@ == action,
                        _ => false,
                    }
                } else {
                    match r {
                        MessageOutcome::Reply(crate::events::EventResponse::Failure(e)) => e@
                            == "The target panel has no associated sender and cannot be messaged"@,
                        _ => false,
                    }
                }
            }
        }
    }
}

/// Whether a click at `x` lands on the panel: the panel has draw
/// information and `x` lies in its closed x-range.
pub open spec fn hit(p: Panel, x: int) -> bool {
    p.draw_info is Some && p.x <= x <= p.x + panel_width(p)
}

/// The first index at or after `i` of a panel containing `x`, or the
/// region's length.
pub open spec fn first_hit(ps: Seq<Panel>, x: int, i: int) -> int
    decreases ps.len() - i,
{
    if i < 0 || i >= ps.len() {
        ps.len() as int
    } else if hit(ps[i], x) {
        i
    } else {
        first_hit(ps, x, i + 1)
    }
}

/// The delivery decided for a click landing on the panel at `j`: the
/// translated event on its endpoint, or nothing when the panel has no
/// endpoint or the translated offset cannot be represented.
pub open spec fn forward_for(
    pre: Bar,
    a: Alignment,
    ps: Seq<Panel>,
    j: int,
    detail: u8,
    x: int,
    y: i16,
    r: EventAction,
) -> bool {
    let p = ps[j];
    if p.endpoint is Some && x - p.x <= i16::MAX {
        r == (EventAction::Forward {
            alignment: a,
            idx: j as usize,
            event: crate::events::Event::Mouse(
                crate::events::MouseEvent {
                    button: crate::events::MouseButton::spec_parse(
                        detail,
                        pre.reverse_scroll,
                    )->Some_0,
                    x: (x - p.x) as i16,
                    y,
                },
            ),
        })
    } else {
        r == EventAction::Ignored
    }
}

/// An event from the windowing system: an expose repaints the whole bar;
/// a button press in `1..=5` is delivered, translated, to the first
/// panel in left-center-right order whose x-range contains it; all other
/// events are ignored.
pub open spec fn process_event_pass(pre: Bar, ev: crate::events::XEvent, post: Bar, r: EventAction) -> bool {
    match ev {
        crate::events::XEvent::Expose => match r {
            EventAction::Repaint(cmds) => {
                &&& post == (Bar {
                    extents: post.extents,
                    center_state: post.center_state,
                    left_panels: post.left_panels,
                    center_panels: post.center_panels,
                    right_panels: post.right_panels,
                    ..pre
                })
                &&& bar_pass(
                    pre.left_panels@,
                    pre.center_panels@,
                    pre.right_panels@,
                    pre.extents,
                    pre.width as int,
                    pre.margins,
                    post.left_panels@,
                    post.center_panels@,
                    post.right_panels@,
                    post.extents,
                    post.center_state,
                    cmds@,
                )
            },
            _ => false,
        },
        crate::events::XEvent::ButtonPress { detail, same_screen, event_x, event_y, root_x, root_y } => {
            &&& post == pre
            &&& if 1 <= detail <= 5 {
                let x = (if same_screen {
                    event_x
                } else {
                    root_x
                }) as int;
                let y = if same_screen {
                    event_y
                } else {
                    root_y
                };
                let lj = first_hit(pre.left_panels@, x, 0);
                let cj = first_hit(pre.center_panels@, x, 0);
                let rj = first_hit(pre.right_panels@, x, 0);
                if lj < pre.left_panels@.len() {
                    forward_for(pre, Alignment::Left, pre.left_panels@, lj, detail, x, y, r)
                } else if cj < pre.center_panels@.len() {
                    forward_for(pre, Alignment::Center, pre.center_panels@, cj, detail, x, y, r)
                } else if rj < pre.right_panels@.len() {
                    forward_for(pre, Alignment::Right, pre.right_panels@, rj, detail, x, y, r)
                } else {
                    r == EventAction::Ignored
                }
            } else {
                r == EventAction::Ignored
            }
        },
        crate::events::XEvent::Other => post == pre && r == EventAction::Ignored,
    }
}

/// Updating latches changes no panel's resolved status.
pub proof fn lemma_latched_resolve(ps: Seq<Panel>, st: Seq<PanelStatus>)
    ensures
        resolve_seq(latched_panels(ps, st)) == resolve_seq(ps),
{
    let lp = latched_panels(ps, st);
    assert forall|i: int| 0 <= i < ps.len() implies resolved_status(lp, i) == resolved_status(
        ps,
        i,
    ) by {
        assert(crate::panel::primary_status(lp[i]) == crate::panel::primary_status(ps[i]));
        assert(crate::panel::neighbor_status(lp, i - 1) == crate::panel::neighbor_status(
            ps,
            i - 1,
        ));
        assert(crate::panel::neighbor_status(lp, i + 1) == crate::panel::neighbor_status(
            ps,
            i + 1,
        ));
    }
    assert(resolve_seq(lp) =~= resolve_seq(ps));
}

/// Updating latches changes no shown-width sum.
pub proof fn lemma_latched_widths(
    ps: Seq<Panel>,
    st: Seq<PanelStatus>,
    st2: Seq<PanelStatus>,
    n: int,
)
    requires
        n <= ps.len(),
    ensures
        shown_width_prefix(latched_panels(ps, st), st2, n) == shown_width_prefix(ps, st2, n),
    decreases n,
{
    if n > 0 {
        lemma_latched_widths(ps, st, st2, n - 1);
    }
}

/// Updating latches changes no draw command.
pub proof fn lemma_latched_draw_cmds(
    a: Alignment,
    ps: Seq<Panel>,
    st: Seq<PanelStatus>,
    st2: Seq<PanelStatus>,
    base: int,
    n: int,
)
    requires
        n <= ps.len(),
    ensures
        draw_cmds(a, latched_panels(ps, st), st2, base, n) == draw_cmds(a, ps, st2, base, n),
    decreases n,
{
    if n > 0 {
        lemma_latched_draw_cmds(a, ps, st, st2, base, n - 1);
        lemma_latched_widths(ps, st, st2, n - 1);
    }
}

/// Once the latches agree with the statuses, no hook is due.
pub proof fn lemma_latched_no_hooks(a: Alignment, ps: Seq<Panel>, st: Seq<PanelStatus>, n: int)
    requires
        n <= ps.len(),
    ensures
        hide_cmds(a, latched_panels(ps, st), st, n) == Seq::<DrawCmd>::empty(),
        show_cmds(a, latched_panels(ps, st), st, n) == Seq::<DrawCmd>::empty(),
    decreases n,
{
    if n > 0 {
        lemma_latched_no_hooks(a, ps, st, n - 1);
    }
}

/// Placing after latching is the same as placing directly.
pub proof fn lemma_latched_placed(ps: Seq<Panel>, st: Seq<PanelStatus>, base: int)
    ensures
        placed_panels(latched_panels(ps, st), st, base) == placed_panels(ps, st, base),
{
    let lp = latched_panels(ps, st);
    assert forall|i: int| 0 <= i < ps.len() implies placed_panels(lp, st, base)[i] == placed_panels(
        ps,
        st,
        base,
    )[i] by {
        lemma_latched_widths(ps, st, st, i);
    }
    assert(placed_panels(lp, st, base) =~= placed_panels(ps, st, base));
}

/// A latch pass followed by a placement pass is one placed pass.
pub proof fn lemma_position_after_latch(ps: Seq<Panel>, st: Seq<PanelStatus>, base: int)
    ensures
        positioned_panels(latched_panels(ps, st), st, base) == placed_panels(ps, st, base),
{
    let lp = latched_panels(ps, st);
    assert forall|i: int| 0 <= i < ps.len() implies positioned_panels(lp, st, base)[i]
        == placed_panels(ps, st, base)[i] by {
        lemma_latched_widths(ps, st, st, i);
    }
    assert(positioned_panels(lp, st, base) =~= placed_panels(ps, st, base));
}

impl Bar {
    /// Well-formedness: dimensions and margins fit on an X11 surface,
    /// regions are bounded, and every coordinate is bounded.
    pub open spec fn wf(self) -> bool {
        &&& 0 <= self.width <= crate::panel::MAX_DIM
        &&& self.margins.wf()
        &&& self.left_panels@.len() <= MAX_PANELS
        &&& self.center_panels@.len() <= MAX_PANELS
        &&& self.right_panels@.len() <= MAX_PANELS
        &&& panels_wf(self.left_panels@)
        &&& panels_wf(self.center_panels@)
        &&& panels_wf(self.right_panels@)
        &&& 0 <= self.extents.left <= 0x1_0001_0000
        &&& -0x4_0000_0000 <= self.extents.center.0 <= 0x4_0000_0000
        &&& -0x4_0000_0000 <= self.extents.center.1 <= 0x4_0000_0000
        &&& -MAX_COORD <= self.extents.right <= MAX_COORD
    }

    /// Creates a new bar with empty regions, typically from parsed
    /// configuration, for a window of `width` by `height` pixels.
    pub fn new(
        name: String,
        width: u16,
        height: u16,
        margins: Margins,
        reverse_scroll: bool,
        ipc: bool,
    ) -> (r: Self)
        requires
            margins.wf(),
        ensures
            r.wf(),
            r.name == name,
            r.width == width as int,
            r.height == height,
            r.margins == margins,
            r.extents == (Extents {
                left: 0i64,
                center: ((width / 2) as i64, (width / 2) as i64),
                right: width as i64,
            }),
            r.reverse_scroll == reverse_scroll,
            r.left_panels@.len() == 0,
            r.center_panels@.len() == 0,
            r.right_panels@.len() == 0,
            r.ipc == ipc,
            r.mapped,
            r.center_state == CenterState::Center,
    {
        let half = (width / 2) as i64;
        Bar {
            name,
            width: width as i64,
            height,
            margins,
            extents: Extents { left: 0, center: (half, half), right: width as i64 },
            reverse_scroll,
            left_panels: Vec::new(),
            center_panels: Vec::new(),
            right_panels: Vec::new(),
            ipc,
            mapped: true,
            center_state: CenterState::Center,
        }
    }

    /// Appends a panel to a region.
    pub fn add_panel(&mut self, alignment: Alignment, panel: Panel)
        requires
            old(self).wf(),
            panel.wf(),
            (match alignment {
                Alignment::Left => old(self).left_panels@.len(),
                Alignment::Center => old(self).center_panels@.len(),
                Alignment::Right => old(self).right_panels@.len(),
            }) < MAX_PANELS,
        ensures
            final(self).wf(),
            match alignment {
                Alignment::Left => *final(self) == (Bar {
                    left_panels: final(self).left_panels,
                    ..*old(self)
                }) && final(self).left_panels@ == old(self).left_panels@.push(panel),
                Alignment::Center => *final(self) == (Bar {
                    center_panels: final(self).center_panels,
                    ..*old(self)
                }) && final(self).center_panels@ == old(self).center_panels@.push(panel),
                Alignment::Right => *final(self) == (Bar {
                    right_panels: final(self).right_panels,
                    ..*old(self)
                }) && final(self).right_panels@ == old(self).right_panels@.push(panel),
            },
    {
        match alignment {
            Alignment::Left => self.left_panels.push(panel),
            Alignment::Center => self.center_panels.push(panel),
            Alignment::Right => self.right_panels.push(panel),
        }
    }

    /// Resolves the dependence rule over one region: a same-length status
    /// sequence, each panel's primary status settled by its neighbors'
    /// primary statuses.  A pure function of the panel sequence.
    pub fn apply_dependence(panels: &Vec<Panel>) -> (r: Vec<PanelStatus>)
        ensures
            r@ == resolve_seq(panels@),
    {
        let n = panels.len();
        let mut r: Vec<PanelStatus> = Vec::new();
        let mut i: usize = 0;
        while i < n
            invariant
                0 <= i <= n,
                n == panels@.len(),
                r@.len() == i,
                forall|j: int| 0 <= j < i ==> r@[j] == resolved_status(panels@, j),
            decreases n - i,
        {
            let status = match PanelStatus::from_panel(&panels[i]) {
                PanelStatus::Shown => PanelStatus::Shown,
                PanelStatus::ZeroWidth => PanelStatus::ZeroWidth,
                PanelStatus::Dependent(Dependence::Left) => Self::neighbor(
                    panels,
                    i,
                    true,
                ),
                PanelStatus::Dependent(Dependence::Right) => Self::neighbor(
                    panels,
                    i,
                    false,
                ),
                PanelStatus::Dependent(Dependence::Both) => Self::neighbor(
                    panels,
                    i,
                    true,
                ).and(Self::neighbor(panels, i, false)),
                PanelStatus::Dependent(Dependence::Independent) => {
                    // primary_status never yields this variant
                    PanelStatus::ZeroWidth
                },
            };
            r.push(status);
            i += 1;
        }
        proof {
            assert(r@ =~= resolve_seq(panels@));
        }
        r
    }

    /// The primary status of the left or right neighbor of `i`, with a
    /// missing neighbor counting as `ZeroWidth`.
    fn neighbor(panels: &Vec<Panel>, i: usize, to_left: bool) -> (s: PanelStatus)
        requires
            i < panels@.len(),
        ensures
            s == crate::panel::neighbor_status(
                panels@,
                if to_left {
                    i - 1
                } else {
                    i + 1
                },
            ),
    {
        if to_left {
            if i == 0 {
                PanelStatus::ZeroWidth
            } else {
                PanelStatus::from_panel(&panels[i - 1])
            }
        } else {
            if i >= panels.len() - 1 {
                PanelStatus::ZeroWidth
            } else {
                PanelStatus::from_panel(&panels[i + 1])
            }
        }
    }

    /// Compares each panel's latch with its fresh status, collects the due
    /// hide and show hook commands (hide first), and updates every latch.
    /// Hooks fire exactly on shown/hidden transitions.
    pub fn process_show_hide_events(
        panels: &mut Vec<Panel>,
        statuses: &Vec<PanelStatus>,
        alignment: Alignment,
    ) -> (r: (Vec<DrawCmd>, Vec<DrawCmd>))
        requires
            old(panels)@.len() == statuses@.len(),
        ensures
            final(panels)@ == latched_panels(old(panels)@, statuses@),
            r.0@ == hide_cmds(alignment, old(panels)@, statuses@, old(panels)@.len() as int),
            r.1@ == show_cmds(alignment, old(panels)@, statuses@, old(panels)@.len() as int),
    {
        let ghost ps0 = panels@;
        let n = panels.len();
        let mut hidden: Vec<DrawCmd> = Vec::new();
        let mut shown: Vec<DrawCmd> = Vec::new();
        let mut i: usize = 0;
        while i < n
            invariant
                0 <= i <= n,
                n == ps0.len(),
                panels@.len() == n,
                statuses@.len() == n,
                forall|j: int| 0 <= j < i ==> panels@[j] == latched_panels(ps0, statuses@)[j],
                forall|j: int| i <= j < n ==> panels@[j] == ps0[j],
                hidden@ == hide_cmds(alignment, ps0, statuses@, i as int),
                shown@ == show_cmds(alignment, ps0, statuses@, i as int),
            decreases n - i,
        {
            let now_shown = statuses[i] == PanelStatus::Shown;
            if panels[i].draw_info.is_some() && panels[i].last_status && !now_shown {
                hidden.push(DrawCmd::HideHook { alignment, idx: i });
            }
            if panels[i].draw_info.is_some() && !panels[i].last_status && now_shown {
                shown.push(DrawCmd::ShowHook { alignment, idx: i });
            }
            panels[i].last_status = now_shown;
            i += 1;
        }
        proof {
            assert(panels@ =~= latched_panels(ps0, statuses@));
        }
        (hidden, shown)
    }

    /// Sums the widths of the panels marked `Shown`.
    fn shown_width(panels: &Vec<Panel>, statuses: &Vec<PanelStatus>) -> (w: i64)
        requires
            panels@.len() == statuses@.len(),
            panels@.len() <= MAX_PANELS,
            panels_wf(panels@),
        ensures
            w as int == shown_width_sum(panels@, statuses@),
            0 <= w <= 0x1_0000_0000,
    {
        let n = panels.len();
        let mut w: i64 = 0;
        let mut i: usize = 0;
        while i < n
            invariant
                0 <= i <= n,
                n == panels@.len(),
                statuses@.len() == n,
                n <= MAX_PANELS,
                panels_wf(panels@),
                w as int == shown_width_prefix(panels@, statuses@, i as int),
                0 <= w <= (i as int) * (crate::panel::MAX_DIM as int),
            decreases n - i,
        {
            proof {
                crate::panel::lemma_shown_width_prefix_bounds(panels@, statuses@, i as int);
                assert((i as int) * (crate::panel::MAX_DIM as int) + crate::panel::MAX_DIM as int
                    == (i as int + 1) * (crate::panel::MAX_DIM as int)) by (nonlinear_arith);
                assert((i as int + 1) * (crate::panel::MAX_DIM as int) <= (MAX_PANELS as int) * (
                crate::panel::MAX_DIM as int)) by (nonlinear_arith)
                    requires
                        i as int + 1 <= MAX_PANELS as int,
                ;
            }
            if statuses[i] == PanelStatus::Shown {
                match panels[i].draw_info {
                    Some(d) => {
                        w = w + d.width as i64;
                    },
                    None => {},
                }
            }
            i += 1;
        }
        proof {
            crate::panel::lemma_shown_width_prefix_bounds(panels@, statuses@, n as int);
            assert((n as int) * (crate::panel::MAX_DIM as int) <= 0x1_0000_0000)
                by (nonlinear_arith)
                requires
                    0 <= n as int <= MAX_PANELS as int,
            ;
        }
        w
    }

    /// Repaints the left region: clears its background, re-resolves
    /// dependence, fires the due lifecycle hooks, and places every shown
    /// panel rightward from the left margin.
    pub fn redraw_left(&mut self) -> (cmds: Vec<DrawCmd>)
        requires
            old(self).wf(),
        ensures
            final(self).wf(),
            *final(self) == (Bar {
                extents: final(self).extents,
                left_panels: final(self).left_panels,
                ..*old(self)
            }),
            final(self).extents == (Extents { left: final(self).extents.left, ..old(self).extents }),
            left_pass(
                old(self).left_panels@,
                old(self).extents.left as int,
                old(self).margins,
                final(self).left_panels@,
                final(self).extents.left as int,
                cmds@,
            ),
    {
        let ghost pre = *self;
        let ghost lp0 = self.left_panels@;
        let mut cmds: Vec<DrawCmd> = Vec::new();
        cmds.push(self.redraw_background(Region::Left));
        self.extents.left = self.margins.left;
        let statuses = Self::apply_dependence(&self.left_panels);
        let (mut hidden, mut shown) = Self::process_show_hide_events(
            &mut self.left_panels,
            &statuses,
            Alignment::Left,
        );
        cmds.append(&mut hidden);
        cmds.append(&mut shown);
        let ghost base = cmds@;
        proof {
            assert(base =~= seq![
                region_clear(Region::Left, pre.extents, pre.margins, pre.width as int),
            ] + hide_cmds(Alignment::Left, lp0, statuses@, lp0.len() as int) + show_cmds(
                Alignment::Left,
                lp0,
                statuses@,
                lp0.len() as int,
            ));
        }
        let n = self.left_panels.len();
        let mut i: usize = 0;
        while i < n
            invariant
                0 <= i <= n,
                n == lp0.len(),
                n <= MAX_PANELS,
                panels_wf(lp0),
                statuses@ == resolve_seq(lp0),
                pre.wf(),
                self.left_panels@.len() == n,
                *self == (Bar {
                    extents: self.extents,
                    left_panels: self.left_panels,
                    ..pre
                }),
                self.extents == (Extents { left: self.extents.left, ..pre.extents }),
                forall|j: int|
                    0 <= j < i ==> self.left_panels@[j] == placed_panels(
                        lp0,
                        statuses@,
                        pre.margins.left as int,
                    )[j],
                forall|j: int|
                    i <= j < n ==> self.left_panels@[j] == latched_panels(lp0, statuses@)[j],
                self.extents.left as int == pre.margins.left + shown_width_prefix(
                    lp0,
                    statuses@,
                    i as int,
                ),
                cmds@ == base + draw_cmds(
                    Alignment::Left,
                    lp0,
                    statuses@,
                    pre.margins.left as int,
                    i as int,
                ),
            decreases n - i,
        {
            proof {
                crate::panel::lemma_shown_width_prefix_bounds(lp0, statuses@, i as int);
                crate::panel::lemma_shown_width_prefix_bounds(lp0, statuses@, i as int + 1);
                assert((i as int + 1) * (crate::panel::MAX_DIM as int) <= (MAX_PANELS as int) * (
                crate::panel::MAX_DIM as int)) by (nonlinear_arith)
                    requires
                        0 <= i as int + 1 <= MAX_PANELS as int,
                ;
            }
            if statuses[i] == PanelStatus::Shown {
                match self.left_panels[i].draw_info {
                    Some(draw_info) => {
                        let x = self.extents.left;
                        self.left_panels[i].x = x;
                        cmds.push(DrawCmd::DrawPanel { alignment: Alignment::Left, idx: i, x });
                        self.extents.left = self.extents.left + draw_info.width as i64;
                    },
                    None => {
                        proof {
                            crate::panel::lemma_shown_has_draw_info(lp0, i as int);
                            assert(false);
                        }
                    },
                }
            }
            i += 1;
        }
        proof {
            assert(self.left_panels@ =~= placed_panels(lp0, statuses@, pre.margins.left as int));
            assert(cmds@ =~= left_cmds(lp0, pre.extents.left as int, pre.margins));
            crate::panel::lemma_shown_width_prefix_bounds(lp0, statuses@, n as int);
            assert((n as int) * (crate::panel::MAX_DIM as int) <= (MAX_PANELS as int) * (
            crate::panel::MAX_DIM as int)) by (nonlinear_arith)
                requires
                    0 <= n as int <= MAX_PANELS as int,
            ;
            assert forall|j: int| 0 <= j < n implies (#[trigger] self.left_panels@[j]).wf() by {
                assert(lp0[j].wf());
                crate::panel::lemma_shown_width_prefix_bounds(lp0, statuses@, j);
                assert(j * (crate::panel::MAX_DIM as int) <= (MAX_PANELS as int) * (
                crate::panel::MAX_DIM as int)) by (nonlinear_arith)
                    requires
                        0 <= j <= MAX_PANELS as int,
                ;
            }
        }
        cmds
    }

    /// Repaints the right region: optionally clears its background,
    /// resolves statuses (or takes them from the caller), fires the due
    /// hooks, anchors the region at its final left edge — clamped so it
    /// keeps at least the internal margin from the center cursor — and
    /// places every shown panel rightward from there.
    pub fn redraw_right(
        &mut self,
        standalone: bool,
        statuses: Option<Vec<PanelStatus>>,
    ) -> (cmds: Vec<DrawCmd>)
        requires
            old(self).wf(),
            match statuses {
                Some(st) => st@ == resolve_seq(old(self).right_panels@),
                None => true,
            },
        ensures
            final(self).wf(),
            *final(self) == (Bar {
                extents: final(self).extents,
                right_panels: final(self).right_panels,
                ..*old(self)
            }),
            final(self).extents == (Extents {
                right: final(self).extents.right,
                ..old(self).extents
            }),
            right_pass(
                old(self).right_panels@,
                old(self).extents.center.1 as int,
                old(self).extents.right as int,
                old(self).width as int,
                old(self).margins,
                standalone,
                final(self).right_panels@,
                final(self).extents.right as int,
                cmds@,
            ),
    {
        let ghost pre = *self;
        let ghost rp0 = self.right_panels@;
        let mut cmds: Vec<DrawCmd> = Vec::new();
        if standalone {
            cmds.push(self.redraw_background(Region::Right));
        }
        let statuses = match statuses {
            Some(st) => st,
            None => Self::apply_dependence(&self.right_panels),
        };
        let (mut hidden, mut shown) = Self::process_show_hide_events(
            &mut self.right_panels,
            &statuses,
            Alignment::Right,
        );
        cmds.append(&mut hidden);
        cmds.append(&mut shown);
        proof {
            assert(panels_wf(self.right_panels@)) by {
                assert forall|j: int|
                    0 <= j < self.right_panels@.len() implies (
                #[trigger] self.right_panels@[j]).wf() by {
                    assert(rp0[j].wf());
                }
            }
        }
        let rsum = Self::shown_width(&self.right_panels, &statuses);
        proof {
            lemma_latched_widths(rp0, statuses@, statuses@, rp0.len() as int);
        }
        let total = rsum + self.margins.right;
        if total > self.width - self.extents.center.1 - self.margins.internal {
            self.extents.right = self.extents.center.1 + self.margins.internal;
        } else {
            self.extents.right = self.width - total;
        }
        let ghost rfin = self.extents.right as int;
        let ghost base = cmds@;
        proof {
            assert(rfin == right_extent_after(
                shown_width_sum(rp0, statuses@),
                pre.extents.center.1 as int,
                pre.width as int,
                pre.margins,
            ));
            assert(base =~= (if standalone {
                seq![
                    region_clear(Region::Right, pre.extents, pre.margins, pre.width as int),
                ]
            } else {
                Seq::<DrawCmd>::empty()
            }) + hide_cmds(Alignment::Right, rp0, statuses@, rp0.len() as int) + show_cmds(
                Alignment::Right,
                rp0,
                statuses@,
                rp0.len() as int,
            ));
        }
        let mut temp = self.extents.right;
        let n = self.right_panels.len();
        let mut i: usize = 0;
        while i < n
            invariant
                0 <= i <= n,
                n == rp0.len(),
                n <= MAX_PANELS,
                panels_wf(rp0),
                statuses@ == resolve_seq(rp0),
                pre.wf(),
                -0x9_0000_0000 <= rfin <= 0x9_0000_0000,
                self.right_panels@.len() == n,
                *self == (Bar {
                    extents: self.extents,
                    right_panels: self.right_panels,
                    ..pre
                }),
                self.extents == (Extents { right: self.extents.right, ..pre.extents }),
                self.extents.right as int == rfin,
                forall|j: int|
                    0 <= j < i ==> self.right_panels@[j] == placed_panels(rp0, statuses@, rfin)[j],
                forall|j: int|
                    i <= j < n ==> self.right_panels@[j] == latched_panels(rp0, statuses@)[j],
                temp as int == rfin + shown_width_prefix(rp0, statuses@, i as int),
                cmds@ == base + draw_cmds(Alignment::Right, rp0, statuses@, rfin, i as int),
            decreases n - i,
        {
            proof {
                crate::panel::lemma_shown_width_prefix_bounds(rp0, statuses@, i as int);
                crate::panel::lemma_shown_width_prefix_bounds(rp0, statuses@, i as int + 1);
                assert((i as int + 1) * (crate::panel::MAX_DIM as int) <= (MAX_PANELS as int) * (
                crate::panel::MAX_DIM as int)) by (nonlinear_arith)
                    requires
                        0 <= i as int + 1 <= MAX_PANELS as int,
                ;
            }
            if statuses[i] == PanelStatus::Shown {
                match self.right_panels[i].draw_info {
                    Some(draw_info) => {
                        let x = temp;
                        self.right_panels[i].x = x;
                        cmds.push(DrawCmd::DrawPanel { alignment: Alignment::Right, idx: i, x });
                        temp = temp + draw_info.width as i64;
                    },
                    None => {
                        proof {
                            crate::panel::lemma_shown_has_draw_info(rp0, i as int);
                            assert(false);
                        }
                    },
                }
            }
            i += 1;
        }
        proof {
            assert(self.right_panels@ =~= placed_panels(rp0, statuses@, rfin));
            assert(cmds@ =~= right_cmds(
                rp0,
                pre.extents.center.1 as int,
                pre.extents.right as int,
                pre.width as int,
                pre.margins,
                standalone,
            ));
            assert forall|j: int| 0 <= j < n implies (#[trigger] self.right_panels@[j]).wf() by {
                assert(rp0[j].wf());
                crate::panel::lemma_shown_width_prefix_bounds(rp0, statuses@, j);
                assert(j * (crate::panel::MAX_DIM as int) <= (MAX_PANELS as int) * (
                crate::panel::MAX_DIM as int)) by (nonlinear_arith)
                    requires
                        0 <= j <= MAX_PANELS as int,
                ;
            }
        }
        cmds
    }

    /// Places the center panels from `c0`, advancing the center cursor by
    /// each shown panel's width.
    fn place_center(&mut self, statuses: &Vec<PanelStatus>, c0: i64) -> (cmds: Vec<DrawCmd>)
        requires
            statuses@ == resolve_seq(old(self).center_panels@),
            old(self).center_panels@.len() <= MAX_PANELS,
            panels_wf(old(self).center_panels@),
            -0x3_0000_0000 <= c0 <= 0x3_0000_0000,
        ensures
            *final(self) == (Bar {
                extents: final(self).extents,
                center_panels: final(self).center_panels,
                ..*old(self)
            }),
            final(self).extents == (Extents {
                center: (old(self).extents.center.0, final(self).extents.center.1),
                ..old(self).extents
            }),
            final(self).extents.center.1 as int == c0 + shown_width_sum(
                old(self).center_panels@,
                statuses@,
            ),
            final(self).center_panels@ == positioned_panels(
                old(self).center_panels@,
                statuses@,
                c0 as int,
            ),
            panels_wf(final(self).center_panels@),
            cmds@ == draw_cmds(
                Alignment::Center,
                old(self).center_panels@,
                statuses@,
                c0 as int,
                old(self).center_panels@.len() as int,
            ),
    {
        let ghost pre = *self;
        let ghost cp0 = self.center_panels@;
        let ghost cstg = statuses@;
        let mut cmds: Vec<DrawCmd> = Vec::new();
        let n = self.center_panels.len();
        let mut cursor = c0;
        let mut i: usize = 0;
        while i < n
            invariant
                0 <= i <= n,
                n == cp0.len(),
                n <= MAX_PANELS,
                panels_wf(cp0),
                cstg == resolve_seq(cp0),
                statuses@ == cstg,
                -0x3_0000_0000 <= c0 <= 0x3_0000_0000,
                self.center_panels@.len() == n,
                *self == (Bar { center_panels: self.center_panels, ..pre }),
                forall|j: int|
                    0 <= j < i ==> self.center_panels@[j] == positioned_panels(
                        cp0,
                        cstg,
                        c0 as int,
                    )[j],
                forall|j: int|
                    i <= j < n ==> self.center_panels@[j] == cp0[j],
                cursor as int == c0 + shown_width_prefix(cp0, cstg, i as int),
                cmds@ == draw_cmds(Alignment::Center, cp0, cstg, c0 as int, i as int),
            decreases n - i,
        {
            proof {
                crate::panel::lemma_shown_width_prefix_bounds(cp0, cstg, i as int);
                crate::panel::lemma_shown_width_prefix_bounds(cp0, cstg, i as int + 1);
                assert((i as int + 1) * (crate::panel::MAX_DIM as int) <= (MAX_PANELS as int) * (
                crate::panel::MAX_DIM as int)) by (nonlinear_arith)
                    requires
                        0 <= i as int + 1 <= MAX_PANELS as int,
                ;
            }
            if statuses[i] == PanelStatus::Shown {
                match self.center_panels[i].draw_info {
                    Some(draw_info) => {
                        let x = cursor;
                        self.center_panels[i].x = x;
                        cmds.push(DrawCmd::DrawPanel { alignment: Alignment::Center, idx: i, x });
                        cursor = cursor + draw_info.width as i64;
                    },
                    None => {
                        proof {
                            crate::panel::lemma_shown_has_draw_info(cp0, i as int);
                            assert(false);
                        }
                    },
                }
            }
            i += 1;
        }
        self.extents.center.1 = cursor;
        proof {
            assert(self.center_panels@ =~= positioned_panels(cp0, cstg, c0 as int));
            assert forall|j: int| 0 <= j < n implies (#[trigger] self.center_panels@[j]).wf() by {
                assert(cp0[j].wf());
                crate::panel::lemma_shown_width_prefix_bounds(cp0, cstg, j);
                assert(j * (crate::panel::MAX_DIM as int) <= (MAX_PANELS as int) * (
                crate::panel::MAX_DIM as int)) by (nonlinear_arith)
                    requires
                        0 <= j <= MAX_PANELS as int,
                ;
            }
        }
        cmds
    }

    /// Repaints the center region and then the right region: resolves and
    /// latches both, anchors the center block by the four-way overflow
    /// rule, places the center panels, and finishes with a right-region
    /// repaint against the fresh center cursor.
    #[verifier::rlimit(100)]
    pub fn redraw_center_right(&mut self, standalone: bool) -> (cmds: Vec<DrawCmd>)
        requires
            old(self).wf(),
        ensures
            final(self).wf(),
            *final(self) == (Bar {
                extents: final(self).extents,
                center_state: final(self).center_state,
                center_panels: final(self).center_panels,
                right_panels: final(self).right_panels,
                ..*old(self)
            }),
            final(self).extents.left == old(self).extents.left,
            center_right_pass(
                old(self).center_panels@,
                old(self).right_panels@,
                old(self).extents.left as int,
                old(self).extents.center.0 as int,
                old(self).width as int,
                old(self).margins,
                standalone,
                final(self).center_panels@,
                final(self).right_panels@,
                final(self).extents.center.0 as int,
                final(self).extents.center.1 as int,
                final(self).center_state,
                final(self).extents.right as int,
                cmds@,
            ),
    {
        let ghost pre = *self;
        let ghost cp0 = self.center_panels@;
        let ghost rp0 = self.right_panels@;
        let mut cmds: Vec<DrawCmd> = Vec::new();
        if standalone {
            cmds.push(self.redraw_background(Region::CenterRight));
        }
        let center_statuses = Self::apply_dependence(&self.center_panels);
        let (mut ch, mut cs) = Self::process_show_hide_events(
            &mut self.center_panels,
            &center_statuses,
            Alignment::Center,
        );
        cmds.append(&mut ch);
        cmds.append(&mut cs);
        let right_statuses = Self::apply_dependence(&self.right_panels);
        let (mut rh, mut rs) = Self::process_show_hide_events(
            &mut self.right_panels,
            &right_statuses,
            Alignment::Right,
        );
        cmds.append(&mut rh);
        cmds.append(&mut rs);
        let ghost cstg = center_statuses@;
        let ghost rstg = right_statuses@;
        proof {
            assert(panels_wf(self.center_panels@)) by {
                assert forall|j: int|
                    0 <= j < self.center_panels@.len() implies (
                #[trigger] self.center_panels@[j]).wf() by {
                    assert(cp0[j].wf());
                }
            }
            assert(panels_wf(self.right_panels@)) by {
                assert forall|j: int|
                    0 <= j < self.right_panels@.len() implies (
                #[trigger] self.right_panels@[j]).wf() by {
                    assert(rp0[j].wf());
                }
            }
        }
        let csum = Self::shown_width(&self.center_panels, &center_statuses);
        let rsum = Self::shown_width(&self.right_panels, &right_statuses);
        proof {
            lemma_latched_widths(cp0, cstg, cstg, cp0.len() as int);
            lemma_latched_widths(rp0, rstg, rstg, rp0.len() as int);
        }
        let ghost csumg = csum as int;
        self.extents.right = self.width - rsum - self.margins.internal;
        let mid = self.width / 2;
        let lft = self.extents.left;
        let mint = self.margins.internal;
        let c0: i64;
        if csum > self.extents.right - lft - 2 * mint {
            c0 = lft + mint;
            self.center_state = CenterState::Unknown;
        } else if csum > 2 * (self.extents.right - mid - mint) {
            c0 = self.extents.right - csum - mint;
            self.center_state = CenterState::Left;
        } else if csum > 2 * (mid - lft - mint) {
            c0 = lft + mint;
            self.center_state = CenterState::Right;
        } else {
            c0 = mid - csum / 2;
            self.center_state = CenterState::Center;
        }
        self.extents.center.0 = c0;
        self.extents.center.1 = c0;
        let ghost c0g = c0 as int;
        let ghost stateg = self.center_state;
        proof {
            let geom = center_geometry(
                pre.width as int,
                pre.margins,
                pre.extents.left as int,
                csumg,
                shown_width_sum(rp0, rstg),
            );
            assert(c0g == geom.0 && stateg == geom.1);
        }
        let ghost base = cmds@;
        proof {
            assert(base =~= (if standalone {
                seq![
                    region_clear(Region::CenterRight, pre.extents, pre.margins, pre.width as int),
                ]
            } else {
                Seq::<DrawCmd>::empty()
            }) + hide_cmds(Alignment::Center, cp0, cstg, cp0.len() as int) + show_cmds(
                Alignment::Center,
                cp0,
                cstg,
                cp0.len() as int,
            ) + hide_cmds(Alignment::Right, rp0, rstg, rp0.len() as int) + show_cmds(
                Alignment::Right,
                rp0,
                rstg,
                rp0.len() as int,
            ));
        }
        self.extents.center.1 = c0;
        proof {
            lemma_latched_resolve(cp0, cstg);
        }
        let mut pcmds = self.place_center(&center_statuses, c0);
        proof {
            lemma_position_after_latch(cp0, cstg, c0g);
            lemma_latched_widths(cp0, cstg, cstg, cp0.len() as int);
            lemma_latched_draw_cmds(Alignment::Center, cp0, cstg, cstg, c0g, cp0.len() as int);
        }
        cmds.append(&mut pcmds);
        proof {
            assert(self.center_panels@ == placed_panels(cp0, cstg, c0g));
            crate::panel::lemma_shown_width_prefix_bounds(cp0, cstg, cp0.len() as int);
            lemma_latched_resolve(rp0, rstg);
        }
        let ghost mid_bar = *self;
        let mut rcmds = self.redraw_right(standalone, Some(right_statuses));
        proof {
            let rn = rp0.len() as int;
            let lat = latched_panels(rp0, rstg);
            lemma_latched_no_hooks(Alignment::Right, rp0, rstg, rn);
            lemma_latched_widths(rp0, rstg, rstg, rn);
            let c1 = mid_bar.extents.center.1 as int;
            let rfin = right_extent_after(
                shown_width_sum(rp0, rstg),
                c1,
                pre.width as int,
                pre.margins,
            );
            lemma_latched_draw_cmds(Alignment::Right, rp0, rstg, rstg, rfin, rn);
            lemma_latched_placed(rp0, rstg, rfin);
            assert(rcmds@ =~= (if standalone {
                seq![
                    region_clear(Region::Right, mid_bar.extents, pre.margins, pre.width as int),
                ]
            } else {
                Seq::<DrawCmd>::empty()
            }) + draw_cmds(Alignment::Right, rp0, rstg, rfin, rn));
        }
        cmds.append(&mut rcmds);
        proof {
            assert(cmds@ =~= center_right_cmds(
                cp0,
                rp0,
                pre.extents.left as int,
                pre.extents.center.0 as int,
                pre.width as int,
                pre.margins,
                standalone,
            ));
        }
        cmds
    }

    /// Redraws the entire bar: one full-width clear, then a left pass and
    /// a center-and-right pass, with no further clears.
    pub fn redraw_bar(&mut self) -> (cmds: Vec<DrawCmd>)
        requires
            old(self).wf(),
        ensures
            final(self).wf(),
            *final(self) == (Bar {
                extents: final(self).extents,
                center_state: final(self).center_state,
                left_panels: final(self).left_panels,
                center_panels: final(self).center_panels,
                right_panels: final(self).right_panels,
                ..*old(self)
            }),
            bar_pass(
                old(self).left_panels@,
                old(self).center_panels@,
                old(self).right_panels@,
                old(self).extents,
                old(self).width as int,
                old(self).margins,
                final(self).left_panels@,
                final(self).center_panels@,
                final(self).right_panels@,
                final(self).extents,
                final(self).center_state,
                cmds@,
            ),
    {
        let ghost pre = *self;
        let mut cmds: Vec<DrawCmd> = Vec::new();
        cmds.push(self.redraw_background(Region::All));
        let mut lcmds = self.redraw_left();
        cmds.append(&mut lcmds);
        let mut crcmds = self.redraw_center_right(false);
        cmds.append(&mut crcmds);
        proof {
            assert(cmds@ =~= bar_cmds(
                pre.left_panels@,
                pre.center_panels@,
                pre.right_panels@,
                pre.extents,
                pre.width as int,
                pre.margins,
            ));
        }
        cmds
    }

    /// Repaints a single panel in place: clears exactly its old x-range
    /// and re-runs its draw callback at its current position.  No other
    /// panel moves.
    pub fn redraw_one(&self, alignment: Alignment, idx: usize) -> (cmds: Vec<DrawCmd>)
        requires
            self.wf(),
            idx < (match alignment {
                Alignment::Left => self.left_panels@.len(),
                Alignment::Center => self.center_panels@.len(),
                Alignment::Right => self.right_panels@.len(),
            }),
        ensures
            cmds@ == one_cmds(
                alignment,
                match alignment {
                    Alignment::Left => self.left_panels@,
                    Alignment::Center => self.center_panels@,
                    Alignment::Right => self.right_panels@,
                },
                idx as int,
            ),
    {
        let panel = match alignment {
            Alignment::Left => &self.left_panels[idx],
            Alignment::Center => &self.center_panels[idx],
            Alignment::Right => &self.right_panels[idx],
        };
        let mut cmds: Vec<DrawCmd> = Vec::new();
        match panel.draw_info {
            Some(draw_info) => {
                let x = panel.x;
                cmds.push(
                    self.redraw_background(
                        Region::Custom { start_x: x, end_x: x + draw_info.width as i64 },
                    ),
                );
                cmds.push(DrawCmd::DrawPanel { alignment, idx, x });
            },
            None => {},
        }
        proof {
            assert(cmds@ =~= one_cmds(
                alignment,
                match alignment {
                    Alignment::Left => self.left_panels@,
                    Alignment::Center => self.center_panels@,
                    Alignment::Right => self.right_panels@,
                },
                idx as int,
            ));
        }
        cmds
    }

    /// Handles a change in the content of a panel, choosing the smallest
    /// correct repaint: a panel whose width did not change is repainted in
    /// place; otherwise the affected region is repainted where its growth
    /// cannot disturb its neighbors, and the whole bar where it can.
    #[verifier::rlimit(100)]
    pub fn update_panel(
        &mut self,
        alignment: Alignment,
        idx: usize,
        draw_info: PanelDrawInfo,
    ) -> (cmds: Vec<DrawCmd>)
        requires
            old(self).wf(),
            draw_info.wf(),
            idx < (match alignment {
                Alignment::Left => old(self).left_panels@.len(),
                Alignment::Center => old(self).center_panels@.len(),
                Alignment::Right => old(self).right_panels@.len(),
            }),
        ensures
            final(self).wf(),
            update_panel_pass(*old(self), alignment, idx as int, draw_info, *final(self), cmds@),
    {
        let ghost pre = *self;
        match alignment {
            Alignment::Left => {
                let cur_width: i64 = match self.left_panels[idx].draw_info {
                    Some(d) => d.width as i64,
                    None => 0,
                };
                let new_width = draw_info.width as i64;
                self.left_panels[idx].draw_info = Some(draw_info);
                proof {
                    assert(self.wf());
                }
                if new_width == cur_width {
                    self.redraw_one(alignment, idx)
                } else if new_width - cur_width + self.extents.left + self.margins.internal
                    < self.extents.center.0 && (self.center_state == CenterState::Center
                    || self.center_state == CenterState::Left) {
                    self.redraw_left()
                } else {
                    self.redraw_bar()
                }
            },
            Alignment::Center => {
                let cur_width: i64 = match self.center_panels[idx].draw_info {
                    Some(d) => d.width as i64,
                    None => 0,
                };
                let new_width = draw_info.width as i64;
                self.center_panels[idx].draw_info = Some(draw_info);
                proof {
                    assert(self.wf());
                }
                if new_width == cur_width {
                    self.redraw_one(alignment, idx)
                } else {
                    self.redraw_bar()
                }
            },
            Alignment::Right => {
                let cur_width: i64 = match self.right_panels[idx].draw_info {
                    Some(d) => d.width as i64,
                    None => 0,
                };
                let new_width = draw_info.width as i64;
                self.right_panels[idx].draw_info = Some(draw_info);
                proof {
                    assert(self.wf());
                }
                if new_width == cur_width {
                    self.redraw_one(alignment, idx)
                } else if self.extents.right - (new_width - cur_width) - self.margins.internal
                    > self.extents.center.1 {
                    self.redraw_right(true, None)
                } else if (self.extents.right - self.extents.center.1 - self.margins.internal) + (
                self.extents.center.0 - self.extents.left - self.margins.internal) > new_width
                    - cur_width {
                    // The pass re-derives the right extent from the panel
                    // widths, so nudging it by the delta first would never
                    // be observed.
                    self.redraw_center_right(true)
                } else {
                    self.redraw_bar()
                }
            },
        }
    }

    /// Collects the hook commands of one region's panels that carry the
    /// named hook.
    fn region_lifecycle(panels: &Vec<Panel>, alignment: Alignment, show: bool) -> (cmds: Vec<
        DrawCmd,
    >)
        ensures
            cmds@ == lifecycle_cmds(alignment, panels@, panels@.len() as int, show),
    {
        let n = panels.len();
        let mut cmds: Vec<DrawCmd> = Vec::new();
        let mut i: usize = 0;
        while i < n
            invariant
                0 <= i <= n,
                n == panels@.len(),
                cmds@ == lifecycle_cmds(alignment, panels@, i as int, show),
            decreases n - i,
        {
            let due = match panels[i].draw_info {
                Some(d) => if show {
                    d.show_fn.is_some()
                } else {
                    d.hide_fn.is_some()
                },
                None => false,
            };
            if due {
                if show {
                    cmds.push(DrawCmd::ShowHook { alignment, idx: i });
                } else {
                    cmds.push(DrawCmd::HideHook { alignment, idx: i });
                }
            }
            i += 1;
        }
        cmds
    }

    /// The show-hook commands for every panel of the bar that carries
    /// one, left to right.
    pub fn show_panels(&self) -> (cmds: Vec<DrawCmd>)
        ensures
            cmds@ == lifecycle_cmds(
                Alignment::Left,
                self.left_panels@,
                self.left_panels@.len() as int,
                true,
            ) + lifecycle_cmds(
                Alignment::Center,
                self.center_panels@,
                self.center_panels@.len() as int,
                true,
            ) + lifecycle_cmds(
                Alignment::Right,
                self.right_panels@,
                self.right_panels@.len() as int,
                true,
            ),
    {
        let mut cmds = Self::region_lifecycle(&self.left_panels, Alignment::Left, true);
        let mut c = Self::region_lifecycle(&self.center_panels, Alignment::Center, true);
        cmds.append(&mut c);
        let mut r = Self::region_lifecycle(&self.right_panels, Alignment::Right, true);
        cmds.append(&mut r);
        cmds
    }

    /// The hide-hook commands for every panel of the bar that carries
    /// one, left to right.
    pub fn hide_panels(&self) -> (cmds: Vec<DrawCmd>)
        ensures
            cmds@ == lifecycle_cmds(
                Alignment::Left,
                self.left_panels@,
                self.left_panels@.len() as int,
                false,
            ) + lifecycle_cmds(
                Alignment::Center,
                self.center_panels@,
                self.center_panels@.len() as int,
                false,
            ) + lifecycle_cmds(
                Alignment::Right,
                self.right_panels@,
                self.right_panels@.len() as int,
                false,
            ),
    {
        let mut cmds = Self::region_lifecycle(&self.left_panels, Alignment::Left, false);
        let mut c = Self::region_lifecycle(&self.center_panels, Alignment::Center, false);
        cmds.append(&mut c);
        let mut r = Self::region_lifecycle(&self.right_panels, Alignment::Right, false);
        cmds.append(&mut r);
        cmds
    }

    /// Collects the shutdown-hook handles of one region's panels.
    fn region_shutdown(panels: &Vec<Panel>) -> (r: Vec<usize>)
        ensures
            r@ == shutdown_handles(panels@, panels@.len() as int),
    {
        let n = panels.len();
        let mut r: Vec<usize> = Vec::new();
        let mut i: usize = 0;
        while i < n
            invariant
                0 <= i <= n,
                n == panels@.len(),
                r@ == shutdown_handles(panels@, i as int),
            decreases n - i,
        {
            match panels[i].draw_info {
                Some(d) => match d.shutdown {
                    Some(h) => r.push(h),
                    None => {},
                },
                None => {},
            }
            i += 1;
        }
        r
    }

    /// Collects every panel's shutdown-hook handle, left to right; the
    /// caller invokes them under its time budget.
    pub fn shutdown(self) -> (r: Vec<usize>)
        ensures
            r@ == shutdown_handles(self.left_panels@, self.left_panels@.len() as int)
                + shutdown_handles(self.center_panels@, self.center_panels@.len() as int)
                + shutdown_handles(self.right_panels@, self.right_panels@.len() as int),
    {
        let mut r = Self::region_shutdown(&self.left_panels);
        let mut c = Self::region_shutdown(&self.center_panels);
        r.append(&mut c);
        let mut rr = Self::region_shutdown(&self.right_panels);
        r.append(&mut rr);
        r
    }

    /// Handles a bar-level message: `quit`, `show`, `hide` or `toggle`;
    /// anything else is silently ignored.  Returns whether the bar must
    /// terminate, and the commands to perform.
    #[verifier::rlimit(100)]
    pub fn handle_ipc_event(&mut self, message: &str) -> (r: (bool, Vec<DrawCmd>))
        requires
            old(self).wf(),
        ensures
            final(self).wf(),
            ipc_event_pass(*old(self), message@, *final(self), r.0, r.1@),
    {
        if crate::text::str_eq(message, "quit") {
            (true, Vec::new())
        } else if crate::text::str_eq(message, "show") {
            self.mapped = true;
            let mut cmds: Vec<DrawCmd> = Vec::new();
            cmds.push(DrawCmd::MapWindow);
            let mut hooks = self.show_panels();
            cmds.append(&mut hooks);
            proof {
                assert(cmds@ =~= bar_show_cmds(*old(self)));
            }
            (false, cmds)
        } else if crate::text::str_eq(message, "hide") {
            self.mapped = false;
            let mut cmds: Vec<DrawCmd> = Vec::new();
            cmds.push(DrawCmd::UnmapWindow);
            let mut hooks = self.hide_panels();
            cmds.append(&mut hooks);
            proof {
                assert(cmds@ =~= bar_hide_cmds(*old(self)));
            }
            (false, cmds)
        } else if crate::text::str_eq(message, "toggle") {
            if self.mapped {
                self.mapped = false;
                let mut cmds: Vec<DrawCmd> = Vec::new();
                cmds.push(DrawCmd::UnmapWindow);
                let mut hooks = self.hide_panels();
                cmds.append(&mut hooks);
                proof {
                    assert(cmds@ =~= bar_hide_cmds(*old(self)));
                }
                (false, cmds)
            } else {
                self.mapped = true;
                let mut cmds: Vec<DrawCmd> = Vec::new();
                cmds.push(DrawCmd::MapWindow);
                let mut hooks = self.show_panels();
                cmds.append(&mut hooks);
                proof {
                    assert(cmds@ =~= bar_show_cmds(*old(self)));
                }
                (false, cmds)
            }
        } else {
            (false, Vec::new())
        }
    }

    /// Handles a panel visibility command `<region><index>.<verb>` with
    /// region `l`, `c` or `r` and verb `show`, `hide` or `toggle`: sets
    /// the addressed panel's visibility and repaints its region.  Text
    /// not of that shape, or an index beyond the region, is a silent
    /// no-op; an unknown verb or an unrepresentable index is an error.
    pub fn handle_panel_event(&mut self, message: &str) -> (r: Result<
        (bool, Vec<DrawCmd>),
        crate::events::IpcError,
    >)
        requires
            old(self).wf(),
        ensures
            final(self).wf(),
            panel_event_pass(*old(self), message@, *final(self), r),
    {
        let len = message.unicode_len();
        if len < 1 {
            return Ok((false, Vec::new()));
        }
        let c0 = message.get_char(0);
        if !(c0 == 'l' || c0 == 'c' || c0 == 'r') {
            return Ok((false, Vec::new()));
        }
        let k = crate::text::digit_run(message, 1);
        if k == 1 {
            return Ok((false, Vec::new()));
        }
        if k >= len {
            return Ok((false, Vec::new()));
        }
        if message.get_char(k) != '.' {
            return Ok((false, Vec::new()));
        }
        if k + 1 >= len {
            return Ok((false, Vec::new()));
        }
        let digits = message.substring_char(1, k);
        let verb = message.substring_char(k + 1, len);
        let idx = match crate::text::parse_decimal(digits) {
            Some(v) => v,
            None => {
                proof {
                    crate::text::lemma_digits_val_nonneg(digits@);
                }
                return Err(crate::events::IpcError::BadIndex);
            },
        };
        let target_len = if c0 == 'l' {
            self.left_panels.len()
        } else if c0 == 'c' {
            self.center_panels.len()
        } else {
            self.right_panels.len()
        };
        if idx >= target_len {
            return Ok((false, Vec::new()));
        }
        let visible_new: bool;
        if crate::text::str_eq(verb, "show") {
            visible_new = true;
        } else if crate::text::str_eq(verb, "hide") {
            visible_new = false;
        } else if crate::text::str_eq(verb, "toggle") {
            visible_new = if c0 == 'l' {
                !self.left_panels[idx].visible
            } else if c0 == 'c' {
                !self.center_panels[idx].visible
            } else {
                !self.right_panels[idx].visible
            };
        } else {
            return Err(crate::events::IpcError::UnknownMessage(verb.to_owned()));
        }
        let cmds = if c0 == 'l' {
            self.left_panels[idx].visible = visible_new;
            self.redraw_left()
        } else if c0 == 'c' {
            self.center_panels[idx].visible = visible_new;
            self.redraw_center_right(true)
        } else {
            self.right_panels[idx].visible = visible_new;
            self.redraw_right(true, None)
        };
        Ok((false, cmds))
    }

    /// Counts the panels named `name` and finds the first of them.
    fn find_named(panels: &Vec<Panel>, name: &str) -> (r: (usize, usize))
        ensures
            r.0 as int == count_named(panels@, name@, panels@.len() as int),
            r.0 as int <= panels@.len(),
            r.0 > 0 ==> r.1 as int == first_named(panels@, name@, 0) && (r.1 as int)
                < panels@.len(),
    {
        let n = panels.len();
        let mut count: usize = 0;
        let mut first: usize = 0;
        let mut i: usize = 0;
        while i < n
            invariant
                0 <= i <= n,
                n == panels@.len(),
                count as int == count_named(panels@, name@, i as int),
                count <= i,
                count > 0 ==> first as int == first_named(panels@, name@, 0) && (first as int) < n,
                count == 0 ==> first_named(panels@, name@, 0) == first_named(panels@, name@, i as int),
            decreases n - i,
        {
            if crate::text::str_eq(name, panels[i].name.as_str()) {
                if count == 0 {
                    first = i;
                }
                count += 1;
            }
            i += 1;
        }
        (count, first)
    }

    /// Routes one message line: `#` introduces a panel visibility
    /// command; a line with a `.` addresses a panel by name; anything
    /// else is a bar-level message.
    pub fn send_message(&mut self, message: &str) -> (r: MessageOutcome)
        requires
            old(self).wf(),
        ensures
            final(self).wf(),
            send_message_pass(*old(self), message@, *final(self), r),
    {
        let len = message.unicode_len();
        if len >= 1 && message.get_char(0) == '#' {
            let stripped = message.substring_char(1, len);
            return match self.handle_panel_event(stripped) {
                Ok(ok) => MessageOutcome::Repaint(ok.1),
                Err(e) => MessageOutcome::Rejected(e),
            };
        }
        match crate::text::find_char(message, '.') {
            None => {
                let (quit, cmds) = self.handle_ipc_event(message);
                if quit {
                    MessageOutcome::Terminate
                } else {
                    MessageOutcome::Repaint(cmds)
                }
            },
            Some(k) => {
                let dest = message.substring_char(0, k);
                let action = message.substring_char(k + 1, len);
                let (lc, lf) = Self::find_named(&self.left_panels, dest);
                let (cc, cf) = Self::find_named(&self.center_panels, dest);
                let (rc, rf) = Self::find_named(&self.right_panels, dest);
                let total = lc + cc + rc;
                if total == 0 {
                    MessageOutcome::Reply(
                        crate::events::EventResponse::Failure(
                            "No panel with name ".to_owned().concat(dest).concat(
                                " was found",
                            ),
                        ),
                    )
                } else if total > 1 {
                    MessageOutcome::Reply(
                        crate::events::EventResponse::Failure(
                            "This panel has multiple instances and cannot be messaged".to_owned(),
                        ),
                    )
                } else {
                    let (alignment, idx) = if lc > 0 {
                        (Alignment::Left, lf)
                    } else if cc > 0 {
                        (Alignment::Center, cf)
                    } else {
                        (Alignment::Right, rf)
                    };
                    let has_endpoint = match alignment {
                        Alignment::Left => self.left_panels[idx].endpoint.is_some(),
                        Alignment::Center => self.center_panels[idx].endpoint.is_some(),
                        Alignment::Right => self.right_panels[idx].endpoint.is_some(),
                    };
                    if has_endpoint {
                        MessageOutcome::Forward { alignment, idx, action: action.to_owned() }
                    } else {
                        MessageOutcome::Reply(
                            crate::events::EventResponse::Failure(
                                "The target panel has no associated sender and cannot be messaged".to_owned(),
                            ),
                        )
                    }
                }
            },
        }
    }

    /// Finds the first panel of the region whose x-range contains `x`.
    fn find_hit(panels: &Vec<Panel>, x: i64) -> (r: Option<usize>)
        requires
            panels_wf(panels@),
        ensures
            match r {
                Some(i) => i as int == first_hit(panels@, x as int, 0) && (i as int)
                    < panels@.len(),
                None => first_hit(panels@, x as int, 0) == panels@.len(),
            },
    {
        let n = panels.len();
        let mut i: usize = 0;
        while i < n
            invariant
                0 <= i <= n,
                n == panels@.len(),
                panels_wf(panels@),
                first_hit(panels@, x as int, 0) == first_hit(panels@, x as int, i as int),
            decreases n - i,
        {
            let p = &panels[i];
            match p.draw_info {
                Some(d) => {
                    if p.x <= x && x <= p.x + d.width as i64 {
                        return Some(i);
                    }
                },
                None => {},
            }
            i += 1;
        }
        None
    }

    /// Handles an event from the windowing system: an expose repaints
    /// the whole bar; a button press is delivered, translated, to the
    /// first panel whose x-range contains it; other events are ignored.
    pub fn process_event(&mut self, event: &crate::events::XEvent) -> (r: EventAction)
        requires
            old(self).wf(),
        ensures
            final(self).wf(),
            process_event_pass(*old(self), *event, *final(self), r),
    {
        match *event {
            crate::events::XEvent::Expose => EventAction::Repaint(self.redraw_bar()),
            crate::events::XEvent::ButtonPress {
                detail,
                same_screen,
                event_x,
                event_y,
                root_x,
                root_y,
            } => {
                if detail < 1 || detail > 5 {
                    return EventAction::Ignored;
                }
                let (ex, y) = if same_screen {
                    (event_x, event_y)
                } else {
                    (root_x, root_y)
                };
                let x = ex as i64;
                let found: Option<(Alignment, usize)> = match Self::find_hit(&self.left_panels, x) {
                    Some(i) => Some((Alignment::Left, i)),
                    None => match Self::find_hit(&self.center_panels, x) {
                        Some(i) => Some((Alignment::Center, i)),
                        None => match Self::find_hit(&self.right_panels, x) {
                            Some(i) => Some((Alignment::Right, i)),
                            None => None,
                        },
                    },
                };
                match found {
                    None => EventAction::Ignored,
                    Some((alignment, idx)) => {
                        let p = match alignment {
                            Alignment::Left => &self.left_panels[idx],
                            Alignment::Center => &self.center_panels[idx],
                            Alignment::Right => &self.right_panels[idx],
                        };
                        if p.endpoint.is_none() {
                            return EventAction::Ignored;
                        }
                        let diff = x - p.x;
                        if diff > i16::MAX as i64 {
                            return EventAction::Ignored;
                        }
                        let button = match crate::events::MouseButton::try_parse(
                            detail,
                            self.reverse_scroll,
                        ) {
                            Ok(b) => b,
                            Err(_) => {
                                proof {
                                    assert(false);
                                }
                                crate::events::MouseButton::Left
                            },
                        };
                        EventAction::Forward {
                            alignment,
                            idx,
                            event: crate::events::Event::Mouse(
                                crate::events::MouseEvent { button, x: diff as i16, y },
                            ),
                        }
                    },
                }
            },
            crate::events::XEvent::Other => EventAction::Ignored,
        }
    }

    /// The clear command for one background scope, computed from the
    /// current extents and margins.
    pub fn redraw_background(&self, scope: Region) -> (c: DrawCmd)
        requires
            self.wf(),
        ensures
            c == region_clear(scope, self.extents, self.margins, self.width as int),
    {
        match scope {
            Region::Left => DrawCmd::ClearRect {
                start_x: 0,
                end_x: self.extents.left + self.margins.internal,
            },
            Region::CenterRight => DrawCmd::ClearRect {
                start_x: self.extents.center.0 - self.margins.internal,
                end_x: self.width,
            },
            Region::Right => DrawCmd::ClearRect {
                start_x: self.extents.right - self.margins.internal,
                end_x: self.width,
            },
            Region::All => DrawCmd::ClearRect { start_x: 0, end_x: self.width },
            Region::Custom { start_x, end_x } => DrawCmd::ClearRect { start_x, end_x },
        }
    }
}

/// The commands of a single-panel repaint: clear the panel's own
/// x-range, then redraw it where it stands.  A panel without draw
/// information needs no command.
pub open spec fn one_cmds(a: Alignment, ps: Seq<Panel>, idx: int) -> Seq<DrawCmd> {
    match ps[idx].draw_info {
        Some(d) => seq![
            DrawCmd::ClearRect {
                start_x: ps[idx].x,
                end_x: (ps[idx].x + d.width) as i64,
            },
            DrawCmd::DrawPanel { alignment: a, idx: idx as usize, x: ps[idx].x },
        ],
        None => Seq::empty(),
    }
}

/// Law: the four-way center anchoring keeps the regions ordered.  The
/// center block always keeps at least the internal margin from the left
/// extent, and the right region always keeps at least the internal
/// margin from the center cursor: at its natural position that much
/// room is free, and the clamp otherwise grants exactly that margin.
pub proof fn lemma_center_geometry_ordered(width: int, m: Margins, lft: int, csum: int, rsum: int)
    requires
        m.wf(),
        0 <= lft,
        0 <= csum,
        0 <= rsum,
    ensures
        ({
            let c0 = center_geometry(width, m, lft, csum, rsum).0;
            let c1 = c0 + csum;
            let rfin = right_extent_after(rsum, c1, width, m);
            &&& lft + m.internal <= c0
            &&& c0 <= c1
            &&& rfin - c1 >= m.internal
        }),
{
    let r0 = width - rsum - m.internal;
    let mid = width / 2;
    let c0 = center_geometry(width, m, lft, csum, rsum).0;
    let c1 = c0 + csum;
    if csum > r0 - lft - 2 * m.internal {
    } else if csum > 2 * (r0 - mid - m.internal) {
        assert(c0 == r0 - csum - m.internal);
        assert(c0 >= lft + m.internal);
    } else if csum > 2 * (mid - lft - m.internal) {
    } else {
        assert(csum / 2 <= mid - lft - m.internal) by (nonlinear_arith)
            requires
                0 <= csum,
                csum <= 2 * (mid - lft - m.internal),
        ;
        assert(csum / 2 * 2 <= csum && csum / 2 >= 0) by (nonlinear_arith)
            requires
                csum >= 0,
        ;
        assert(c0 == mid - csum / 2);
    }
    let rfin = right_extent_after(rsum, c1, width, m);
    if rsum + m.right > width - c1 - m.internal {
        assert(rfin == c1 + m.internal);
    } else {
        assert(rfin == width - (rsum + m.right));
        assert(rfin >= c1 + m.internal);
    }
}

/// Law: after a full repaint the extents are ordered,
/// `left <= center start <= center cursor <= right`, and both gaps
/// between adjacent regions are at least the internal margin.
pub proof fn lemma_layout_monotonic(pre: Bar, post: Bar, cmds: Seq<DrawCmd>)
    requires
        pre.wf(),
        bar_pass(
            pre.left_panels@,
            pre.center_panels@,
            pre.right_panels@,
            pre.extents,
            pre.width as int,
            pre.margins,
            post.left_panels@,
            post.center_panels@,
            post.right_panels@,
            post.extents,
            post.center_state,
            cmds,
        ),
    ensures
        post.extents.left <= post.extents.center.0,
        post.extents.center.0 <= post.extents.center.1,
        post.extents.center.1 <= post.extents.right,
        post.extents.left + pre.margins.internal <= post.extents.center.0,
        post.extents.right - post.extents.center.1 >= pre.margins.internal,
{
    let lp = pre.left_panels@;
    let cp = pre.center_panels@;
    let rp = pre.right_panels@;
    let lst = resolve_seq(lp);
    let cst = resolve_seq(cp);
    let rst = resolve_seq(rp);
    crate::panel::lemma_shown_width_prefix_bounds(lp, lst, lp.len() as int);
    crate::panel::lemma_shown_width_prefix_bounds(cp, cst, cp.len() as int);
    crate::panel::lemma_shown_width_prefix_bounds(rp, rst, rp.len() as int);
    lemma_center_geometry_ordered(
        pre.width as int,
        pre.margins,
        pre.margins.left + shown_width_sum(lp, lst),
        shown_width_sum(cp, cst),
        shown_width_sum(rp, rst),
    );
}

/// Law: a center-and-right repaint keeps the extents ordered in the
/// same way, against the left extent it found: both gaps between
/// adjacent regions are at least the internal margin.
pub proof fn lemma_layout_monotonic_center_right(
    pre: Bar,
    post: Bar,
    standalone: bool,
    cmds: Seq<DrawCmd>,
)
    requires
        pre.wf(),
        center_right_pass(
            pre.center_panels@,
            pre.right_panels@,
            pre.extents.left as int,
            pre.extents.center.0 as int,
            pre.width as int,
            pre.margins,
            standalone,
            post.center_panels@,
            post.right_panels@,
            post.extents.center.0 as int,
            post.extents.center.1 as int,
            post.center_state,
            post.extents.right as int,
            cmds,
        ),
    ensures
        pre.extents.left + pre.margins.internal <= post.extents.center.0,
        post.extents.center.0 <= post.extents.center.1,
        post.extents.center.1 <= post.extents.right,
        post.extents.right - post.extents.center.1 >= pre.margins.internal,
{
    let cp = pre.center_panels@;
    let rp = pre.right_panels@;
    let cst = resolve_seq(cp);
    let rst = resolve_seq(rp);
    crate::panel::lemma_shown_width_prefix_bounds(cp, cst, cp.len() as int);
    crate::panel::lemma_shown_width_prefix_bounds(rp, rst, rp.len() as int);
    lemma_center_geometry_ordered(
        pre.width as int,
        pre.margins,
        pre.extents.left as int,
        shown_width_sum(cp, cst),
        shown_width_sum(rp, rst),
    );
}

/// Law: the resolver reads nothing but the panel
/// sequence; equal sequences resolve equally.
pub proof fn lemma_resolver_pure(a: Seq<Panel>, b: Seq<Panel>)
    requires
        a == b,
    ensures
        resolve_seq(a) == resolve_seq(b),
{
}

/// The latch a panel holds after a sequence of passes whose shown flags
/// are `s`, starting from `b0`.
pub open spec fn latch_after(b0: bool, s: Seq<bool>) -> bool {
    if s.len() == 0 {
        b0
    } else {
        s.last()
    }
}

/// How many passes of `s` raised the latch (a show transition).
pub open spec fn rise_count(b0: bool, s: Seq<bool>) -> int
    decreases s.len(),
{
    if s.len() == 0 {
        0
    } else {
        rise_count(b0, s.drop_last()) + if !latch_after(b0, s.drop_last()) && s.last() {
            1int
        } else {
            0int
        }
    }
}

/// How many passes of `s` dropped the latch (a hide transition).
pub open spec fn fall_count(b0: bool, s: Seq<bool>) -> int
    decreases s.len(),
{
    if s.len() == 0 {
        0
    } else {
        fall_count(b0, s.drop_last()) + if latch_after(b0, s.drop_last()) && !s.last() {
            1int
        } else {
            0int
        }
    }
}

/// Law: over any sequence of passes, a panel's show
/// and hide transitions alternate: their counts differ by the change of
/// the latch, so by at most one, and the parity matches the panel's
/// current status.
pub proof fn lemma_latch_alternation(b0: bool, s: Seq<bool>)
    ensures
        rise_count(b0, s) - fall_count(b0, s) == (if latch_after(b0, s) {
            1int
        } else {
            0int
        }) - (if b0 {
            1int
        } else {
            0int
        }),
        -1 <= rise_count(b0, s) - fall_count(b0, s) <= 1,
    decreases s.len(),
{
    if s.len() > 0 {
        lemma_latch_alternation(b0, s.drop_last());
    }
}

/// One latch pass realizes exactly those transitions: a panel holding
/// draw information earns a show command when its latch rises, a hide
/// command when it falls, and its latch records the fresh status.
pub proof fn lemma_pass_transitions(ps: Seq<Panel>, st: Seq<PanelStatus>, i: int)
    requires
        0 <= i < ps.len(),
        ps[i].draw_info is Some,
    ensures
        show_transition(ps, st, i) <==> (!ps[i].last_status && st[i] == PanelStatus::Shown),
        hide_transition(ps, st, i) <==> (ps[i].last_status && st[i] != PanelStatus::Shown),
        latched_panels(ps, st)[i].last_status == (st[i] == PanelStatus::Shown),
{
}

/// Law: an update whose width is
/// unchanged replaces the slot's draw information and moves no panel:
/// every panel of every region keeps its coordinate.
pub proof fn lemma_update_stable(
    pre: Bar,
    a: Alignment,
    idx: int,
    di: PanelDrawInfo,
    post: Bar,
    cmds: Seq<DrawCmd>,
)
    requires
        update_panel_pass(pre, a, idx, di, post, cmds),
        0 <= idx < (match a {
            Alignment::Left => pre.left_panels@.len(),
            Alignment::Center => pre.center_panels@.len(),
            Alignment::Right => pre.right_panels@.len(),
        }),
        di.width as int == panel_width(
            (match a {
                Alignment::Left => pre.left_panels@,
                Alignment::Center => pre.center_panels@,
                Alignment::Right => pre.right_panels@,
            })[idx],
        ),
    ensures
        post.left_panels@.len() == pre.left_panels@.len(),
        post.center_panels@.len() == pre.center_panels@.len(),
        post.right_panels@.len() == pre.right_panels@.len(),
        forall|j: int|
            0 <= j < pre.left_panels@.len() ==> post.left_panels@[j].x == #[trigger] pre.left_panels@[j].x,
        forall|j: int|
            0 <= j < pre.center_panels@.len() ==> post.center_panels@[j].x
                == #[trigger] pre.center_panels@[j].x,
        forall|j: int|
            0 <= j < pre.right_panels@.len() ==> post.right_panels@[j].x
                == #[trigger] pre.right_panels@[j].x,
        post.extents == pre.extents,
{
}

/// The visibility a verb leaves behind: `show` sets, `hide` clears,
/// `toggle` inverts.
pub open spec fn verb_vis(verb: Seq<char>, old_vis: bool) -> bool {
    if verb == "show"@ {
        true
    } else if verb == "hide"@ {
        false
    } else {
        !old_vis
    }
}

/// One visibility command leaves the addressed panel's flag at what its
/// verb dictates, and the region's length unchanged.
pub proof fn lemma_panel_event_visible(
    pre: Bar,
    msg: Seq<char>,
    post: Bar,
    r: Result<(bool, Vec<DrawCmd>), crate::events::IpcError>,
)
    requires
        panel_event_pass(pre, msg, post, r),
        parse_panel_cmd(msg) is Some,
        ({
            let pc = parse_panel_cmd(msg)->Some_0;
            let ps0 = if pc.0 == 'l' {
                pre.left_panels@
            } else if pc.0 == 'c' {
                pre.center_panels@
            } else {
                pre.right_panels@
            };
            &&& (pc.2 == "show"@ || pc.2 == "hide"@ || pc.2 == "toggle"@)
            &&& 0 <= pc.1 < ps0.len()
            &&& ps0.len() <= MAX_PANELS
        }),
    ensures
        ({
            let pc = parse_panel_cmd(msg)->Some_0;
            let ps0 = if pc.0 == 'l' {
                pre.left_panels@
            } else if pc.0 == 'c' {
                pre.center_panels@
            } else {
                pre.right_panels@
            };
            let ps1 = if pc.0 == 'l' {
                post.left_panels@
            } else if pc.0 == 'c' {
                post.center_panels@
            } else {
                post.right_panels@
            };
            &&& ps1.len() == ps0.len()
            &&& ps1[pc.1].visible == verb_vis(pc.2, ps0[pc.1].visible)
        }),
{
}

/// Law: a visibility command touches exactly
/// the addressed panel's flag — `hide` clears it, `show` sets it — and
/// two consecutive `toggle` commands restore it, whatever repainting
/// they trigger.
pub proof fn lemma_visibility_round_trip(
    pre: Bar,
    mid: Bar,
    post: Bar,
    msg: Seq<char>,
    r1: Result<(bool, Vec<DrawCmd>), crate::events::IpcError>,
    r2: Result<(bool, Vec<DrawCmd>), crate::events::IpcError>,
)
    requires
        panel_event_pass(pre, msg, mid, r1),
        panel_event_pass(mid, msg, post, r2),
        parse_panel_cmd(msg) is Some,
        ({
            let pc = parse_panel_cmd(msg)->Some_0;
            let ps0 = if pc.0 == 'l' {
                pre.left_panels@
            } else if pc.0 == 'c' {
                pre.center_panels@
            } else {
                pre.right_panels@
            };
            &&& (pc.2 == "show"@ || pc.2 == "hide"@ || pc.2 == "toggle"@)
            &&& 0 <= pc.1 < ps0.len()
            &&& ps0.len() <= MAX_PANELS
        }),
    ensures
        ({
            let pc = parse_panel_cmd(msg)->Some_0;
            let ps0 = if pc.0 == 'l' {
                pre.left_panels@
            } else if pc.0 == 'c' {
                pre.center_panels@
            } else {
                pre.right_panels@
            };
            let ps2 = if pc.0 == 'l' {
                post.left_panels@
            } else if pc.0 == 'c' {
                post.center_panels@
            } else {
                post.right_panels@
            };
            &&& (pc.2 == "hide"@ ==> !ps2[pc.1].visible)
            &&& (pc.2 == "show"@ ==> ps2[pc.1].visible)
            &&& (pc.2 == "toggle"@ ==> ps2[pc.1].visible == ps0[pc.1].visible)
        }),
{
    reveal_strlit("show");
    reveal_strlit("hide");
    reveal_strlit("toggle");
    assert(("show"@)[0] != ("hide"@)[0]);
    assert("show"@.len() != "toggle"@.len());
    assert("hide"@.len() != "toggle"@.len());
    lemma_panel_event_visible(pre, msg, mid, r1);
    lemma_panel_event_visible(mid, msg, post, r2);
}

/// The first hit of a scan really is a hit.
pub proof fn lemma_first_hit_found(ps: Seq<Panel>, x: int, i: int)
    requires
        0 <= i <= ps.len(),
    ensures
        i <= first_hit(ps, x, i) <= ps.len(),
        first_hit(ps, x, i) < ps.len() ==> hit(ps[first_hit(ps, x, i)], x),
    decreases ps.len() - i,
{
    if i < ps.len() && !hit(ps[i], x) {
        lemma_first_hit_found(ps, x, i + 1);
    }
}

/// Law: at most one panel receives a press —
/// the routing forwards to a single slot or to none — and the
/// translated offset lies inside the receiving panel: it is
/// non-negative, at most the panel's width, and strictly less wherever
/// the press is strictly inside the panel's x-range.
pub proof fn lemma_mouse_locality(pre: Bar, ev: crate::events::XEvent, post: Bar, r: EventAction)
    requires
        pre.wf(),
        ev is ButtonPress,
        process_event_pass(pre, ev, post, r),
    ensures
        match r {
            EventAction::Forward { alignment, idx, event } => match event {
                crate::events::Event::Mouse(me) => {
                    let ps = match alignment {
                        Alignment::Left => pre.left_panels@,
                        Alignment::Center => pre.center_panels@,
                        Alignment::Right => pre.right_panels@,
                    };
                    let x = (if ev->same_screen {
                        ev->event_x
                    } else {
                        ev->root_x
                    }) as int;
                    &&& 0 <= idx < ps.len()
                    &&& hit(ps[idx as int], x)
                    &&& 0 <= me.x
                    &&& me.x as int <= panel_width(ps[idx as int])
                    &&& x < ps[idx as int].x + panel_width(ps[idx as int]) ==> (me.x as int)
                        < panel_width(ps[idx as int])
                },
                _ => false,
            },
            _ => true,
        },
{
    match r {
        EventAction::Forward { alignment, idx, event } => {
            lemma_first_hit_found(pre.left_panels@, (if ev->same_screen {
                ev->event_x
            } else {
                ev->root_x
            }) as int, 0);
            lemma_first_hit_found(pre.center_panels@, (if ev->same_screen {
                ev->event_x
            } else {
                ev->root_x
            }) as int, 0);
            lemma_first_hit_found(pre.right_panels@, (if ev->same_screen {
                ev->event_x
            } else {
                ev->root_x
            }) as int, 0);
        },
        _ => {},
    }
}

/// The background clear produced for one scope: the region's rectangle,
/// widened leftward by the internal margin where a region starts at its
/// extent.
pub open spec fn region_clear(scope: Region, e: Extents, m: Margins, width: int) -> DrawCmd {
    match scope {
        Region::Left => DrawCmd::ClearRect {
            start_x: 0,
            end_x: (e.left + m.internal) as i64,
        },
        Region::CenterRight => DrawCmd::ClearRect {
            start_x: (e.center.0 - m.internal) as i64,
            end_x: width as i64,
        },
        Region::Right => DrawCmd::ClearRect {
            start_x: (e.right - m.internal) as i64,
            end_x: width as i64,
        },
        Region::All => DrawCmd::ClearRect { start_x: 0, end_x: width as i64 },
        Region::Custom { start_x, end_x } => DrawCmd::ClearRect { start_x, end_x },
    }
}

} // verus!
