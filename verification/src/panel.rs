//! Panels and the dependence rule.
//!
//! A panel is an independent content producer occupying a contiguous
//! horizontal slice of the bar.  Its draw information is replaced on every
//! update; a panel may declare that it is shown only when a neighbor is
//! visibly non-empty ([`Dependence`]).  The resolver maps a region's panel
//! sequence to a per-index [`PanelStatus`], reading nothing but the panels
//! themselves.

use vstd::prelude::*;

verus! {

/// Which neighbor(s) a panel depends on to be shown.
///
/// A panel that depends on a neighbor is hidden unless that neighbor's own
/// primary status is shown; resolution is deliberately not transitive.
#[derive(Clone, Copy, Debug, PartialEq, Eq, Structural)]
pub enum Dependence {
    /// The panel is always eligible to be shown.
    Independent,
    /// The panel is shown only if its left neighbor has a nonzero width.
    Left,
    /// The panel is shown only if its right neighbor has a nonzero width.
    Right,
    /// The panel is shown only if both of its neighbors have nonzero widths.
    Both,
}

/// Largest panel or bar dimension, in pixels (the X11 coordinate limit).
pub const MAX_DIM: i32 = 65535;

/// Information describing how to draw or redraw a [`Panel`].
///
/// Callbacks are owned by the renderer; this crate stores opaque handles
/// into the renderer's registry (`draw_fn` always, the lifecycle hooks
/// optionally) and tells the renderer when to invoke them.
#[derive(Clone, Copy, Debug, PartialEq, Eq)]
pub struct PanelDrawInfo {
    /// The width in pixels of the panel.
    pub width: i32,
    /// The height in pixels of the panel.
    pub height: i32,
    /// When the panel should be hidden.
    pub dependence: Dependence,
    /// Handle of the callback that draws the panel starting at x = 0.
    pub draw_fn: usize,
    /// Handle of the callback to run when the panel is shown.
    pub show_fn: Option<usize>,
    /// Handle of the callback to run when the panel is hidden.
    pub hide_fn: Option<usize>,
    /// Handle of the callback to run before the panel is destroyed.
    pub shutdown: Option<usize>,
}

impl PanelDrawInfo {
    /// Well-formed draw information: dimensions are non-negative and fit on
    /// an X11 surface.
    pub open spec fn wf(self) -> bool {
        0 <= self.width <= MAX_DIM && 0 <= self.height <= MAX_DIM
    }

    /// Creates new draw information from its components.
    pub fn new(
        dims: (i32, i32),
        dependence: Dependence,
        draw_fn: usize,
        show_fn: Option<usize>,
        hide_fn: Option<usize>,
        shutdown: Option<usize>,
    ) -> (r: Self)
        requires
            0 <= dims.0 <= MAX_DIM,
            0 <= dims.1 <= MAX_DIM,
        ensures
            r == (PanelDrawInfo {
                width: dims.0,
                height: dims.1,
                dependence,
                draw_fn,
                show_fn,
                hide_fn,
                shutdown,
            }),
            r.wf(),
    {
        PanelDrawInfo { width: dims.0, height: dims.1, dependence, draw_fn, show_fn, hide_fn, shutdown }
    }
}

/// The visibility status derived for one panel slot.
#[derive(Clone, Copy, Debug, PartialEq, Eq, Structural)]
pub enum PanelStatus {
    /// The panel is rendered.
    Shown,
    /// The panel occupies no space on this pass.
    ZeroWidth,
    /// The panel defers to the status of the named neighbor(s).
    Dependent(Dependence),
}

impl PanelStatus {
    /// Folds two statuses: only `Shown` with `Shown` survives.
    pub fn and(self, rhs: Self) -> (r: Self)
        ensures
            r == self.spec_and(rhs),
    {
        if self == PanelStatus::Shown && rhs == PanelStatus::Shown {
            PanelStatus::Shown
        } else {
            PanelStatus::ZeroWidth
        }
    }

    /// The folding rule used for `Both` dependence.
    pub open spec fn spec_and(self, rhs: Self) -> Self {
        if self == PanelStatus::Shown && rhs == PanelStatus::Shown {
            PanelStatus::Shown
        } else {
            PanelStatus::ZeroWidth
        }
    }

    /// The primary status of a panel: hidden or update-less panels occupy
    /// no space; an independent panel is shown exactly when its width is
    /// nonzero; a dependent panel defers to its neighbors.
    pub fn from_panel(p: &Panel) -> (s: Self)
        ensures
            s == primary_status(*p),
    {
        if !p.visible {
            return PanelStatus::ZeroWidth;
        }
        match p.draw_info {
            None => PanelStatus::ZeroWidth,
            Some(d) => match d.dependence {
                Dependence::Independent => if d.width == 0 {
                    PanelStatus::ZeroWidth
                } else {
                    PanelStatus::Shown
                },
                dep => PanelStatus::Dependent(dep),
            },
        }
    }
}

/// A panel on the bar.
pub struct Panel {
    /// How to draw the panel; absent until the panel's first update.
    pub draw_info: Option<PanelDrawInfo>,
    /// The last x-coordinate at which the panel was placed.  Meaningful
    /// only while the panel is currently shown.
    pub x: i64,
    /// The name of the panel, used for message addressing.
    pub name: String,
    /// Whether the panel is visible (mutable through messages).
    pub visible: bool,
    /// Whether the panel resolved to `Shown` on the previous pass; drives
    /// the show/hide lifecycle hooks on transitions only.
    pub last_status: bool,
    /// Handle of the panel's event endpoint, if the panel registered one.
    pub endpoint: Option<usize>,
}

impl Panel {
    /// A panel's coordinate stays well inside `i64` range so that layout
    /// arithmetic cannot overflow.
    pub open spec fn wf(self) -> bool {
        &&& match self.draw_info {
            Some(d) => d.wf(),
            None => true,
        }
        &&& -0x200_0000_0000 <= self.x <= 0x200_0000_0000
    }

    /// Creates a new panel.
    pub fn new(
        draw_info: Option<PanelDrawInfo>,
        name: String,
        endpoint: Option<usize>,
        visible: bool,
    ) -> (r: Self)
        ensures
            r == (Panel { draw_info, x: 0i64, name, visible, last_status: false, endpoint }),
    {
        Panel { draw_info, x: 0, name, visible, last_status: false, endpoint }
    }
}

/// The width a panel contributes to layout: its draw width, or zero while
/// it has produced no draw information.
pub open spec fn panel_width(p: Panel) -> int {
    match p.draw_info {
        Some(d) => d.width as int,
        None => 0,
    }
}

/// The primary status of a panel, before neighbor resolution.
pub open spec fn primary_status(p: Panel) -> PanelStatus {
    if !p.visible {
        PanelStatus::ZeroWidth
    } else {
        match p.draw_info {
            None => PanelStatus::ZeroWidth,
            Some(d) => match d.dependence {
                Dependence::Independent => if d.width == 0 {
                    PanelStatus::ZeroWidth
                } else {
                    PanelStatus::Shown
                },
                dep => PanelStatus::Dependent(dep),
            },
        }
    }
}

/// The primary status of the panel at `i`, or `ZeroWidth` out of range.
pub open spec fn neighbor_status(s: Seq<Panel>, i: int) -> PanelStatus {
    if 0 <= i < s.len() {
        primary_status(s[i])
    } else {
        PanelStatus::ZeroWidth
    }
}

/// The resolved status of the panel at `i`: its primary status, with a
/// dependence settled by the primary status of the named neighbor(s).
/// A neighbor that is itself dependent is taken at its primary status;
/// a missing neighbor counts as `ZeroWidth`.
pub open spec fn resolved_status(s: Seq<Panel>, i: int) -> PanelStatus {
    match primary_status(s[i]) {
        PanelStatus::Shown => PanelStatus::Shown,
        PanelStatus::ZeroWidth => PanelStatus::ZeroWidth,
        PanelStatus::Dependent(dep) => match dep {
            Dependence::Left => neighbor_status(s, i - 1),
            Dependence::Right => neighbor_status(s, i + 1),
            Dependence::Both => neighbor_status(s, i - 1).spec_and(neighbor_status(s, i + 1)),
            // primary_status never yields Dependent(Independent)
            Dependence::Independent => PanelStatus::ZeroWidth,
        },
    }
}

/// The statuses of a whole region, in order.
pub open spec fn resolve_seq(s: Seq<Panel>) -> Seq<PanelStatus> {
    Seq::new(s.len(), |i: int| resolved_status(s, i))
}

/// Whether the panel at `i` is rendered on this pass.
pub open spec fn is_shown(s: Seq<Panel>, i: int) -> bool {
    resolved_status(s, i) == PanelStatus::Shown
}

/// A shown panel always carries draw information.
pub proof fn lemma_shown_has_draw_info(s: Seq<Panel>, i: int)
    requires
        0 <= i < s.len(),
        is_shown(s, i),
    ensures
        s[i].draw_info is Some,
{
}

/// Sum of the widths of the panels marked `Shown` among the first `n`.
pub open spec fn shown_width_prefix(ps: Seq<Panel>, st: Seq<PanelStatus>, n: int) -> int
    decreases n,
{
    if n <= 0 {
        0
    } else {
        shown_width_prefix(ps, st, n - 1) + if st[n - 1] == PanelStatus::Shown {
            panel_width(ps[n - 1])
        } else {
            0
        }
    }
}

/// Sum of the widths of all panels of a region marked `Shown`.
pub open spec fn shown_width_sum(ps: Seq<Panel>, st: Seq<PanelStatus>) -> int {
    shown_width_prefix(ps, st, ps.len() as int)
}

/// The widths of shown prefixes are non-negative and bounded by the
/// region's length times the largest panel dimension.
pub proof fn lemma_shown_width_prefix_bounds(ps: Seq<Panel>, st: Seq<PanelStatus>, n: int)
    requires
        forall|i: int| 0 <= i < ps.len() ==> (#[trigger] ps[i]).wf(),
        0 <= n <= ps.len(),
    ensures
        0 <= shown_width_prefix(ps, st, n) <= n * (MAX_DIM as int),
    decreases n,
{
    if n > 0 {
        lemma_shown_width_prefix_bounds(ps, st, n - 1);
        assert((n - 1) * (MAX_DIM as int) + MAX_DIM as int == n * (MAX_DIM as int))
            by (nonlinear_arith);
    }
}


} // verus!
