//! The window registry: the ordered stack of normal windows, the single
//! optional menu window, the popup list, the layer collaborator, and the
//! outbound notification channel to the overlay launcher.
//!
//! Index 0 of the stack is the topmost, most recently activated window;
//! insertion always places the new window there. Dead entries are purged only
//! by an explicit [`WindowMap::refresh`] (or dropped wholesale by
//! [`WindowMap::clear`]); queries in between may observe stale entries. The
//! menu window never takes part in activation searches; it is drawn above
//! everything else exactly when `menu_on_top` holds.

use crate::backend::{tl_index_of, Backend, ToplevelEntry};
use crate::geometry::{point_box, IBox, Point, Rect, Size};
use crate::gui::ToUi;
use crate::handles::{Kind, PopupKind};
use crate::layer_map::{Layer, LayerMap};
use crate::seq_util::{first_where, lemma_first_where, lemma_first_where_is, lemma_first_where_none};
use crate::surface::{
    hit_matches, tree_box, tree_hit, tree_ids, walk_box, walk_frames, walk_hit,
};
use crate::geometry::COORD_LIMIT;
use std::sync::mpsc::Sender;
use vstd::prelude::*;

verus! {

#[verifier::external_type_specification]
#[verifier::external_body]
#[verifier::reject_recursive_types(T)]
pub struct ExSender<T>(Sender<T>);

/// Relies on `std::sync::mpsc::Sender::send`: a non-blocking send that
/// delivers the message to the receiver, or returns an error once the
/// receiver is gone; the registry's sends are fire-and-forget, so the error
/// is discarded.
#[verifier::external_body]
fn send_to_ui(tx: &Sender<ToUi>, on_top: bool) {
    let _ = tx.send(ToUi::SetMenuOnTop(on_top));
}

/// One tracked toplevel: its placement, the bounding box last derived from
/// its surface tree, and its handle.
#[derive(Clone, Copy, Debug)]
pub struct Window {
    pub location: Point,
    /// A bounding box over this window and its children, used for the fast
    /// path of the hit test and as the fall-back window geometry. Derived,
    /// not authoritative: it is recomputed on refresh and may go stale in
    /// between.
    pub bbox: Rect,
    pub toplevel: Kind,
}

/// One tracked popup; parentage and placement are read from the backend on
/// demand.
#[derive(Clone, Copy, Debug)]
pub struct Popup {
    pub popup: PopupKind,
}

/// The bounding box the registry derives for toplevel `k` placed at `loc`:
/// the union of `loc` itself with every mapped surface of the toplevel's
/// tree, or the degenerate box at `loc` while the toplevel has no surface.
pub open spec fn window_box(b: Backend, k: Kind, loc: Point) -> IBox {
    let acc = point_box(loc.x as int, loc.y as int);
    if b.has_toplevel(k.id_spec()) {
        match b.toplevel(k.id_spec()).surface {
            Some(t) => tree_box(t, loc.x as int, loc.y as int, acc),
            None => acc,
        }
    } else {
        acc
    }
}

impl Window {
    pub open spec fn wf(self) -> bool {
        self.location.wf() && self.bbox.wf()
    }

    /// The hit this window reports for a point: nothing when the point is
    /// outside the cached bounding box, else the first surface of the tree,
    /// in depth-first pre-order, whose input region contains the point.
    pub open spec fn window_hit(self, b: Backend, px: int, py: int) -> Option<(u64, (int, int))> {
        if !self.bbox.spec_contains(px, py) {
            None
        } else if b.has_toplevel(self.toplevel.id_spec()) {
            match b.toplevel(self.toplevel.id_spec()).surface {
                Some(t) => tree_hit(t, self.location.x as int, self.location.y as int, px, py),
                None => None,
            }
        } else {
            None
        }
    }

    /// Finds the topmost surface under the point, if any, together with the
    /// location of that surface.
    pub fn matching(&self, b: &Backend, point: Point) -> (r: Option<(u64, Point)>)
        requires
            self.wf(),
            b.wf(),
            point.in_span(),
        ensures
            hit_matches(r, self.window_hit(*b, point.x as int, point.y as int)),
    {
        if !self.bbox.contains(point) {
            return None;
        }
        match b.find_toplevel(self.toplevel.id()) {
            None => None,
            Some(i) => {
                match &b.toplevels[i].surface {
                    None => None,
                    Some(tree) => {
                        proof {
                            assert(b.toplevels@[i as int].wf());
                            assert(COORD_LIMIT * (COORD_LIMIT + 1 - crate::surface::node_count(
                                *tree,
                            ) as int) >= COORD_LIMIT);
                        }
                        walk_hit(tree, self.location.x, self.location.y, point)
                    },
                }
            },
        }
    }

    /// Recomputes the bounding box from the toplevel's current surface tree.
    pub fn self_update(&mut self, b: &Backend)
        requires
            old(self).wf(),
            b.wf(),
        ensures
            final (self).location == old(self).location,
            final (self).toplevel == old(self).toplevel,
            final (self).bbox.view_box() == window_box(*b, old(self).toplevel, old(self).location),
            final (self).wf(),
    {
        let acc = Rect { loc: self.location, size: Size { w: 0, h: 0 } };
        let bbox = match b.find_toplevel(self.toplevel.id()) {
            None => acc,
            Some(i) => {
                match &b.toplevels[i].surface {
                    None => acc,
                    Some(tree) => {
                        proof {
                            assert(b.toplevels@[i as int].wf());
                            assert(COORD_LIMIT * (COORD_LIMIT + 1 - crate::surface::node_count(
                                *tree,
                            ) as int) >= COORD_LIMIT);
                        }
                        walk_box(tree, self.location.x, self.location.y, acc)
                    },
                }
            },
        };
        self.bbox = bbox;
    }

    /// The geometry of this window: the protocol-declared rectangle when the
    /// client set one, with the bounding box as the fall-back.
    pub open spec fn geometry_spec(self, b: Backend) -> Rect {
        match b.toplevel(self.toplevel.id_spec()).geometry {
            Some(g) => g,
            None => self.bbox,
        }
    }

    /// Returns the geometry of this window. The window's surface must still
    /// exist: the protocol state of a destroyed surface cannot be read.
    pub fn geometry(&self, b: &Backend) -> (r: Rect)
        requires
            self.wf(),
            b.wf(),
            self.toplevel.spec_surface(*b) is Some,
        ensures
            r == self.geometry_spec(*b),
            r.wf(),
    {
        let i = b.find_toplevel(self.toplevel.id()).unwrap();
        proof {
            assert(b.toplevels@[i as int].wf());
        }
        match b.toplevels[i].geometry {
            Some(g) => g,
            None => self.bbox,
        }
    }

    /// Sends the frame notification to every surface of this window's tree.
    pub fn send_frame(&self, b: &mut Backend, time: u32)
        ensures
            final (b).toplevels@ == old(b).toplevels@,
            final (b).popups@ == old(b).popups@,
            final (b).configures@ == old(b).configures@,
            final (b).frames@ == old(b).frames@ + window_frames(
                old(b).toplevels@,
                self.toplevel,
                time,
            ),
    {
        match b.find_toplevel(self.toplevel.id()) {
            None => {},
            Some(i) => {
                match &b.toplevels[i].surface {
                    None => {},
                    Some(tree) => {
                        walk_frames(tree, time, &mut b.frames);
                    },
                }
            },
        }
    }
}

/// The frame notifications one window's tree receives: `(id, time)` for
/// every surface of the tree, in depth-first pre-order.
pub open spec fn window_frames(tls: Seq<ToplevelEntry>, k: Kind, time: u32) -> Seq<(u64, u32)> {
    let i = tl_index_of(tls, k.id_spec());
    if i >= 0 {
        match tls[i].surface {
            Some(t) => tree_ids(t).map_values(|id: u64| (id, time)),
            None => Seq::empty(),
        }
    } else {
        Seq::empty()
    }
}

/// An executable hit result, lifted to the spec-level shape.
pub open spec fn lift_hit(h: Option<(u64, Point)>) -> Option<(u64, (int, int))> {
    match h {
        None => None,
        Some((s, p)) => Some((s, (p.x as int, p.y as int))),
    }
}

/// The first hit over a stack of windows, topmost first.
pub open spec fn windows_hit(s: Seq<Window>, b: Backend, px: int, py: int) -> Option<
    (u64, (int, int)),
>
    decreases s.len(),
{
    if s.len() == 0 {
        None
    } else if s[0].window_hit(b, px, py) is Some {
        s[0].window_hit(b, px, py)
    } else {
        windows_hit(s.drop_first(), b, px, py)
    }
}

/// One activation change, as [`Kind::set_activated`] performs it, applied to
/// the backend's toplevel entries and configure log.
pub open spec fn apply_activation(
    tls: Seq<ToplevelEntry>,
    log: Seq<(u64, bool)>,
    k: Kind,
    active: bool,
) -> (Seq<ToplevelEntry>, Seq<(u64, bool)>) {
    let i = tl_index_of(tls, k.id_spec());
    if k.is_xdg() && i >= 0 {
        let e = tls[i];
        (
            tls.update(i, ToplevelEntry { activated: active, ..e }),
            if e.activated != active {
                log.push((k.id_spec(), active))
            } else {
                log
            },
        )
    } else {
        (tls, log)
    }
}

/// Deactivation of every window of `ws`, in stacking order.
pub open spec fn deactivate_fold(
    tls: Seq<ToplevelEntry>,
    log: Seq<(u64, bool)>,
    ws: Seq<Window>,
) -> (Seq<ToplevelEntry>, Seq<(u64, bool)>)
    decreases ws.len(),
{
    if ws.len() == 0 {
        (tls, log)
    } else {
        let next = apply_activation(tls, log, ws[0].toplevel, false);
        deactivate_fold(next.0, next.1, ws.drop_first())
    }
}

/// How promoting the window at stack index `id` relates the registry and the
/// backend after the call to their values before it: the window moves to
/// index 0 with the relative order of the others unchanged, every other
/// normal window is deactivated, and the promoted window is activated.
pub open spec fn promote_post(
    pre_self: WindowMap,
    post_self: WindowMap,
    pre_b: Backend,
    post_b: Backend,
    id: int,
) -> bool {
    let winner = pre_self.windows@[id];
    let rest = pre_self.windows@.remove(id);
    let d = deactivate_fold(pre_b.toplevels@, pre_b.configures@, rest);
    let f = apply_activation(d.0, d.1, winner.toplevel, true);
    &&& post_self.windows@ == seq![winner] + rest
    &&& post_self.popups@ == pre_self.popups@
    &&& post_self.menu_window == pre_self.menu_window
    &&& post_self.menu_on_top == pre_self.menu_on_top
    &&& post_self.layers == pre_self.layers
    &&& post_self.notices@ == pre_self.notices@
    &&& post_b.toplevels@ == f.0
    &&& post_b.configures@ == f.1
    &&& post_b.popups@ == pre_b.popups@
    &&& post_b.frames@ == pre_b.frames@
}

/// Neither the registry nor the backend changed.
pub open spec fn unchanged_pair(
    pre_self: WindowMap,
    post_self: WindowMap,
    pre_b: Backend,
    post_b: Backend,
) -> bool {
    &&& post_self.windows@ == pre_self.windows@
    &&& post_self.popups@ == pre_self.popups@
    &&& post_self.menu_window == pre_self.menu_window
    &&& post_self.menu_on_top == pre_self.menu_on_top
    &&& post_self.layers == pre_self.layers
    &&& post_self.notices@ == pre_self.notices@
    &&& post_b.toplevels@ == pre_b.toplevels@
    &&& post_b.configures@ == pre_b.configures@
    &&& post_b.popups@ == pre_b.popups@
    &&& post_b.frames@ == pre_b.frames@
}

/// The window registry.
pub struct WindowMap {
    pub windows: Vec<Window>,
    pub popups: Vec<Popup>,
    pub menu_window: Option<Window>,
    pub menu_on_top: bool,
    pub layers: LayerMap,
    /// The sending end of the notification channel to the overlay launcher.
    pub tx: Sender<ToUi>,
    /// The flags sent on the notification channel so far, oldest first.
    pub notices: Ghost<Seq<bool>>,
}

impl WindowMap {
    pub open spec fn wf(self) -> bool {
        &&& forall|i: int| 0 <= i < self.windows@.len() ==> (#[trigger] self.windows@[i]).wf()
        &&& match self.menu_window {
            Some(w) => w.wf(),
            None => true,
        }
        &&& self.layers.wf()
    }

    /// The handles of the normal stack, topmost first.
    pub open spec fn toplevels_seq(self) -> Seq<Kind> {
        self.windows@.map_values(|w: Window| w.toplevel)
    }

    pub fn new(tx: Sender<ToUi>) -> (r: WindowMap)
        ensures
            r.windows@ =~= Seq::<Window>::empty(),
            r.popups@ =~= Seq::<Popup>::empty(),
            r.menu_window is None,
            r.menu_on_top == true,
            r.layers.surfaces@ =~= Seq::<crate::layer_map::LayerSurface>::empty(),
            r.notices@ =~= Seq::<bool>::empty(),
            r.wf(),
    {
        WindowMap {
            menu_on_top: true,
            windows: Vec::new(),
            popups: Vec::new(),
            menu_window: None,
            layers: LayerMap::new(),
            tx,
            notices: Ghost(Seq::empty()),
        }
    }

    /// Tracks a newly mapped toplevel: derives its bounding box and places it
    /// at the top of the stack.
    pub fn insert(&mut self, b: &Backend, toplevel: Kind, location: Point)
        requires
            old(self).wf(),
            b.wf(),
            location.wf(),
        ensures
            final (self).windows@.len() == old(self).windows@.len() + 1,
            final (self).windows@[0].toplevel == toplevel,
            final (self).windows@[0].location == location,
            final (self).windows@[0].bbox.view_box() == window_box(*b, toplevel, location),
            final (self).windows@.skip(1) == old(self).windows@,
            final (self).popups@ == old(self).popups@,
            final (self).menu_window == old(self).menu_window,
            final (self).menu_on_top == old(self).menu_on_top,
            final (self).layers == old(self).layers,
            final (self).notices@ == old(self).notices@,
            final (self).wf(),
    {
        let mut window = Window {
            location,
            bbox: Rect { loc: location, size: Size { w: 0, h: 0 } },
            toplevel,
        };
        window.self_update(b);
        self.windows.insert(0, window);
        proof {
            assert(self.windows@.skip(1) =~= old(self).windows@);
            assert forall|i: int| 0 <= i < self.windows@.len() implies (
            #[trigger] self.windows@[i]).wf() by {
                if i > 0 {
                    assert(self.windows@[i] == old(self).windows@[i - 1]);
                }
            }
        }
    }

    /// Replaces the singular menu-window slot.
    pub fn set_menu_window(&mut self, b: &Backend, toplevel: Kind, location: Point)
        requires
            old(self).wf(),
            b.wf(),
            location.wf(),
        ensures
            final (self).menu_window is Some,
            final (self).menu_window->0.toplevel == toplevel,
            final (self).menu_window->0.location == location,
            final (self).menu_window->0.bbox.view_box() == window_box(*b, toplevel, location),
            final (self).windows@ == old(self).windows@,
            final (self).popups@ == old(self).popups@,
            final (self).menu_on_top == old(self).menu_on_top,
            final (self).layers == old(self).layers,
            final (self).notices@ == old(self).notices@,
            final (self).wf(),
    {
        let mut window = Window {
            location,
            bbox: Rect { loc: location, size: Size { w: 0, h: 0 } },
            toplevel,
        };
        window.self_update(b);
        self.menu_window = Some(window);
    }

    /// Stores the menu-visibility flag and tells the overlay launcher.
    pub fn set_menu_on_top(&mut self, on_top: bool)
        ensures
            final (self).menu_on_top == on_top,
            final (self).notices@ == old(self).notices@.push(on_top),
            final (self).windows@ == old(self).windows@,
            final (self).popups@ == old(self).popups@,
            final (self).menu_window == old(self).menu_window,
            final (self).layers == old(self).layers,
            old(self).wf() ==> final (self).wf(),
    {
        self.menu_on_top = on_top;
        send_to_ui(&self.tx, on_top);
        self.notices = Ghost(self.notices@.push(on_top));
    }

    /// The handles of every tracked window: the normal stack topmost first,
    /// then the menu window if one is set.
    pub fn window_toplevels(&self) -> (r: Vec<Kind>)
        ensures
            r@ == self.toplevels_seq() + match self.menu_window {
                Some(w) => seq![w.toplevel],
                None => Seq::<Kind>::empty(),
            },
    {
        let ghost f = |w: Window| w.toplevel;
        let mut r: Vec<Kind> = Vec::new();
        let n = self.windows.len();
        let mut i: usize = 0;
        proof {
            assert(r@ =~= self.windows@.take(0).map_values(f));
        }
        while i < n
            invariant
                n == self.windows@.len(),
                0 <= i <= n,
                r@ == self.windows@.take(i as int).map_values(f),
                f == (|w: Window| w.toplevel),
            decreases n - i,
        {
            r.push(self.windows[i].toplevel);
            proof {
                assert(r@ =~= self.windows@.take(i as int + 1).map_values(f));
            }
            i = i + 1;
        }
        proof {
            assert(self.windows@.take(n as int) =~= self.windows@);
        }
        match &self.menu_window {
            Some(w) => {
                r.push(w.toplevel);
                proof {
                    assert(r@ =~= self.toplevels_seq() + seq![self.menu_window->0.toplevel]);
                }
            },
            None => {
                proof {
                    assert(r@ =~= self.toplevels_seq() + Seq::<Kind>::empty());
                }
            },
        }
        r
    }

    /// Number of normal windows.
    pub fn windows_len(&self) -> (r: usize)
        ensures
            r == self.windows@.len(),
    {
        self.windows.len()
    }

    /// Tracks a newly mapped popup at the end of the popup list.
    pub fn insert_popup(&mut self, popup: PopupKind)
        ensures
            final (self).popups@ == old(self).popups@.push(Popup { popup }),
            final (self).windows@ == old(self).windows@,
            final (self).menu_window == old(self).menu_window,
            final (self).menu_on_top == old(self).menu_on_top,
            final (self).layers == old(self).layers,
            final (self).notices@ == old(self).notices@,
            old(self).wf() ==> final (self).wf(),
    {
        let popup = Popup { popup };
        self.popups.push(popup);
    }

    /// What a spatial query returns: the first hit in the order overlay
    /// layer, top layer, normal windows topmost first, bottom layer,
    /// background layer.
    pub open spec fn surface_under_spec(self, b: Backend, px: int, py: int) -> Option<
        (u64, (int, int)),
    > {
        if self.layers.layer_hit(Layer::Overlay, px, py) is Some {
            lift_hit(self.layers.layer_hit(Layer::Overlay, px, py))
        } else if self.layers.layer_hit(Layer::Top, px, py) is Some {
            lift_hit(self.layers.layer_hit(Layer::Top, px, py))
        } else if windows_hit(self.windows@, b, px, py) is Some {
            windows_hit(self.windows@, b, px, py)
        } else if self.layers.layer_hit(Layer::Bottom, px, py) is Some {
            lift_hit(self.layers.layer_hit(Layer::Bottom, px, py))
        } else {
            lift_hit(self.layers.layer_hit(Layer::Background, px, py))
        }
    }

    /// The topmost surface under the point, over all bands and windows.
    pub fn get_surface_under(&self, b: &Backend, point: Point) -> (r: Option<(u64, Point)>)
        requires
            self.wf(),
            b.wf(),
            point.in_span(),
        ensures
            hit_matches(r, self.surface_under_spec(*b, point.x as int, point.y as int)),
    {
        if let Some(res) = self.layers.get_surface_under(&Layer::Overlay, point) {
            return Some(res);
        }
        if let Some(res) = self.layers.get_surface_under(&Layer::Top, point) {
            return Some(res);
        }
        let ghost px = point.x as int;
        let ghost py = point.y as int;
        proof {
            assert(self.windows@.skip(0) =~= self.windows@);
        }
        let n = self.windows.len();
        let mut i: usize = 0;
        while i < n
            invariant
                n == self.windows@.len(),
                0 <= i <= n,
                self.wf(),
                b.wf(),
                point.in_span(),
                px == point.x as int,
                py == point.y as int,
                self.layers.layer_hit(Layer::Overlay, px, py) is None,
                self.layers.layer_hit(Layer::Top, px, py) is None,
                windows_hit(self.windows@.skip(i as int), *b, px, py) == windows_hit(
                    self.windows@,
                    *b,
                    px,
                    py,
                ),
            decreases n - i,
        {
            proof {
                assert(self.windows@.skip(i as int)[0] == self.windows@[i as int]);
                assert(self.windows@.skip(i as int).drop_first() =~= self.windows@.skip(
                    i as int + 1,
                ));
            }
            let w = self.windows[i];
            if let Some(res) = w.matching(b, point) {
                return Some(res);
            }
            i = i + 1;
        }
        proof {
            assert(self.windows@.skip(n as int) =~= Seq::<Window>::empty());
        }
        if let Some(res) = self.layers.get_surface_under(&Layer::Bottom, point) {
            return Some(res);
        }
        if let Some(res) = self.layers.get_surface_under(&Layer::Background, point) {
            return Some(res);
        }
        None
    }

    /// Promotes the window at stack index `id`: removes it, deactivates every
    /// remaining normal window, activates it, and reinserts it at index 0.
    fn bring_nth_window_to_top(&mut self, b: &mut Backend, id: usize)
        requires
            old(self).wf(),
            id < old(self).windows@.len(),
        ensures
            promote_post(*old(self), *final (self), *old(b), *final (b), id as int),
            final (self).wf(),
    {
        let winner = self.windows.remove(id);
        let ghost rest = self.windows@;
        proof {
            assert(rest.skip(0) =~= rest);
            assert forall|j: int| 0 <= j < rest.len() implies (#[trigger] rest[j]).wf() by {
                assert(rest[j] == if j < id { old(self).windows@[j] } else {
                    old(self).windows@[j + 1]
                });
            }
        }
        let n = self.windows.len();
        let mut i: usize = 0;
        while i < n
            invariant
                n == rest.len(),
                0 <= i <= n,
                self.windows@ == rest,
                deactivate_fold(b.toplevels@, b.configures@, rest.skip(i as int))
                    == deactivate_fold(old(b).toplevels@, old(b).configures@, rest),
                b.popups@ == old(b).popups@,
                b.frames@ == old(b).frames@,
            decreases n - i,
        {
            let ghost t0 = b.toplevels@;
            let ghost l0 = b.configures@;
            let k = self.windows[i].toplevel;
            k.set_activated(b, false);
            proof {
                assert((b.toplevels@, b.configures@) == apply_activation(t0, l0, k, false));
                assert(rest.skip(i as int)[0] == rest[i as int]);
                assert(rest.skip(i as int).drop_first() =~= rest.skip(i as int + 1));
            }
            i = i + 1;
        }
        proof {
            assert(rest.skip(n as int) =~= Seq::<Window>::empty());
        }
        let ghost t0 = b.toplevels@;
        let ghost l0 = b.configures@;
        winner.toplevel.set_activated(b, true);
        proof {
            assert((b.toplevels@, b.configures@) == apply_activation(t0, l0, winner.toplevel, true));
        }
        self.windows.insert(0, winner);
        proof {
            assert(self.windows@ =~= seq![winner] + rest);
            assert forall|j: int| 0 <= j < self.windows@.len() implies (
            #[trigger] self.windows@[j]).wf() by {
                if j > 0 {
                    assert(self.windows@[j] == rest[j - 1]);
                }
            }
        }
    }

    /// Index of the first normal window owning `surface`, or `-1`.
    pub open spec fn owner_index(self, b: Backend, surface: u64) -> int {
        first_where(self.windows@, |w: Window| w.toplevel.spec_surface(b) == Some(surface))
    }

    /// Finds the normal window owning `surface` and promotes it; a no-op if
    /// no normal window owns it (the menu window is never promoted).
    pub fn bring_surface_to_top(&mut self, b: &mut Backend, surface: u64)
        requires
            old(self).wf(),
        ensures
            ({
                let i = old(self).owner_index(*old(b), surface);
                if i >= 0 {
                    promote_post(*old(self), *final (self), *old(b), *final (b), i)
                } else {
                    unchanged_pair(*old(self), *final (self), *old(b), *final (b))
                }
            }),
            final (self).wf(),
    {
        let ghost p = |w: Window| w.toplevel.spec_surface(*old(b)) == Some(surface);
        let n = self.windows.len();
        let mut i: usize = 0;
        while i < n
            invariant
                n == self.windows@.len(),
                0 <= i <= n,
                self.wf(),
                *self == *old(self),
                *b == *old(b),
                forall|j: int| 0 <= j < i ==> !p(#[trigger] self.windows@[j]),
                p == (|w: Window| w.toplevel.spec_surface(*old(b)) == Some(surface)),
            decreases n - i,
        {
            let found = match self.windows[i].toplevel.get_surface(b) {
                Some(s) => s == surface,
                None => false,
            };
            if found {
                proof {
                    lemma_first_where_is(self.windows@, p, i as int);
                }
                self.bring_nth_window_to_top(b, i);
                return ;
            }
            i = i + 1;
        }
        proof {
            lemma_first_where_none(self.windows@, p);
        }
    }

    /// Index of the first normal window hit by the point, or `-1`.
    pub open spec fn hit_index(self, b: Backend, px: int, py: int) -> int {
        first_where(self.windows@, |w: Window| w.window_hit(b, px, py) is Some)
    }

    /// Hit-tests the normal windows only, topmost first; promotes the first
    /// window hit and returns the matched surface with its location.
    pub fn get_surface_and_bring_to_top(&mut self, b: &mut Backend, point: Point) -> (r: Option<
        (u64, Point),
    >)
        requires
            old(self).wf(),
            old(b).wf(),
            point.in_span(),
        ensures
            ({
                let i = old(self).hit_index(*old(b), point.x as int, point.y as int);
                if i >= 0 {
                    &&& promote_post(*old(self), *final (self), *old(b), *final (b), i)
                    &&& hit_matches(
                        r,
                        old(self).windows@[i].window_hit(*old(b), point.x as int, point.y as int),
                    )
                } else {
                    &&& r is None
                    &&& unchanged_pair(*old(self), *final (self), *old(b), *final (b))
                }
            }),
            final (self).wf(),
    {
        let ghost p = |w: Window| w.window_hit(*old(b), point.x as int, point.y as int) is Some;
        let n = self.windows.len();
        let mut i: usize = 0;
        while i < n
            invariant
                n == self.windows@.len(),
                0 <= i <= n,
                self.wf(),
                b.wf(),
                point.in_span(),
                *self == *old(self),
                *b == *old(b),
                forall|j: int| 0 <= j < i ==> !p(#[trigger] self.windows@[j]),
                p == (|w: Window| w.window_hit(*old(b), point.x as int, point.y as int) is Some),
            decreases n - i,
        {
            let w = self.windows[i];
            if let Some(found) = w.matching(b, point) {
                proof {
                    lemma_first_where_is(self.windows@, p, i as int);
                }
                self.bring_nth_window_to_top(b, i);
                return Some(found);
            }
            i = i + 1;
        }
        proof {
            lemma_first_where_none(self.windows@, p);
        }
        None
    }

    /// The visit list of the normal windows in reverse stacking order
    /// (bottom first), with the menu window last when it is on top.
    pub fn with_windows_from_bottom_to_top(&self) -> (r: Vec<(Kind, Point, Rect)>)
        ensures
            r@ == self.windows@.reverse().map_values(
                |w: Window| (w.toplevel, w.location, w.bbox),
            ) + if self.menu_on_top {
                match self.menu_window {
                    Some(w) => seq![(w.toplevel, w.location, w.bbox)],
                    None => Seq::<(Kind, Point, Rect)>::empty(),
                }
            } else {
                Seq::<(Kind, Point, Rect)>::empty()
            },
    {
        let ghost g = |w: Window| (w.toplevel, w.location, w.bbox);
        let mut r: Vec<(Kind, Point, Rect)> = Vec::new();
        let n = self.windows.len();
        let mut i: usize = 0;
        proof {
            assert(r@ =~= self.windows@.reverse().take(0).map_values(g));
        }
        while i < n
            invariant
                n == self.windows@.len(),
                0 <= i <= n,
                r@ == self.windows@.reverse().take(i as int).map_values(g),
                g == (|w: Window| (w.toplevel, w.location, w.bbox)),
            decreases n - i,
        {
            let w = self.windows[n - 1 - i];
            r.push((w.toplevel, w.location, w.bbox));
            proof {
                assert(self.windows@.reverse()[i as int] == self.windows@[n - 1 - i]);
                assert(r@ =~= self.windows@.reverse().take(i as int + 1).map_values(g));
            }
            i = i + 1;
        }
        proof {
            assert(self.windows@.reverse().take(n as int) =~= self.windows@.reverse());
        }
        if self.menu_on_top {
            match &self.menu_window {
                Some(w) => {
                    r.push((w.toplevel, w.location, w.bbox));
                    proof {
                        assert(r@ =~= self.windows@.reverse().map_values(g) + seq![
                            (
                                self.menu_window->0.toplevel,
                                self.menu_window->0.location,
                                self.menu_window->0.bbox,
                            ),
                        ]);
                    }
                },
                None => {
                    proof {
                        assert(r@ =~= self.windows@.reverse().map_values(g) + Seq::<
                            (Kind, Point, Rect),
                        >::empty());
                    }
                },
            }
        } else {
            proof {
                assert(r@ =~= self.windows@.reverse().map_values(g) + Seq::<
                    (Kind, Point, Rect),
                >::empty());
            }
        }
        r
    }

    /// The window drawn on top: the menu window when `menu_on_top` (none at
    /// all if no menu window is set then), else the frontmost normal window.
    pub open spec fn top_window_spec(self) -> Option<Window> {
        if self.menu_on_top {
            self.menu_window
        } else if self.windows@.len() > 0 {
            Some(self.windows@[0])
        } else {
            None
        }
    }

    /// The single visit of the top window, if there is one.
    pub fn with_top_window(&self) -> (r: Option<(Kind, Point, Rect)>)
        ensures
            r == match self.top_window_spec() {
                Some(w) => Some((w.toplevel, w.location, w.bbox)),
                None => None::<(Kind, Point, Rect)>,
            },
    {
        if self.menu_on_top {
            match &self.menu_window {
                Some(w) => Some((w.toplevel, w.location, w.bbox)),
                None => None,
            }
        } else if self.windows.len() > 0 {
            let w = self.windows[0];
            Some((w.toplevel, w.location, w.bbox))
        } else {
            None
        }
    }

    /// The visit list of the popups whose parent surface is `base`, in
    /// reverse insertion order; popups whose surface is gone have no parent.
    pub fn with_child_popups(&self, b: &Backend, base: u64) -> (r: Vec<PopupKind>)
        ensures
            r@ == child_popups(self.popups@, *b, base),
    {
        let mut r: Vec<PopupKind> = Vec::new();
        let mut i: usize = self.popups.len();
        proof {
            assert(self.popups@.take(i as int) =~= self.popups@);
            assert(child_popups(self.popups@, *b, base) =~= r@ + child_popups(
                self.popups@.take(i as int),
                *b,
                base,
            ));
        }
        while i > 0
            invariant
                0 <= i <= self.popups@.len(),
                child_popups(self.popups@, *b, base) == r@ + child_popups(
                    self.popups@.take(i as int),
                    *b,
                    base,
                ),
            decreases i,
        {
            i = i - 1;
            let pk = self.popups[i].popup;
            let is_child = match pk.parent(b) {
                Some(pp) => pp == base,
                None => false,
            };
            proof {
                assert(self.popups@.take(i as int + 1).drop_last() =~= self.popups@.take(i as int));
                assert(self.popups@.take(i as int + 1).last() == self.popups@[i as int]);
            }
            let ghost r0 = r@;
            if is_child {
                r.push(pk);
                proof {
                    assert(r@ =~= r0 + seq![pk]);
                    assert(r0 + (seq![pk] + child_popups(self.popups@.take(i as int), *b, base))
                        =~= r@ + child_popups(self.popups@.take(i as int), *b, base));
                }
            } else {
                proof {
                    assert(r0 + (Seq::<PopupKind>::empty() + child_popups(
                        self.popups@.take(i as int),
                        *b,
                        base,
                    )) =~= r@ + child_popups(self.popups@.take(i as int), *b, base));
                }
            }
        }
        proof {
            assert(self.popups@.take(0) =~= Seq::<Popup>::empty());
            assert(child_popups(Seq::<Popup>::empty(), *b, base) =~= Seq::<PopupKind>::empty());
            assert(r@ + Seq::<PopupKind>::empty() =~= r@);
        }
        r
    }

    /// The toplevel owning `surface`, searched over the normal stack and then
    /// the menu window.
    pub open spec fn find_spec(self, b: Backend, surface: u64) -> Option<Kind> {
        let i = self.owner_index(b, surface);
        if i >= 0 {
            Some(self.windows@[i].toplevel)
        } else {
            match self.menu_window {
                Some(w) => if w.toplevel.spec_surface(b) == Some(surface) {
                    Some(w.toplevel)
                } else {
                    None
                },
                None => None,
            }
        }
    }

    /// Finds the toplevel corresponding to the given surface.
    pub fn find(&self, b: &Backend, surface: u64) -> (r: Option<Kind>)
        ensures
            r == self.find_spec(*b, surface),
    {
        let ghost p = |w: Window| w.toplevel.spec_surface(*b) == Some(surface);
        let n = self.windows.len();
        let mut i: usize = 0;
        while i < n
            invariant
                n == self.windows@.len(),
                0 <= i <= n,
                forall|j: int| 0 <= j < i ==> !p(#[trigger] self.windows@[j]),
                p == (|w: Window| w.toplevel.spec_surface(*b) == Some(surface)),
            decreases n - i,
        {
            let found = match self.windows[i].toplevel.get_surface(b) {
                Some(s) => s == surface,
                None => false,
            };
            if found {
                proof {
                    lemma_first_where_is(self.windows@, p, i as int);
                }
                return Some(self.windows[i].toplevel);
            }
            i = i + 1;
        }
        proof {
            lemma_first_where_none(self.windows@, p);
        }
        match &self.menu_window {
            Some(w) => {
                let found = match w.toplevel.get_surface(b) {
                    Some(s) => s == surface,
                    None => false,
                };
                if found {
                    Some(w.toplevel)
                } else {
                    None
                }
            },
            None => None,
        }
    }

    /// The popup owning `surface`.
    pub open spec fn find_popup_spec(self, b: Backend, surface: u64) -> Option<PopupKind> {
        let i = first_where(self.popups@, |p: Popup| p.popup.spec_surface(b) == Some(surface));
        if i >= 0 {
            Some(self.popups@[i].popup)
        } else {
            None
        }
    }

    /// Finds the popup corresponding to the given surface.
    pub fn find_popup(&self, b: &Backend, surface: u64) -> (r: Option<PopupKind>)
        ensures
            r == self.find_popup_spec(*b, surface),
    {
        let ghost p = |q: Popup| q.popup.spec_surface(*b) == Some(surface);
        let n = self.popups.len();
        let mut i: usize = 0;
        while i < n
            invariant
                n == self.popups@.len(),
                0 <= i <= n,
                forall|j: int| 0 <= j < i ==> !p(#[trigger] self.popups@[j]),
                p == (|q: Popup| q.popup.spec_surface(*b) == Some(surface)),
            decreases n - i,
        {
            let found = match self.popups[i].popup.get_surface(b) {
                Some(s) => s == surface,
                None => false,
            };
            if found {
                proof {
                    lemma_first_where_is(self.popups@, p, i as int);
                }
                return Some(self.popups[i].popup);
            }
            i = i + 1;
        }
        proof {
            lemma_first_where_none(self.popups@, p);
        }
        None
    }

    /// Index of the first normal window with this handle, or `-1`.
    pub open spec fn chain_index(self, t: Kind) -> int {
        first_where(self.windows@, |w: Window| w.toplevel == t)
    }

    /// The record tracked for this handle: the first matching normal window,
    /// else the menu window if it matches.
    pub open spec fn found_window(self, t: Kind) -> Option<Window> {
        if self.chain_index(t) >= 0 {
            Some(self.windows@[self.chain_index(t)])
        } else {
            match self.menu_window {
                Some(w) => if w.toplevel == t {
                    Some(w)
                } else {
                    None
                },
                None => None,
            }
        }
    }

    fn chain_lookup(&self, toplevel: &Kind) -> (r: Option<usize>)
        ensures
            match r {
                Some(i) => self.chain_index(*toplevel) == i as int && i < self.windows@.len(),
                None => self.chain_index(*toplevel) == -1,
            },
    {
        let ghost p = |w: Window| w.toplevel == *toplevel;
        let n = self.windows.len();
        let mut i: usize = 0;
        while i < n
            invariant
                n == self.windows@.len(),
                0 <= i <= n,
                forall|j: int| 0 <= j < i ==> !p(#[trigger] self.windows@[j]),
                p == (|w: Window| w.toplevel == *toplevel),
            decreases n - i,
        {
            if self.windows[i].toplevel == *toplevel {
                proof {
                    lemma_first_where_is(self.windows@, p, i as int);
                }
                return Some(i);
            }
            i = i + 1;
        }
        proof {
            lemma_first_where_none(self.windows@, p);
        }
        None
    }

    /// Returns the location of the toplevel, if the registry tracks it.
    pub fn location(&self, toplevel: &Kind) -> (r: Option<Point>)
        ensures
            r == match self.found_window(*toplevel) {
                Some(w) => Some(w.location),
                None => None::<Point>,
            },
    {
        match self.chain_lookup(toplevel) {
            Some(i) => Some(self.windows[i].location),
            None => {
                match &self.menu_window {
                    Some(w) => {
                        if w.toplevel == *toplevel {
                            Some(w.location)
                        } else {
                            None
                        }
                    },
                    None => None,
                }
            },
        }
    }

    /// Sets the location of the first matching normal window (the menu window
    /// keeps its own placement) and recomputes that window's bounding box.
    pub fn set_location(&mut self, b: &Backend, toplevel: &Kind, location: Point)
        requires
            old(self).wf(),
            b.wf(),
            location.wf(),
        ensures
            set_location_post(*old(self), *final (self), *b, *toplevel, location),
            final (self).wf(),
    {
        match self.chain_lookup(toplevel) {
            Some(i) => {
                let mut w = self.windows[i];
                w.location = location;
                w.self_update(b);
                self.windows[i] = w;
                proof {
                    assert forall|j: int| 0 <= j < self.windows@.len() implies (
                    #[trigger] self.windows@[j]).wf() by {
                        if j != i as int {
                            assert(self.windows@[j] == old(self).windows@[j]);
                        }
                    }
                }
            },
            None => {},
        }
    }

    /// Returns the geometry of the toplevel, if the registry tracks it: the
    /// protocol-declared rectangle, with the bounding box as the fall-back.
    /// A tracked window's surface must still exist to be asked.
    pub fn geometry(&self, b: &Backend, toplevel: &Kind) -> (r: Option<Rect>)
        requires
            self.wf(),
            b.wf(),
            match self.found_window(*toplevel) {
                Some(w) => w.toplevel.spec_surface(*b) is Some,
                None => true,
            },
        ensures
            r == match self.found_window(*toplevel) {
                Some(w) => Some(w.geometry_spec(*b)),
                None => None::<Rect>,
            },
    {
        match self.chain_lookup(toplevel) {
            Some(i) => {
                proof {
                    lemma_first_where(self.windows@, |w: Window| w.toplevel == *toplevel);
                }
                Some(self.windows[i].geometry(b))
            },
            None => {
                match &self.menu_window {
                    Some(w) => {
                        if w.toplevel == *toplevel {
                            Some(w.geometry(b))
                        } else {
                            None
                        }
                    },
                    None => None,
                }
            },
        }
    }
}

impl WindowMap {
    /// Purges dead windows and popups, delegates the layer refresh, and
    /// recomputes every surviving bounding box. When the purge removes the
    /// last normal window — and only then — the menu is forced on top and one
    /// notification goes out: a refresh that changes nothing sends nothing.
    pub fn refresh(&mut self, b: &Backend)
        requires
            old(self).wf(),
            b.wf(),
        ensures
            refresh_post(*old(self), *final (self), *b),
            final (self).wf(),
    {
        let ghost pw = |w: Window| w.toplevel.spec_alive(*b);
        let had_windows = self.windows.len() > 0;
        let mut kept: Vec<Window> = Vec::new();
        let n = self.windows.len();
        let mut i: usize = 0;
        proof {
            reveal(Seq::filter);
            assert(self.windows@.take(0) =~= Seq::<Window>::empty());
        }
        while i < n
            invariant
                n == self.windows@.len(),
                0 <= i <= n,
                self.wf(),
                b.wf(),
                *self == *old(self),
                pw == (|w: Window| w.toplevel.spec_alive(*b)),
                kept@.len() == self.windows@.take(i as int).filter(pw).len(),
                forall|j: int|
                    0 <= j < kept@.len() ==> {
                        let kf = self.windows@.take(i as int).filter(pw);
                        &&& (#[trigger] kept@[j]).toplevel == kf[j].toplevel
                        &&& kept@[j].location == kf[j].location
                        &&& kept@[j].bbox.view_box() == window_box(
                            *b,
                            kf[j].toplevel,
                            kf[j].location,
                        )
                        &&& kept@[j].wf()
                    },
            decreases n - i,
        {
            proof {
                reveal(Seq::filter);
                assert(self.windows@.take(i as int + 1).drop_last() =~= self.windows@.take(
                    i as int,
                ));
                assert(self.windows@.take(i as int + 1).last() == self.windows@[i as int]);
            }
            let w = self.windows[i];
            if w.toplevel.alive(b) {
                let mut w2 = w;
                w2.self_update(b);
                kept.push(w2);
            }
            i = i + 1;
        }
        proof {
            assert(self.windows@.take(n as int) =~= self.windows@);
        }
        self.windows = kept;
        if had_windows && self.windows.len() == 0 {
            self.menu_on_top = true;
            send_to_ui(&self.tx, true);
            self.notices = Ghost(self.notices@.push(true));
        }
        let ghost pp = |q: Popup| q.popup.spec_alive(*b);
        let mut kept_popups: Vec<Popup> = Vec::new();
        let np = self.popups.len();
        let mut j: usize = 0;
        proof {
            reveal(Seq::filter);
            assert(self.popups@.take(0) =~= Seq::<Popup>::empty());
        }
        while j < np
            invariant
                np == self.popups@.len(),
                0 <= j <= np,
                b.wf(),
                self.popups@ == old(self).popups@,
                pp == (|q: Popup| q.popup.spec_alive(*b)),
                kept_popups@ == self.popups@.take(j as int).filter(pp),
            decreases np - j,
        {
            proof {
                reveal(Seq::filter);
                assert(self.popups@.take(j as int + 1).drop_last() =~= self.popups@.take(j as int));
                assert(self.popups@.take(j as int + 1).last() == self.popups@[j as int]);
            }
            let q = self.popups[j];
            if q.popup.alive(b) {
                kept_popups.push(q);
            }
            j = j + 1;
        }
        proof {
            assert(self.popups@.take(np as int) =~= self.popups@);
        }
        self.popups = kept_popups;
        self.layers.refresh();
        if let Some(w) = self.menu_window {
            let mut w2 = w;
            w2.self_update(b);
            self.menu_window = Some(w2);
        }
    }

    /// Recomputes the bounding box of the single matching window — searched
    /// over the normal stack, else the menu window — leaving the rest alone.
    pub fn refresh_toplevel(&mut self, b: &Backend, toplevel: &Kind)
        requires
            old(self).wf(),
            b.wf(),
        ensures
            refresh_toplevel_post(*old(self), *final (self), *b, *toplevel),
            final (self).wf(),
    {
        match self.chain_lookup(toplevel) {
            Some(i) => {
                let mut w = self.windows[i];
                w.self_update(b);
                self.windows[i] = w;
                proof {
                    assert forall|j: int| 0 <= j < self.windows@.len() implies (
                    #[trigger] self.windows@[j]).wf() by {
                        if j != i as int {
                            assert(self.windows@[j] == old(self).windows@[j]);
                        }
                    }
                }
            },
            None => {
                if let Some(w) = self.menu_window {
                    if w.toplevel == *toplevel {
                        let mut w2 = w;
                        w2.self_update(b);
                        self.menu_window = Some(w2);
                    }
                }
            },
        }
    }

    /// Empties the normal stack, forces the menu on top, and tells the
    /// overlay launcher; popups and the menu window stay.
    pub fn clear(&mut self)
        ensures
            final (self).windows@ == Seq::<Window>::empty(),
            final (self).menu_on_top == true,
            final (self).notices@ == old(self).notices@.push(true),
            final (self).popups@ == old(self).popups@,
            final (self).menu_window == old(self).menu_window,
            final (self).layers == old(self).layers,
            old(self).wf() ==> final (self).wf(),
    {
        self.windows.clear();
        self.menu_on_top = true;
        send_to_ui(&self.tx, true);
        self.notices = Ghost(self.notices@.push(true));
        proof {
            assert(self.windows@ =~= Seq::<Window>::empty());
        }
    }

    /// Every frame notification one registry-wide pass sends: the normal
    /// stack topmost first, then the menu window, then the layer surfaces.
    pub open spec fn all_frames(self, tls: Seq<ToplevelEntry>, time: u32) -> Seq<(u64, u32)> {
        stack_frames(self.windows@, tls, time) + (match self.menu_window {
            Some(w) => window_frames(tls, w.toplevel, time),
            None => Seq::<(u64, u32)>::empty(),
        }) + self.layers.surfaces@.map_values(|s: crate::layer_map::LayerSurface| (s.surface, time))
    }

    /// Forwards a frame notification to every surface of every tracked
    /// window and to the layer collaborator.
    pub fn send_frames(&self, b: &mut Backend, time: u32)
        ensures
            final (b).toplevels@ == old(b).toplevels@,
            final (b).popups@ == old(b).popups@,
            final (b).configures@ == old(b).configures@,
            final (b).frames@ == old(b).frames@ + self.all_frames(old(b).toplevels@, time),
    {
        let ghost tls = b.toplevels@;
        let n = self.windows.len();
        let mut i: usize = 0;
        proof {
            assert(stack_frames(self.windows@.take(0), tls, time) =~= Seq::<(u64, u32)>::empty());
            assert(b.frames@ =~= old(b).frames@ + stack_frames(self.windows@.take(0), tls, time));
        }
        while i < n
            invariant
                n == self.windows@.len(),
                0 <= i <= n,
                tls == old(b).toplevels@,
                b.toplevels@ == old(b).toplevels@,
                b.popups@ == old(b).popups@,
                b.configures@ == old(b).configures@,
                b.frames@ == old(b).frames@ + stack_frames(self.windows@.take(i as int), tls, time),
            decreases n - i,
        {
            let w = self.windows[i];
            let ghost f0 = b.frames@;
            w.send_frame(b, time);
            proof {
                lemma_stack_frames_push(
                    self.windows@.take(i as int),
                    self.windows@[i as int],
                    tls,
                    time,
                );
                assert(self.windows@.take(i as int).push(self.windows@[i as int])
                    =~= self.windows@.take(i as int + 1));
                assert((old(b).frames@ + stack_frames(self.windows@.take(i as int), tls, time))
                    + window_frames(tls, self.windows@[i as int].toplevel, time) =~= old(b).frames@
                    + stack_frames(self.windows@.take(i as int + 1), tls, time));
            }
            i = i + 1;
        }
        proof {
            assert(self.windows@.take(n as int) =~= self.windows@);
        }
        let ghost f1 = b.frames@;
        match &self.menu_window {
            Some(w) => {
                w.send_frame(b, time);
                proof {
                    assert(b.frames@ =~= old(b).frames@ + (stack_frames(self.windows@, tls, time)
                        + window_frames(tls, self.menu_window->0.toplevel, time)));
                }
            },
            None => {
                proof {
                    assert(b.frames@ =~= old(b).frames@ + (stack_frames(self.windows@, tls, time)
                        + Seq::<(u64, u32)>::empty()));
                }
            },
        }
        let ghost f2 = b.frames@;
        self.layers.send_frames(&mut b.frames, time);
        proof {
            assert(b.frames@ =~= old(b).frames@ + self.all_frames(tls, time));
        }
    }
}

/// The frame notifications a stack of windows receives, topmost first.
pub open spec fn stack_frames(ws: Seq<Window>, tls: Seq<ToplevelEntry>, time: u32) -> Seq<
    (u64, u32),
>
    decreases ws.len(),
{
    if ws.len() == 0 {
        Seq::empty()
    } else {
        window_frames(tls, ws[0].toplevel, time) + stack_frames(ws.drop_first(), tls, time)
    }
}

pub proof fn lemma_stack_frames_push(ws: Seq<Window>, x: Window, tls: Seq<ToplevelEntry>, time: u32)
    ensures
        stack_frames(ws.push(x), tls, time) == stack_frames(ws, tls, time) + window_frames(
            tls,
            x.toplevel,
            time,
        ),
    decreases ws.len(),
{
    if ws.len() == 0 {
        assert(ws.push(x)[0] == x);
        assert(ws.push(x).drop_first() =~= Seq::<Window>::empty());
        assert(stack_frames(Seq::<Window>::empty(), tls, time) == Seq::<(u64, u32)>::empty());
        assert(stack_frames(ws.push(x), tls, time) =~= stack_frames(ws, tls, time)
            + window_frames(tls, x.toplevel, time));
    } else {
        assert(ws.push(x)[0] == ws[0]);
        assert(ws.push(x).drop_first() =~= ws.drop_first().push(x));
        lemma_stack_frames_push(ws.drop_first(), x, tls, time);
        assert(stack_frames(ws.push(x), tls, time) =~= stack_frames(ws, tls, time)
            + window_frames(tls, x.toplevel, time));
    }
}

/// How `refresh` relates the registry after the call to its value before it.
pub open spec fn refresh_post(pre: WindowMap, post: WindowMap, b: Backend) -> bool {
    let kept = pre.windows@.filter(|w: Window| w.toplevel.spec_alive(b));
    &&& post.windows@.len() == kept.len()
    &&& forall|i: int|
        0 <= i < kept.len() ==> {
            &&& (#[trigger] post.windows@[i]).toplevel == kept[i].toplevel
            &&& post.windows@[i].location == kept[i].location
            &&& post.windows@[i].bbox.view_box() == window_box(b, kept[i].toplevel, kept[i].location)
        }
    &&& if pre.windows@.len() > 0 && kept.len() == 0 {
        post.menu_on_top == true && post.notices@ == pre.notices@.push(true)
    } else {
        post.menu_on_top == pre.menu_on_top && post.notices@ == pre.notices@
    }
    &&& post.popups@ == pre.popups@.filter(|q: Popup| q.popup.spec_alive(b))
    &&& post.layers.surfaces@ == pre.layers.surfaces@.filter(
        |s: crate::layer_map::LayerSurface| s.alive,
    )
    &&& match (pre.menu_window, post.menu_window) {
        (Some(w), Some(w2)) => w2.toplevel == w.toplevel && w2.location == w.location
            && w2.bbox.view_box() == window_box(b, w.toplevel, w.location),
        (None, None) => true,
        _ => false,
    }
}

/// How `refresh_toplevel` relates the registry after the call to its value
/// before it: only the matching record's bounding box is rederived.
pub open spec fn refresh_toplevel_post(
    pre: WindowMap,
    post: WindowMap,
    b: Backend,
    t: Kind,
) -> bool {
    let i = pre.chain_index(t);
    &&& if i >= 0 {
        &&& post.windows@.len() == pre.windows@.len()
        &&& forall|j: int| 0 <= j < pre.windows@.len() && j != i ==> post.windows@[j]
            == pre.windows@[j]
        &&& post.windows@[i].toplevel == pre.windows@[i].toplevel
        &&& post.windows@[i].location == pre.windows@[i].location
        &&& post.windows@[i].bbox.view_box() == window_box(
            b,
            pre.windows@[i].toplevel,
            pre.windows@[i].location,
        )
        &&& post.menu_window == pre.menu_window
    } else {
        &&& post.windows@ == pre.windows@
        &&& match pre.menu_window {
            Some(w) => if w.toplevel == t {
                match post.menu_window {
                    Some(w2) => w2.toplevel == w.toplevel && w2.location == w.location
                        && w2.bbox.view_box() == window_box(b, w.toplevel, w.location),
                    None => false,
                }
            } else {
                post.menu_window == pre.menu_window
            },
            None => post.menu_window is None,
        }
    }
    &&& post.popups@ == pre.popups@
    &&& post.menu_on_top == pre.menu_on_top
    &&& post.layers == pre.layers
    &&& post.notices@ == pre.notices@
}

/// The stack that a sequence of `insert` calls builds from `s0`, each call
/// prepending its window.
pub open spec fn insert_fold(s0: Seq<Window>, ws: Seq<Window>) -> Seq<Window>
    decreases ws.len(),
{
    if ws.len() == 0 {
        s0
    } else {
        insert_fold(seq![ws[0]] + s0, ws.drop_first())
    }
}

pub proof fn lemma_insert_fold(s0: Seq<Window>, ws: Seq<Window>)
    ensures
        insert_fold(s0, ws) == ws.reverse() + s0,
    decreases ws.len(),
{
    if ws.len() == 0 {
        assert(insert_fold(s0, ws) =~= ws.reverse() + s0);
    } else {
        lemma_insert_fold(seq![ws[0]] + s0, ws.drop_first());
        assert(ws.reverse() + s0 =~= ws.drop_first().reverse() + (seq![ws[0]] + s0));
    }
}

/// Stacking order: any sequence of `insert` calls, each of which prepends
/// its window to the stack (as `insert` ensures), leaves the normal windows
/// in the reverse of insertion order — the most recent first.
pub proof fn lemma_stacking_order(ws: Seq<Window>)
    ensures
        insert_fold(Seq::empty(), ws) == ws.reverse(),
        insert_fold(Seq::empty(), ws).map_values(|w: Window| w.toplevel) == ws.map_values(
            |w: Window| w.toplevel,
        ).reverse(),
{
    lemma_insert_fold(Seq::empty(), ws);
    assert(insert_fold(Seq::empty(), ws) =~= ws.reverse());
    assert(insert_fold(Seq::empty(), ws).map_values(|w: Window| w.toplevel) =~= ws.map_values(
        |w: Window| w.toplevel,
    ).reverse());
}

/// Whether some window of `ws` would deactivate the toplevel with this
/// identity (only the Xdg dialect carries activation state).
pub open spec fn deactivated_by(ws: Seq<Window>, id: u64) -> bool {
    exists|m: int|
        0 <= m < ws.len() && (#[trigger] ws[m]).toplevel.is_xdg() && ws[m].toplevel.id_spec() == id
}

pub proof fn lemma_apply_activation(
    tls: Seq<ToplevelEntry>,
    log: Seq<(u64, bool)>,
    k: Kind,
    active: bool,
)
    requires
        forall|i: int, j: int| 0 <= i < j < tls.len() ==> tls[i].id != tls[j].id,
    ensures
        ({
            let r = apply_activation(tls, log, k, active);
            &&& r.0.len() == tls.len()
            &&& forall|m: int|
                0 <= m < tls.len() ==> {
                    &&& (#[trigger] r.0[m]).id == tls[m].id
                    &&& r.0[m].alive == tls[m].alive
                    &&& r.0[m].surface == tls[m].surface
                    &&& r.0[m].geometry == tls[m].geometry
                    &&& r.0[m].activated == (if k.is_xdg() && tls[m].id == k.id_spec() {
                        active
                    } else {
                        tls[m].activated
                    })
                }
        }),
{
    let p = |e: ToplevelEntry| e.id == k.id_spec();
    lemma_first_where(tls, p);
    let i = first_where(tls, p);
    if k.is_xdg() && i >= 0 {
        assert forall|m: int| 0 <= m < tls.len() && m != i implies tls[m].id != k.id_spec() by {
            if tls[m].id == k.id_spec() {
                assert(p(tls[m]));
                if m < i {
                } else {
                    assert(tls[i].id == tls[m].id);
                }
            }
        }
    }
}

pub proof fn lemma_deactivate_fold(tls: Seq<ToplevelEntry>, log: Seq<(u64, bool)>, ws: Seq<Window>)
    requires
        forall|i: int, j: int| 0 <= i < j < tls.len() ==> tls[i].id != tls[j].id,
    ensures
        ({
            let d = deactivate_fold(tls, log, ws);
            &&& d.0.len() == tls.len()
            &&& forall|m: int|
                0 <= m < tls.len() ==> {
                    &&& (#[trigger] d.0[m]).id == tls[m].id
                    &&& d.0[m].alive == tls[m].alive
                    &&& d.0[m].surface == tls[m].surface
                    &&& d.0[m].geometry == tls[m].geometry
                    &&& d.0[m].activated == (if deactivated_by(ws, tls[m].id) {
                        false
                    } else {
                        tls[m].activated
                    })
                }
        }),
    decreases ws.len(),
{
    if ws.len() > 0 {
        let next = apply_activation(tls, log, ws[0].toplevel, false);
        lemma_apply_activation(tls, log, ws[0].toplevel, false);
        lemma_deactivate_fold(next.0, next.1, ws.drop_first());
        let d = deactivate_fold(tls, log, ws);
        assert forall|m: int| 0 <= m < tls.len() implies (#[trigger] d.0[m]).activated == (
        if deactivated_by(ws, tls[m].id) {
            false
        } else {
            tls[m].activated
        }) by {
            if deactivated_by(ws.drop_first(), tls[m].id) {
                let w = choose|q: int|
                    0 <= q < ws.drop_first().len() && (
                    #[trigger] ws.drop_first()[q]).toplevel.is_xdg()
                        && ws.drop_first()[q].toplevel.id_spec() == tls[m].id;
                assert(ws[w + 1] == ws.drop_first()[w]);
                assert(deactivated_by(ws, tls[m].id));
            } else if ws[0].toplevel.is_xdg() && ws[0].toplevel.id_spec() == tls[m].id {
                assert(deactivated_by(ws, tls[m].id));
            } else {
                if deactivated_by(ws, tls[m].id) {
                    let w = choose|q: int|
                        0 <= q < ws.len() && (#[trigger] ws[q]).toplevel.is_xdg()
                            && ws[q].toplevel.id_spec() == tls[m].id;
                    assert(w > 0);
                    assert(ws.drop_first()[w - 1] == ws[w]);
                    assert(deactivated_by(ws.drop_first(), tls[m].id));
                }
            }
        }
    }
}

/// Promotion: after `bring_surface_to_top` (or any promotion of the window
/// at stack index `id`), that window stands at index 0 with the relative
/// order of the remaining windows unchanged; every remaining normal window's
/// toplevel is deactivated and the promoted window's toplevel is activated,
/// while liveness, surfaces and declared geometry are untouched.
pub proof fn lemma_promotion(
    pre_self: WindowMap,
    post_self: WindowMap,
    pre_b: Backend,
    post_b: Backend,
    id: int,
)
    requires
        pre_b.wf(),
        0 <= id < pre_self.windows@.len(),
        promote_post(pre_self, post_self, pre_b, post_b, id),
    ensures
        post_self.windows@ == seq![pre_self.windows@[id]] + pre_self.windows@.remove(id),
        post_b.toplevels@.len() == pre_b.toplevels@.len(),
        forall|m: int|
            0 <= m < pre_b.toplevels@.len() ==> {
                let e = pre_b.toplevels@[m];
                let e2 = #[trigger] post_b.toplevels@[m];
                &&& e2.id == e.id
                &&& e2.alive == e.alive
                &&& e2.surface == e.surface
                &&& e2.geometry == e.geometry
                &&& e2.activated == (if pre_self.windows@[id].toplevel.is_xdg() && e.id
                    == pre_self.windows@[id].toplevel.id_spec() {
                    true
                } else if deactivated_by(pre_self.windows@.remove(id), e.id) {
                    false
                } else {
                    e.activated
                })
            },
{
    let winner = pre_self.windows@[id];
    let rest = pre_self.windows@.remove(id);
    let d = deactivate_fold(pre_b.toplevels@, pre_b.configures@, rest);
    lemma_deactivate_fold(pre_b.toplevels@, pre_b.configures@, rest);
    lemma_apply_activation(d.0, d.1, winner.toplevel, true);
}

/// Hit-test containment: a point outside every normal window's bounding box
/// hits no normal window.
pub proof fn lemma_hit_test_containment(ws: Seq<Window>, b: Backend, px: int, py: int)
    requires
        forall|i: int| 0 <= i < ws.len() ==> !(#[trigger] ws[i]).bbox.spec_contains(px, py),
    ensures
        windows_hit(ws, b, px, py) is None,
    decreases ws.len(),
{
    if ws.len() > 0 {
        assert forall|i: int| 0 <= i < ws.drop_first().len() implies !(
        #[trigger] ws.drop_first()[i]).bbox.spec_contains(px, py) by {
            assert(ws.drop_first()[i] == ws[i + 1]);
        }
        lemma_hit_test_containment(ws.drop_first(), b, px, py);
    }
}

/// Hit-test containment at the query level: a point outside every normal
/// window's bounding box and every layer surface is under nothing.
pub proof fn lemma_surface_under_containment(m: WindowMap, b: Backend, px: int, py: int)
    requires
        forall|i: int| 0 <= i < m.windows@.len() ==> !(#[trigger] m.windows@[i]).bbox.spec_contains(
            px,
            py,
        ),
        m.layers.layer_hit(Layer::Overlay, px, py) is None,
        m.layers.layer_hit(Layer::Top, px, py) is None,
        m.layers.layer_hit(Layer::Bottom, px, py) is None,
        m.layers.layer_hit(Layer::Background, px, py) is None,
    ensures
        m.surface_under_spec(b, px, py) is None,
{
    lemma_hit_test_containment(m.windows@, b, px, py);
}

/// Layer precedence: a point covered by an overlay-layer surface is reported
/// as that surface, whatever the normal windows or lower bands would say.
pub proof fn lemma_layer_precedence(m: WindowMap, b: Backend, px: int, py: int)
    requires
        m.layers.layer_hit(Layer::Overlay, px, py) is Some,
    ensures
        m.surface_under_spec(b, px, py) == lift_hit(m.layers.layer_hit(Layer::Overlay, px, py)),
{
}

/// Round-trip geometry: after `set_location(t, p)` on a tracked normal
/// window, `location(t)` reports exactly `p`.
pub proof fn lemma_location_round_trip(
    pre: WindowMap,
    post: WindowMap,
    b: Backend,
    t: Kind,
    p: Point,
)
    requires
        pre.chain_index(t) >= 0,
        set_location_post(pre, post, b, t, p),
    ensures
        post.found_window(t) is Some,
        post.found_window(t)->0.location == p,
{
    let pt = |w: Window| w.toplevel == t;
    let i = pre.chain_index(t);
    lemma_first_where(pre.windows@, pt);
    assert(pt(post.windows@[i]));
    assert forall|j: int| 0 <= j < i implies !pt(post.windows@[j]) by {
        assert(post.windows@[j] == pre.windows@[j]);
    }
    lemma_first_where_is(post.windows@, pt, i);
}

/// The live popups whose parent is `base`, in reverse insertion order.
pub open spec fn child_popups(s: Seq<Popup>, b: Backend, base: u64) -> Seq<PopupKind>
    decreases s.len(),
{
    if s.len() == 0 {
        Seq::empty()
    } else {
        (if s.last().popup.spec_parent(b) == Some(base) {
            seq![s.last().popup]
        } else {
            Seq::<PopupKind>::empty()
        }) + child_popups(s.drop_last(), b, base)
    }
}

/// How `set_location` relates the registry after the call to its value
/// before it: only the first normal window with the handle changes, keeping
/// its handle, taking the new location, and getting a bounding box freshly
/// derived from its tree at that location.
pub open spec fn set_location_post(
    pre: WindowMap,
    post: WindowMap,
    b: Backend,
    t: Kind,
    p: Point,
) -> bool {
    let i = pre.chain_index(t);
    &&& if i >= 0 {
        &&& post.windows@.len() == pre.windows@.len()
        &&& forall|j: int| 0 <= j < pre.windows@.len() && j != i ==> post.windows@[j]
            == pre.windows@[j]
        &&& post.windows@[i].toplevel == pre.windows@[i].toplevel
        &&& post.windows@[i].location == p
        &&& post.windows@[i].bbox.view_box() == window_box(b, pre.windows@[i].toplevel, p)
    } else {
        post.windows@ == pre.windows@
    }
    &&& post.popups@ == pre.popups@
    &&& post.menu_window == pre.menu_window
    &&& post.menu_on_top == pre.menu_on_top
    &&& post.layers == pre.layers
    &&& post.notices@ == pre.notices@
}

} // verus!
