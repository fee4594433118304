//! Handles over the window-protocol dialects a client may use.
//!
//! A handle is a tagged union with one variant per dialect, each wrapping the
//! identity of a protocol-backend object; two handles are equal exactly when
//! they wrap the same object. Everything a handle reports is read from the
//! [`Backend`]; the one mutation, [`Kind::set_activated`], toggles the
//! pending activation bit and sends a configure message only when the bit
//! actually changes (and only the Xdg dialect carries activation state).

use crate::backend::{Backend, ToplevelEntry};
use crate::geometry::Point;
use vstd::prelude::*;

verus! {

/// A toplevel window handle, one variant per protocol dialect.
#[derive(Clone, Copy, PartialEq, Eq, Structural, Debug)]
pub enum Kind {
    Xdg(u64),
    Wl(u64),
    X11(u64),
}

/// A popup handle.
#[derive(Clone, Copy, PartialEq, Eq, Structural, Debug)]
pub enum PopupKind {
    Xdg(u64),
}

impl Kind {
    /// Identity of the wrapped protocol object.
    pub open spec fn id_spec(self) -> u64 {
        match self {
            Kind::Xdg(id) => id,
            Kind::Wl(id) => id,
            Kind::X11(id) => id,
        }
    }

    pub open spec fn is_xdg(self) -> bool {
        self is Xdg
    }

    pub fn id(&self) -> (r: u64)
        ensures
            r == self.id_spec(),
    {
        match *self {
            Kind::Xdg(id) => id,
            Kind::Wl(id) => id,
            Kind::X11(id) => id,
        }
    }

    /// Whether the backend still knows the wrapped object as alive.
    pub open spec fn spec_alive(self, b: Backend) -> bool {
        b.has_toplevel(self.id_spec()) && b.toplevel(self.id_spec()).alive
    }

    pub fn alive(&self, b: &Backend) -> (r: bool)
        ensures
            r == self.spec_alive(*b),
    {
        match b.find_toplevel(self.id()) {
            Some(i) => b.toplevels[i].alive,
            None => false,
        }
    }

    /// The identity of the toplevel's root surface, while it exists.
    pub open spec fn spec_surface(self, b: Backend) -> Option<u64> {
        if b.has_toplevel(self.id_spec()) {
            match b.toplevel(self.id_spec()).surface {
                Some(t) => Some(t.id),
                None => None,
            }
        } else {
            None
        }
    }

    pub fn get_surface(&self, b: &Backend) -> (r: Option<u64>)
        ensures
            r == self.spec_surface(*b),
    {
        match b.find_toplevel(self.id()) {
            Some(i) => match &b.toplevels[i].surface {
                Some(t) => Some(t.id),
                None => None,
            },
            None => None,
        }
    }

    /// How `set_activated` relates the backend after the call to the backend
    /// before it: only the Xdg dialect carries activation state; the pending
    /// bit becomes `active`, and a configure message goes out only if the bit
    /// actually changed.
    pub open spec fn set_activated_post(self, pre: Backend, post: Backend, active: bool) -> bool {
        &&& post.popups@ == pre.popups@
        &&& post.frames@ == pre.frames@
        &&& if self.is_xdg() && pre.has_toplevel(self.id_spec()) {
            let i = pre.tl_index(self.id_spec());
            let e = pre.toplevels@[i];
            &&& post.toplevels@ == pre.toplevels@.update(
                i,
                ToplevelEntry {
                    id: e.id,
                    alive: e.alive,
                    activated: active,
                    geometry: e.geometry,
                    surface: e.surface,
                },
            )
            &&& post.configures@ == if e.activated != active {
                pre.configures@.push((self.id_spec(), active))
            } else {
                pre.configures@
            }
        } else {
            &&& post.toplevels@ == pre.toplevels@
            &&& post.configures@ == pre.configures@
        }
    }

    /// Activate or deactivate this window.
    pub fn set_activated(&self, b: &mut Backend, active: bool)
        ensures
            self.set_activated_post(*old(b), *final (b), active),
    {
        if let Kind::Xdg(id) = *self {
            if let Some(i) = b.find_toplevel(id) {
                let changed = b.toplevels[i].activated != active;
                let entry = &mut b.toplevels[i];
                entry.activated = active;
                if changed {
                    b.configures.push((id, active));
                }
            }
        }
    }
}

impl PopupKind {
    /// Identity of the wrapped protocol object.
    pub open spec fn id_spec(self) -> u64 {
        match self {
            PopupKind::Xdg(id) => id,
        }
    }

    pub fn id(&self) -> (r: u64)
        ensures
            r == self.id_spec(),
    {
        match *self {
            PopupKind::Xdg(id) => id,
        }
    }

    pub open spec fn spec_alive(self, b: Backend) -> bool {
        b.has_popup(self.id_spec()) && b.popup(self.id_spec()).alive
    }

    pub fn alive(&self, b: &Backend) -> (r: bool)
        ensures
            r == self.spec_alive(*b),
    {
        match b.find_popup(self.id()) {
            Some(i) => b.popups[i].alive,
            None => false,
        }
    }

    /// The identity of the popup's surface, while it exists.
    pub open spec fn spec_surface(self, b: Backend) -> Option<u64> {
        if b.has_popup(self.id_spec()) {
            b.popup(self.id_spec()).surface
        } else {
            None
        }
    }

    pub fn get_surface(&self, b: &Backend) -> (r: Option<u64>)
        ensures
            r == self.spec_surface(*b),
    {
        match b.find_popup(self.id()) {
            Some(i) => b.popups[i].surface,
            None => None,
        }
    }

    /// The parent surface recorded in the popup's role state; absent once
    /// the popup's own surface is gone.
    pub open spec fn spec_parent(self, b: Backend) -> Option<u64> {
        if self.spec_surface(b) is Some {
            b.popup(self.id_spec()).parent
        } else {
            None
        }
    }

    pub fn parent(&self, b: &Backend) -> (r: Option<u64>)
        ensures
            r == self.spec_parent(*b),
    {
        match b.find_popup(self.id()) {
            Some(i) => {
                if b.popups[i].surface.is_some() {
                    b.popups[i].parent
                } else {
                    None
                }
            },
            None => None,
        }
    }

    /// The popup's cached placement, defaulting to the origin when the
    /// surface is gone or the client never committed geometry.
    pub open spec fn spec_location(self, b: Backend) -> Point {
        if self.spec_surface(b) is Some {
            match b.popup(self.id_spec()).position {
                Some(p) => p,
                None => Point { x: 0, y: 0 },
            }
        } else {
            Point { x: 0, y: 0 }
        }
    }

    pub fn location(&self, b: &Backend) -> (r: Point)
        ensures
            r == self.spec_location(*b),
            b.wf() ==> r.wf(),
    {
        match b.find_popup(self.id()) {
            Some(i) => {
                if b.popups[i].surface.is_some() {
                    match b.popups[i].position {
                        Some(p) => p,
                        None => Point::origin(),
                    }
                } else {
                    Point::origin()
                }
            },
            None => Point::origin(),
        }
    }
}

} // verus!
