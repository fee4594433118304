//! The registry's view of its external collaborators: the protocol backend
//! and the surface-tree backend.
//!
//! The backend owns every protocol object. What the registry reads of them —
//! liveness, the root surface and its tree, the pending activation bit, the
//! protocol-declared geometry, a popup's parent and cached position — is held
//! here as plain values, one entry per protocol object. What the registry
//! sends to clients — configure messages and frame notifications — is
//! recorded in outbound logs.

use crate::geometry::{Point, Rect};
use crate::seq_util::{first_where, lemma_first_where_is, lemma_first_where_none};
use crate::surface::{tree_wf, SurfaceNode};
use vstd::prelude::*;

verus! {

/// The backend state of one toplevel protocol object.
#[derive(Debug)]
pub struct ToplevelEntry {
    /// Identity of the protocol object; handles compare by it.
    pub id: u64,
    /// Whether the client-side object still exists.
    pub alive: bool,
    /// The pending "activated" state bit.
    pub activated: bool,
    /// The protocol-declared geometry rectangle, if the client set one.
    pub geometry: Option<Rect>,
    /// The root of the toplevel's surface tree; `None` once the surface was
    /// destroyed.
    pub surface: Option<SurfaceNode>,
}

/// The backend state of one popup protocol object.
#[derive(Clone, Copy, Debug)]
pub struct PopupEntry {
    pub id: u64,
    pub alive: bool,
    /// The popup's surface identity; `None` once destroyed.
    pub surface: Option<u64>,
    /// The parent surface recorded in the popup's role state.
    pub parent: Option<u64>,
    /// The popup's cached placement; `None` when the client never committed
    /// geometry, in which case the popup sits at the origin.
    pub position: Option<Point>,
}

/// The protocol and surface-tree backends, as plain values.
#[derive(Debug)]
pub struct Backend {
    pub toplevels: Vec<ToplevelEntry>,
    pub popups: Vec<PopupEntry>,
    /// Outbound log of frame notifications `(surface, time)`.
    pub frames: Vec<(u64, u32)>,
    /// Outbound log of configure messages `(toplevel, activated)`, one per
    /// actual change of the activation bit.
    pub configures: Vec<(u64, bool)>,
}

impl ToplevelEntry {
    pub open spec fn wf(self) -> bool {
        &&& match self.geometry {
            Some(r) => r.loc.wf() && r.size.wf(),
            None => true,
        }
        &&& match self.surface {
            Some(t) => tree_wf(t),
            None => true,
        }
    }
}

impl PopupEntry {
    pub open spec fn wf(self) -> bool {
        match self.position {
            Some(p) => p.wf(),
            None => true,
        }
    }
}

/// Index of the toplevel entry with identity `id` in `tls`, or `-1`.
pub open spec fn tl_index_of(tls: Seq<ToplevelEntry>, id: u64) -> int {
    first_where(tls, |e: ToplevelEntry| e.id == id)
}

/// Index of the popup entry with identity `id` in `ps`, or `-1`.
pub open spec fn pp_index_of(ps: Seq<PopupEntry>, id: u64) -> int {
    first_where(ps, |e: PopupEntry| e.id == id)
}

impl Backend {
    /// Entries are well-formed and identities are unique.
    pub open spec fn wf(self) -> bool {
        &&& forall|i: int| 0 <= i < self.toplevels@.len() ==> (#[trigger] self.toplevels@[i]).wf()
        &&& forall|i: int, j: int|
            0 <= i < j < self.toplevels@.len() ==> self.toplevels@[i].id != self.toplevels@[j].id
        &&& forall|i: int| 0 <= i < self.popups@.len() ==> (#[trigger] self.popups@[i]).wf()
        &&& forall|i: int, j: int|
            0 <= i < j < self.popups@.len() ==> self.popups@[i].id != self.popups@[j].id
    }

    /// Index of the toplevel entry with identity `id`, or `-1`.
    pub open spec fn tl_index(self, id: u64) -> int {
        tl_index_of(self.toplevels@, id)
    }

    pub open spec fn has_toplevel(self, id: u64) -> bool {
        self.tl_index(id) >= 0
    }

    /// The toplevel entry with identity `id`.
    pub open spec fn toplevel(self, id: u64) -> ToplevelEntry {
        self.toplevels@[self.tl_index(id)]
    }

    /// Index of the popup entry with identity `id`, or `-1`.
    pub open spec fn popup_index(self, id: u64) -> int {
        pp_index_of(self.popups@, id)
    }

    pub open spec fn has_popup(self, id: u64) -> bool {
        self.popup_index(id) >= 0
    }

    pub open spec fn popup(self, id: u64) -> PopupEntry {
        self.popups@[self.popup_index(id)]
    }

    /// An empty backend, for embedders that populate it entry by entry.
    pub fn new() -> (r: Backend)
        ensures
            r.wf(),
            r.toplevels@ =~= Seq::<ToplevelEntry>::empty(),
            r.popups@ =~= Seq::<PopupEntry>::empty(),
            r.frames@ =~= Seq::<(u64, u32)>::empty(),
            r.configures@ =~= Seq::<(u64, bool)>::empty(),
    {
        Backend { toplevels: Vec::new(), popups: Vec::new(), frames: Vec::new(), configures: Vec::new() }
    }

    /// Looks the toplevel entry with identity `id` up.
    pub fn find_toplevel(&self, id: u64) -> (r: Option<usize>)
        ensures
            match r {
                Some(i) => self.tl_index(id) == i as int && i < self.toplevels@.len()
                    && self.toplevels@[i as int].id == id,
                None => self.tl_index(id) == -1,
            },
    {
        let ghost p = |e: ToplevelEntry| e.id == id;
        let n = self.toplevels.len();
        let mut i: usize = 0;
        while i < n
            invariant
                n == self.toplevels@.len(),
                0 <= i <= n,
                forall|j: int| 0 <= j < i ==> !p(#[trigger] self.toplevels@[j]),
                p == (|e: ToplevelEntry| e.id == id),
            decreases n - i,
        {
            if self.toplevels[i].id == id {
                proof {
                    lemma_first_where_is(self.toplevels@, p, i as int);
                }
                return Some(i);
            }
            i = i + 1;
        }
        proof {
            lemma_first_where_none(self.toplevels@, p);
        }
        None
    }

    /// Looks the popup entry with identity `id` up.
    pub fn find_popup(&self, id: u64) -> (r: Option<usize>)
        ensures
            match r {
                Some(i) => self.popup_index(id) == i as int && i < self.popups@.len()
                    && self.popups@[i as int].id == id,
                None => self.popup_index(id) == -1,
            },
    {
        let ghost p = |e: PopupEntry| e.id == id;
        let n = self.popups.len();
        let mut i: usize = 0;
        while i < n
            invariant
                n == self.popups@.len(),
                0 <= i <= n,
                forall|j: int| 0 <= j < i ==> !p(#[trigger] self.popups@[j]),
                p == (|e: PopupEntry| e.id == id),
            decreases n - i,
        {
            if self.popups[i].id == id {
                proof {
                    lemma_first_where_is(self.popups@, p, i as int);
                }
                return Some(i);
            }
            i = i + 1;
        }
        proof {
            lemma_first_where_none(self.popups@, p);
        }
        None
    }
}

} // verus!
