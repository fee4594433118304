//! The layer-shell collaborator: the four fixed z-bands (background, bottom,
//! top, overlay) of non-stacking shell surfaces.
//!
//! The registry consults this collection before and after its own window
//! stack when answering spatial queries. The collaborator manages its
//! surfaces itself; the registry only needs its query surface: the first
//! surface of a band covering a point, purging dead surfaces, and forwarding
//! frame notifications.

use crate::geometry::{Point, Rect, Size};
use crate::seq_util::{first_where, lemma_first_where_is, lemma_first_where_none};
use vstd::prelude::*;

verus! {

/// One of the four fixed z-bands.
#[derive(Clone, Copy, PartialEq, Eq, Structural, Debug)]
pub enum Layer {
    Background,
    Bottom,
    Top,
    Overlay,
}

/// One layer-shell surface: its identity, band, placement and extent.
#[derive(Clone, Copy, Debug)]
pub struct LayerSurface {
    pub surface: u64,
    pub layer: Layer,
    pub location: Point,
    pub extent: Size,
    pub alive: bool,
}

impl LayerSurface {
    pub open spec fn wf(self) -> bool {
        self.location.wf() && self.extent.wf()
    }

    /// The rectangle the surface covers.
    pub open spec fn srect(self) -> Rect {
        Rect { loc: self.location, size: self.extent }
    }

    pub open spec fn covers(self, px: int, py: int) -> bool {
        self.srect().spec_contains(px, py)
    }
}

/// The ordered collection of layer surfaces, all bands together.
#[derive(Debug)]
pub struct LayerMap {
    pub surfaces: Vec<LayerSurface>,
}

impl LayerMap {
    pub open spec fn wf(self) -> bool {
        forall|i: int| 0 <= i < self.surfaces@.len() ==> (#[trigger] self.surfaces@[i]).wf()
    }

    /// The first surface of `layer` covering `(px, py)`, with its location.
    pub open spec fn layer_hit(self, layer: Layer, px: int, py: int) -> Option<(u64, Point)> {
        let i = first_where(
            self.surfaces@,
            |s: LayerSurface| s.layer == layer && s.covers(px, py),
        );
        if i >= 0 {
            Some((self.surfaces@[i].surface, self.surfaces@[i].location))
        } else {
            None
        }
    }

    pub fn new() -> (r: LayerMap)
        ensures
            r.surfaces@ =~= Seq::<LayerSurface>::empty(),
            r.wf(),
    {
        LayerMap { surfaces: Vec::new() }
    }

    /// Adds a surface at the back of its band's search order.
    pub fn insert(&mut self, s: LayerSurface)
        requires
            s.wf(),
        ensures
            final (self).surfaces@ == old(self).surfaces@.push(s),
            old(self).wf() ==> final (self).wf(),
    {
        self.surfaces.push(s);
    }

    /// The topmost surface of `layer` under the point, if any.
    pub fn get_surface_under(&self, layer: &Layer, point: Point) -> (r: Option<(u64, Point)>)
        requires
            self.wf(),
        ensures
            r == self.layer_hit(*layer, point.x as int, point.y as int),
    {
        let ghost p = |s: LayerSurface| s.layer == *layer && s.covers(
            point.x as int,
            point.y as int,
        );
        let n = self.surfaces.len();
        let mut i: usize = 0;
        while i < n
            invariant
                n == self.surfaces@.len(),
                0 <= i <= n,
                self.wf(),
                forall|j: int| 0 <= j < i ==> !p(#[trigger] self.surfaces@[j]),
                p == (|s: LayerSurface| s.layer == *layer && s.covers(
                    point.x as int,
                    point.y as int,
                )),
            decreases n - i,
        {
            let s = self.surfaces[i];
            let here = Rect { loc: s.location, size: s.extent };
            if s.layer == *layer && here.contains(point) {
                proof {
                    lemma_first_where_is(self.surfaces@, p, i as int);
                }
                return Some((s.surface, s.location));
            }
            i = i + 1;
        }
        proof {
            lemma_first_where_none(self.surfaces@, p);
        }
        None
    }

    /// Drops the surfaces whose client-side object is gone.
    pub fn refresh(&mut self)
        requires
            old(self).wf(),
        ensures
            final (self).surfaces@ == old(self).surfaces@.filter(|s: LayerSurface| s.alive),
            final (self).wf(),
    {
        let ghost p = |s: LayerSurface| s.alive;
        let mut kept: Vec<LayerSurface> = Vec::new();
        let n = self.surfaces.len();
        let mut i: usize = 0;
        proof {
            reveal(Seq::filter);
            assert(self.surfaces@.take(0) =~= Seq::<LayerSurface>::empty());
        }
        while i < n
            invariant
                n == self.surfaces@.len(),
                0 <= i <= n,
                self.wf(),
                kept@ == self.surfaces@.take(i as int).filter(p),
                forall|j: int| 0 <= j < kept@.len() ==> (#[trigger] kept@[j]).wf(),
                p == (|s: LayerSurface| s.alive),
            decreases n - i,
        {
            proof {
                reveal(Seq::filter);
                assert(self.surfaces@.take(i as int + 1).drop_last() =~= self.surfaces@.take(
                    i as int,
                ));
                assert(self.surfaces@.take(i as int + 1).last() == self.surfaces@[i as int]);
            }
            let s = self.surfaces[i];
            if s.alive {
                kept.push(s);
            }
            i = i + 1;
        }
        proof {
            assert(self.surfaces@.take(n as int) =~= self.surfaces@);
        }
        self.surfaces = kept;
    }

    /// Forwards a frame notification to every layer surface.
    pub fn send_frames(&self, log: &mut Vec<(u64, u32)>, time: u32)
        ensures
            final (log)@ == old(log)@ + self.surfaces@.map_values(
                |s: LayerSurface| (s.surface, time),
            ),
    {
        let ghost f = |s: LayerSurface| (s.surface, time);
        let n = self.surfaces.len();
        let mut i: usize = 0;
        proof {
            assert(log@ =~= old(log)@ + self.surfaces@.take(0).map_values(f));
        }
        while i < n
            invariant
                n == self.surfaces@.len(),
                0 <= i <= n,
                log@ == old(log)@ + self.surfaces@.take(i as int).map_values(f),
                f == (|s: LayerSurface| (s.surface, time)),
            decreases n - i,
        {
            log.push((self.surfaces[i].surface, time));
            proof {
                assert(log@ =~= old(log)@ + self.surfaces@.take(i as int + 1).map_values(f));
            }
            i = i + 1;
        }
        proof {
            assert(self.surfaces@.take(n as int) =~= self.surfaces@);
        }
    }
}

} // verus!
