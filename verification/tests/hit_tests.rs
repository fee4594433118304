use std::sync::mpsc::{channel, Receiver};

use window_registry::backend::{Backend, ToplevelEntry};
use window_registry::geometry::{Point, Rect, Size};
use window_registry::gui::ToUi;
use window_registry::handles::Kind;
use window_registry::layer_map::{Layer, LayerSurface};
use window_registry::surface::SurfaceNode;
use window_registry::window_map::WindowMap;

fn pt(x: i64, y: i64) -> Point {
    Point { x, y }
}

fn leaf(id: u64, w: i64, h: i64) -> SurfaceNode {
    SurfaceNode {
        id,
        buffer: Some(Size { w, h }),
        subsurface_offset: None,
        input_region: None,
        children: Vec::new(),
    }
}

fn backend_with(tree: SurfaceNode) -> Backend {
    let mut b = Backend::new();
    b.toplevels.push(ToplevelEntry {
        id: 1,
        alive: true,
        activated: false,
        geometry: None,
        surface: Some(tree),
    });
    b
}

fn fresh() -> (WindowMap, Receiver<ToUi>) {
    let (tx, rx) = channel();
    (WindowMap::new(tx), rx)
}

#[test]
fn points_outside_the_bounding_box_hit_nothing() {
    let (mut m, _rx) = fresh();
    let b = backend_with(leaf(101, 10, 10));
    m.insert(&b, Kind::Xdg(1), pt(100, 100));
    // The box is [100, 110) square; probe all around it.
    assert!(m.get_surface_under(&b, pt(99, 105)).is_none());
    assert!(m.get_surface_under(&b, pt(110, 105)).is_none());
    assert!(m.get_surface_under(&b, pt(105, 99)).is_none());
    assert!(m.get_surface_under(&b, pt(105, 110)).is_none());
    assert!(m.get_surface_under(&b, pt(-100000, 0)).is_none());
    assert_eq!(m.get_surface_under(&b, pt(105, 105)), Some((101, pt(100, 100))));
}

#[test]
fn overlay_layer_wins_over_normal_windows() {
    let (mut m, _rx) = fresh();
    let b = backend_with(leaf(101, 10, 10));
    m.insert(&b, Kind::Xdg(1), pt(0, 0));
    m.layers.insert(LayerSurface {
        surface: 900,
        layer: Layer::Overlay,
        location: pt(0, 0),
        extent: Size { w: 5, h: 5 },
        alive: true,
    });
    // Covered by both: the overlay band is consulted first.
    assert_eq!(m.get_surface_under(&b, pt(2, 2)), Some((900, pt(0, 0))));
    // Outside the overlay surface the window answers.
    assert_eq!(m.get_surface_under(&b, pt(7, 7)), Some((101, pt(0, 0))));
}

#[test]
fn bottom_and_background_layers_fill_in_behind_windows() {
    let (mut m, _rx) = fresh();
    let b = backend_with(leaf(101, 10, 10));
    m.insert(&b, Kind::Xdg(1), pt(0, 0));
    m.layers.insert(LayerSurface {
        surface: 800,
        layer: Layer::Bottom,
        location: pt(0, 0),
        extent: Size { w: 40, h: 40 },
        alive: true,
    });
    m.layers.insert(LayerSurface {
        surface: 700,
        layer: Layer::Background,
        location: pt(0, 0),
        extent: Size { w: 200, h: 200 },
        alive: true,
    });
    assert_eq!(m.get_surface_under(&b, pt(5, 5)), Some((101, pt(0, 0))));
    assert_eq!(m.get_surface_under(&b, pt(20, 20)), Some((800, pt(0, 0))));
    assert_eq!(m.get_surface_under(&b, pt(100, 100)), Some((700, pt(0, 0))));
    assert!(m.get_surface_under(&b, pt(300, 300)).is_none());
}

#[test]
fn topmost_window_wins_where_windows_overlap() {
    let (mut m, _rx) = fresh();
    let b = Backend {
        toplevels: vec![
            ToplevelEntry { id: 1, alive: true, activated: false, geometry: None, surface: Some(leaf(101, 10, 10)) },
            ToplevelEntry { id: 2, alive: true, activated: false, geometry: None, surface: Some(leaf(102, 10, 10)) },
        ],
        popups: vec![],
        frames: vec![],
        configures: vec![],
    };
    m.insert(&b, Kind::Xdg(1), pt(0, 0));
    m.insert(&b, Kind::Xdg(2), pt(5, 5));
    // (7, 7) lies on both 10 by 10 windows; the later insert is on top.
    assert_eq!(m.get_surface_under(&b, pt(7, 7)), Some((102, pt(5, 5))));
    // (2, 2) lies only on the lower window.
    assert_eq!(m.get_surface_under(&b, pt(2, 2)), Some((101, pt(0, 0))));
}

#[test]
fn input_region_and_subsurface_offsets_steer_the_hit_test() {
    let (mut m, _rx) = fresh();
    let tree = SurfaceNode {
        id: 101,
        buffer: Some(Size { w: 10, h: 10 }),
        subsurface_offset: None,
        // Only the top-left 2 by 2 corner of the root accepts input.
        input_region: Some(Rect { loc: pt(0, 0), size: Size { w: 2, h: 2 } }),
        children: vec![SurfaceNode {
            id: 110,
            buffer: Some(Size { w: 3, h: 3 }),
            subsurface_offset: Some(pt(4, 4)),
            input_region: None,
            children: Vec::new(),
        }],
    };
    let b = backend_with(tree);
    m.insert(&b, Kind::Xdg(1), pt(0, 0));

    assert_eq!(m.get_surface_under(&b, pt(1, 1)), Some((101, pt(0, 0))));
    // On the root buffer but outside its input region, and on the child.
    assert_eq!(m.get_surface_under(&b, pt(5, 5)), Some((110, pt(4, 4))));
    // On the root buffer, outside both input regions.
    assert!(m.get_surface_under(&b, pt(8, 1)).is_none());
}

#[test]
fn an_unmapped_parent_hides_its_children_from_the_bounding_box() {
    let (mut m, _rx) = fresh();
    let tree = SurfaceNode {
        id: 101,
        buffer: None,
        subsurface_offset: None,
        input_region: None,
        children: vec![leaf(110, 50, 50)],
    };
    let b = backend_with(tree);
    m.insert(&b, Kind::Xdg(1), pt(30, 40));
    assert_eq!(m.windows[0].bbox, Rect { loc: pt(30, 40), size: Size { w: 0, h: 0 } });
    assert!(m.get_surface_under(&b, pt(35, 45)).is_none());
}

#[test]
fn set_location_round_trips_and_moves_the_bounding_box() {
    let (mut m, _rx) = fresh();
    let tree = SurfaceNode {
        id: 101,
        buffer: Some(Size { w: 10, h: 10 }),
        subsurface_offset: None,
        input_region: None,
        // A subsurface hanging out to the upper left of the root.
        children: vec![SurfaceNode {
            id: 110,
            buffer: Some(Size { w: 4, h: 4 }),
            subsurface_offset: Some(pt(-5, -3)),
            input_region: None,
            children: Vec::new(),
        }],
    };
    let b = backend_with(tree);
    m.insert(&b, Kind::Xdg(1), pt(0, 0));

    m.set_location(&b, &Kind::Xdg(1), pt(100, 200));
    assert_eq!(m.location(&Kind::Xdg(1)), Some(pt(100, 200)));
    // The box origin is the new placement plus the tree's minimum offset.
    assert_eq!(m.windows[0].bbox.loc, pt(95, 197));
    assert_eq!(m.windows[0].bbox.size, Size { w: 15, h: 13 });
}

#[test]
fn get_surface_and_bring_to_top_promotes_only_on_a_hit() {
    let (mut m, _rx) = fresh();
    let mut b = Backend {
        toplevels: vec![
            ToplevelEntry { id: 1, alive: true, activated: false, geometry: None, surface: Some(leaf(101, 10, 10)) },
            ToplevelEntry { id: 2, alive: true, activated: false, geometry: None, surface: Some(leaf(102, 10, 10)) },
        ],
        popups: vec![],
        frames: vec![],
        configures: vec![],
    };
    m.insert(&b, Kind::Xdg(1), pt(0, 0));
    m.insert(&b, Kind::Xdg(2), pt(50, 50));

    // A miss changes nothing and promotes nothing.
    assert!(m.get_surface_and_bring_to_top(&mut b, pt(30, 30)).is_none());
    assert_eq!(m.window_toplevels(), vec![Kind::Xdg(2), Kind::Xdg(1)]);

    // A hit on the lower window promotes it.
    let hit = m.get_surface_and_bring_to_top(&mut b, pt(5, 5));
    assert_eq!(hit, Some((101, pt(0, 0))));
    assert_eq!(m.window_toplevels(), vec![Kind::Xdg(1), Kind::Xdg(2)]);
    assert!(b.toplevels[0].activated);
    assert!(!b.toplevels[1].activated);
}

#[test]
fn the_menu_window_is_never_hit_tested_or_promoted() {
    let (mut m, _rx) = fresh();
    let mut b = Backend {
        toplevels: vec![ToplevelEntry {
            id: 7,
            alive: true,
            activated: false,
            geometry: None,
            surface: Some(leaf(700, 100, 100)),
        }],
        popups: vec![],
        frames: vec![],
        configures: vec![],
    };
    m.set_menu_window(&b, Kind::Xdg(7), pt(0, 0));
    assert!(m.get_surface_and_bring_to_top(&mut b, pt(5, 5)).is_none());
    assert_eq!(m.windows_len(), 0);
    m.bring_surface_to_top(&mut b, 700);
    assert!(!b.toplevels[0].activated);
    assert_eq!(b.configures, vec![]);
}
