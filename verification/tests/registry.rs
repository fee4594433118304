use std::sync::mpsc::{channel, Receiver};

use window_registry::backend::{Backend, PopupEntry, ToplevelEntry};
use window_registry::geometry::{Point, Rect, Size};
use window_registry::gui::ToUi;
use window_registry::handles::{Kind, PopupKind};
use window_registry::surface::SurfaceNode;
use window_registry::window_map::WindowMap;

fn leaf(id: u64, w: i64, h: i64) -> SurfaceNode {
    SurfaceNode {
        id,
        buffer: Some(Size { w, h }),
        subsurface_offset: None,
        input_region: None,
        children: Vec::new(),
    }
}

fn toplevel(id: u64, surface: u64) -> ToplevelEntry {
    ToplevelEntry {
        id,
        alive: true,
        activated: false,
        geometry: None,
        surface: Some(leaf(surface, 10, 10)),
    }
}

fn fresh() -> (WindowMap, Receiver<ToUi>) {
    let (tx, rx) = channel();
    (WindowMap::new(tx), rx)
}

fn pt(x: i64, y: i64) -> Point {
    Point { x, y }
}

#[test]
fn insert_stacks_most_recent_first() {
    let (mut m, _rx) = fresh();
    let b = Backend {
        toplevels: vec![toplevel(1, 101), toplevel(2, 102), toplevel(3, 103)],
        popups: vec![],
        frames: vec![],
        configures: vec![],
    };
    m.insert(&b, Kind::Xdg(1), pt(0, 0));
    m.insert(&b, Kind::Xdg(2), pt(20, 0));
    m.insert(&b, Kind::Xdg(3), pt(40, 0));
    assert_eq!(m.windows_len(), 3);
    let tops = m.window_toplevels();
    assert_eq!(tops, vec![Kind::Xdg(3), Kind::Xdg(2), Kind::Xdg(1)]);
}

#[test]
fn bring_surface_to_top_promotes_and_reactivates() {
    let (mut m, _rx) = fresh();
    let mut b = Backend {
        toplevels: vec![toplevel(1, 101), toplevel(2, 102), toplevel(3, 103)],
        popups: vec![],
        frames: vec![],
        configures: vec![],
    };
    // The stack is [w3, w2, w1]; w2 and w3 believe they are activated.
    b.toplevels[1].activated = true;
    b.toplevels[2].activated = true;
    m.insert(&b, Kind::Xdg(1), pt(0, 0));
    m.insert(&b, Kind::Xdg(2), pt(20, 0));
    m.insert(&b, Kind::Xdg(3), pt(40, 0));

    m.bring_surface_to_top(&mut b, 101);

    let tops = m.window_toplevels();
    assert_eq!(tops, vec![Kind::Xdg(1), Kind::Xdg(3), Kind::Xdg(2)]);
    assert!(b.toplevels[0].activated);
    assert!(!b.toplevels[1].activated);
    assert!(!b.toplevels[2].activated);
    // Deactivation runs over the remaining stack [w3, w2], then the winner.
    assert_eq!(b.configures, vec![(3, false), (2, false), (1, true)]);
}

#[test]
fn bring_surface_to_top_is_a_noop_for_unknown_surfaces() {
    let (mut m, _rx) = fresh();
    let mut b = Backend {
        toplevels: vec![toplevel(1, 101)],
        popups: vec![],
        frames: vec![],
        configures: vec![],
    };
    m.insert(&b, Kind::Xdg(1), pt(0, 0));
    m.bring_surface_to_top(&mut b, 999);
    assert_eq!(m.window_toplevels(), vec![Kind::Xdg(1)]);
    assert_eq!(b.configures, vec![]);
}

#[test]
fn only_the_xdg_dialect_carries_activation_state() {
    let (mut m, _rx) = fresh();
    let mut b = Backend {
        toplevels: vec![toplevel(1, 101), toplevel(2, 102)],
        popups: vec![],
        frames: vec![],
        configures: vec![],
    };
    m.insert(&b, Kind::Wl(1), pt(0, 0));
    m.insert(&b, Kind::X11(2), pt(20, 0));
    m.bring_surface_to_top(&mut b, 101);
    // The stack reorders, but no activation state changes and no configure
    // message goes out for these dialects.
    assert_eq!(m.window_toplevels(), vec![Kind::Wl(1), Kind::X11(2)]);
    assert!(!b.toplevels[0].activated);
    assert!(!b.toplevels[1].activated);
    assert_eq!(b.configures, vec![]);
}

#[test]
fn refresh_purging_last_window_notifies_exactly_once() {
    let (mut m, rx) = fresh();
    let mut b = Backend {
        toplevels: vec![toplevel(1, 101)],
        popups: vec![],
        frames: vec![],
        configures: vec![],
    };
    m.insert(&b, Kind::Xdg(1), pt(0, 0));
    m.set_menu_on_top(false);
    assert!(matches!(rx.try_recv(), Ok(ToUi::SetMenuOnTop(false))));

    m.refresh(&b);
    assert_eq!(m.windows_len(), 1);
    assert!(!m.menu_on_top);
    assert!(rx.try_recv().is_err());

    b.toplevels[0].alive = false;
    m.refresh(&b);
    assert_eq!(m.windows_len(), 0);
    assert!(m.menu_on_top);
    assert!(matches!(rx.try_recv(), Ok(ToUi::SetMenuOnTop(true))));
    assert!(rx.try_recv().is_err());

    m.refresh(&b);
    assert!(rx.try_recv().is_err());
}

#[test]
fn clear_empties_the_stack_and_notifies() {
    let (mut m, rx) = fresh();
    let b = Backend {
        toplevels: vec![toplevel(1, 101)],
        popups: vec![],
        frames: vec![],
        configures: vec![],
    };
    m.insert(&b, Kind::Xdg(1), pt(0, 0));
    m.set_menu_on_top(false);
    let _ = rx.try_recv();
    m.clear();
    assert_eq!(m.windows_len(), 0);
    assert!(m.menu_on_top);
    assert!(matches!(rx.try_recv(), Ok(ToUi::SetMenuOnTop(true))));
}

#[test]
fn find_searches_windows_then_menu() {
    let (mut m, _rx) = fresh();
    let b = Backend {
        toplevels: vec![toplevel(1, 101), toplevel(7, 700)],
        popups: vec![],
        frames: vec![],
        configures: vec![],
    };
    m.insert(&b, Kind::Xdg(1), pt(0, 0));
    m.set_menu_window(&b, Kind::Wl(7), pt(5, 5));
    assert_eq!(m.find(&b, 101), Some(Kind::Xdg(1)));
    assert_eq!(m.find(&b, 700), Some(Kind::Wl(7)));
    assert_eq!(m.find(&b, 999), None);
}

#[test]
fn popups_filter_by_parent_in_reverse_insertion_order() {
    let (mut m, _rx) = fresh();
    let b = Backend {
        toplevels: vec![],
        popups: vec![
            PopupEntry { id: 1, alive: true, surface: Some(201), parent: Some(50), position: None },
            PopupEntry { id: 2, alive: true, surface: Some(202), parent: Some(60), position: None },
            PopupEntry {
                id: 3,
                alive: true,
                surface: Some(203),
                parent: Some(50),
                position: Some(pt(3, 4)),
            },
            PopupEntry { id: 4, alive: true, surface: None, parent: Some(50), position: None },
        ],
        frames: vec![],
        configures: vec![],
    };
    m.insert_popup(PopupKind::Xdg(1));
    m.insert_popup(PopupKind::Xdg(2));
    m.insert_popup(PopupKind::Xdg(3));
    m.insert_popup(PopupKind::Xdg(4));

    // Popup 4 lost its surface, so it no longer reports a parent.
    let children = m.with_child_popups(&b, 50);
    assert_eq!(children, vec![PopupKind::Xdg(3), PopupKind::Xdg(1)]);

    assert_eq!(m.find_popup(&b, 202), Some(PopupKind::Xdg(2)));
    assert_eq!(m.find_popup(&b, 999), None);

    assert_eq!(PopupKind::Xdg(3).location(&b), pt(3, 4));
    assert_eq!(PopupKind::Xdg(1).location(&b), pt(0, 0));
    assert_eq!(PopupKind::Xdg(4).location(&b), pt(0, 0));
}

#[test]
fn refresh_drops_dead_popups() {
    let (mut m, _rx) = fresh();
    let mut b = Backend {
        toplevels: vec![],
        popups: vec![
            PopupEntry { id: 1, alive: true, surface: Some(201), parent: Some(50), position: None },
            PopupEntry { id: 2, alive: true, surface: Some(202), parent: Some(50), position: None },
        ],
        frames: vec![],
        configures: vec![],
    };
    m.insert_popup(PopupKind::Xdg(1));
    m.insert_popup(PopupKind::Xdg(2));
    b.popups[0].alive = false;
    m.refresh(&b);
    let children = m.with_child_popups(&b, 50);
    assert_eq!(children, vec![PopupKind::Xdg(2)]);
}

#[test]
fn with_top_window_prefers_the_menu_only_when_on_top() {
    let (mut m, _rx) = fresh();
    let b = Backend {
        toplevels: vec![toplevel(1, 101), toplevel(7, 700)],
        popups: vec![],
        frames: vec![],
        configures: vec![],
    };
    m.insert(&b, Kind::Xdg(1), pt(0, 0));
    m.set_menu_window(&b, Kind::Wl(7), pt(5, 5));

    let top = m.with_top_window().expect("menu starts on top");
    assert_eq!(top.0, Kind::Wl(7));

    m.set_menu_on_top(false);
    let top = m.with_top_window().expect("frontmost normal window");
    assert_eq!(top.0, Kind::Xdg(1));
}

#[test]
fn with_top_window_visits_nothing_without_windows_or_menu_on_top() {
    let (mut m, _rx) = fresh();
    m.set_menu_on_top(false);
    assert!(m.with_top_window().is_none());
    assert!(m.with_windows_from_bottom_to_top().is_empty());
}

#[test]
fn with_windows_from_bottom_to_top_reverses_the_stack() {
    let (mut m, _rx) = fresh();
    let b = Backend {
        toplevels: vec![toplevel(1, 101), toplevel(2, 102), toplevel(7, 700)],
        popups: vec![],
        frames: vec![],
        configures: vec![],
    };
    m.insert(&b, Kind::Xdg(1), pt(0, 0));
    m.insert(&b, Kind::Xdg(2), pt(20, 0));
    m.set_menu_window(&b, Kind::Wl(7), pt(5, 5));
    let visits = m.with_windows_from_bottom_to_top();
    let kinds: Vec<Kind> = visits.iter().map(|v| v.0).collect();
    assert_eq!(kinds, vec![Kind::Xdg(1), Kind::Xdg(2), Kind::Wl(7)]);

    m.set_menu_on_top(false);
    let visits = m.with_windows_from_bottom_to_top();
    let kinds: Vec<Kind> = visits.iter().map(|v| v.0).collect();
    assert_eq!(kinds, vec![Kind::Xdg(1), Kind::Xdg(2)]);
}

#[test]
fn geometry_prefers_the_declared_rectangle() {
    let (mut m, _rx) = fresh();
    let declared = Rect { loc: pt(2, 3), size: Size { w: 4, h: 5 } };
    let mut b = Backend {
        toplevels: vec![toplevel(1, 101), toplevel(2, 102)],
        popups: vec![],
        frames: vec![],
        configures: vec![],
    };
    b.toplevels[0].geometry = Some(declared);
    m.insert(&b, Kind::Xdg(1), pt(0, 0));
    m.insert(&b, Kind::Xdg(2), pt(20, 7));

    assert_eq!(m.geometry(&b, &Kind::Xdg(1)), Some(declared));
    // Fall-back: the bounding box of the 10 by 10 buffer at (20, 7).
    assert_eq!(
        m.geometry(&b, &Kind::Xdg(2)),
        Some(Rect { loc: pt(20, 7), size: Size { w: 10, h: 10 } })
    );
    assert_eq!(m.geometry(&b, &Kind::Xdg(9)), None);
}

#[test]
fn send_frames_reaches_every_surface_in_order() {
    let (mut m, _rx) = fresh();
    let tree = SurfaceNode {
        id: 101,
        buffer: Some(Size { w: 10, h: 10 }),
        subsurface_offset: None,
        input_region: None,
        children: vec![leaf(110, 2, 2)],
    };
    let mut b = Backend {
        toplevels: vec![
            ToplevelEntry { id: 1, alive: true, activated: false, geometry: None, surface: Some(tree) },
            toplevel(7, 700),
        ],
        popups: vec![],
        frames: vec![],
        configures: vec![],
    };
    m.insert(&b, Kind::Xdg(1), pt(0, 0));
    m.set_menu_window(&b, Kind::Wl(7), pt(5, 5));
    m.layers.insert(window_registry::layer_map::LayerSurface {
        surface: 900,
        layer: window_registry::layer_map::Layer::Overlay,
        location: pt(0, 0),
        extent: Size { w: 100, h: 100 },
        alive: true,
    });

    m.send_frames(&mut b, 42);
    assert_eq!(b.frames, vec![(101, 42), (110, 42), (700, 42), (900, 42)]);
}

#[test]
fn set_location_updates_the_first_matching_window_only() {
    let (mut m, _rx) = fresh();
    let b = Backend {
        toplevels: vec![toplevel(1, 101)],
        popups: vec![],
        frames: vec![],
        configures: vec![],
    };
    // The same handle tracked twice: only the topmost record moves.
    m.insert(&b, Kind::Xdg(1), pt(0, 0));
    m.insert(&b, Kind::Xdg(1), pt(50, 50));
    m.set_location(&b, &Kind::Xdg(1), pt(7, 8));
    assert_eq!(m.location(&Kind::Xdg(1)), Some(pt(7, 8)));
    assert_eq!(m.windows[1].location, pt(0, 0));
}

#[test]
fn refresh_toplevel_rederives_one_bounding_box() {
    let (mut m, _rx) = fresh();
    let mut b = Backend {
        toplevels: vec![toplevel(1, 101), toplevel(7, 700)],
        popups: vec![],
        frames: vec![],
        configures: vec![],
    };
    m.insert(&b, Kind::Xdg(1), pt(0, 0));
    m.set_menu_window(&b, Kind::Wl(7), pt(5, 5));

    // The client attaches a bigger buffer; only an explicit refresh sees it.
    b.toplevels[0].surface = Some(leaf(101, 30, 30));
    assert_eq!(m.windows[0].bbox.size, Size { w: 10, h: 10 });
    m.refresh_toplevel(&b, &Kind::Xdg(1));
    assert_eq!(m.windows[0].bbox.size, Size { w: 30, h: 30 });

    b.toplevels[1].surface = Some(leaf(700, 8, 9));
    m.refresh_toplevel(&b, &Kind::Wl(7));
    assert_eq!(m.menu_window.unwrap().bbox.size, Size { w: 8, h: 9 });
}
