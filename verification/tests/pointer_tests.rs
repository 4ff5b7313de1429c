use hyu::draw::{Buffer, PopupBuffers, Quad, QuadTexture, WindowBuffers};
use hyu::pointer::{
    is_cursor_over_surface, pointer_events, PopupSurfaces, SurfaceTree, WindowSurfaces,
};
use hyu::state::{Change, CompositorState, PointerOver};
use hyu::Point;

fn leaf(surface: u32, size: Option<Point>) -> SurfaceTree {
    SurfaceTree { surface, input_region: None, size, children: Vec::new() }
}

fn window(tree: SurfaceTree) -> WindowSurfaces {
    WindowSurfaces {
        toplevel_position: Point(0, 0),
        xdg_surface_position: Point(0, 0),
        popups: Vec::new(),
        tree,
    }
}

#[test]
fn surface_without_region_uses_its_size() {
    let s = leaf(1, Some(Point(10, 10)));
    assert!(is_cursor_over_surface(Point(15, 15), Point(10, 10), &s));
    assert!(!is_cursor_over_surface(Point(20, 15), Point(10, 10), &s));
    assert!(!is_cursor_over_surface(Point(0, 0), Point(0, 0), &leaf(1, None)));
}

#[test]
fn input_region_decides_when_present() {
    let s = SurfaceTree {
        surface: 1,
        input_region: Some(vec![(Point(0, 0), Point(5, 5)), (Point(20, 20), Point(5, 5))]),
        size: Some(Point(100, 100)),
        children: Vec::new(),
    };
    assert!(is_cursor_over_surface(Point(2, 2), Point(0, 0), &s));
    assert!(is_cursor_over_surface(Point(122, 122), Point(100, 100), &s));
    assert!(!is_cursor_over_surface(Point(10, 10), Point(0, 0), &s));
}

fn state_with(windows: &[(i32, u32)]) -> CompositorState<()> {
    let mut s = CompositorState::<()>::create(100, 100);
    for &(fd, id) in windows.iter().rev() {
        s.changes.push(Change::Push(fd, id));
    }
    let table: Vec<_> = s.windows_after(None).into_iter().map(|w| (w, window(leaf(0, None)))).collect();
    s.process_focus_changes(&[100; 16], &table);
    s
}

#[test]
fn pointer_enters_the_topmost_window_under_it() {
    let mut s = state_with(&[(1, 10), (2, 20)]);
    let surfaces = vec![
        window(leaf(100, Some(Point(50, 50)))),
        window(leaf(200, Some(Point(100, 100)))),
    ];
    let events = s.on_cursor_move((10, 10), &surfaces);
    let expected = PointerOver { fd: 1, toplevel: 10, surface: 100, position: Point(10, 10) };
    assert_eq!(s.pointer_over, Some(expected));
    assert_eq!(events.leave, None);
    assert_eq!(events.enter, Some(expected));
    assert_eq!(events.motion, None);

    let events = s.on_cursor_move((60, 60), &surfaces);
    let second = PointerOver { fd: 2, toplevel: 20, surface: 200, position: Point(60, 60) };
    assert_eq!(s.pointer_over, Some(second));
    assert_eq!(events.leave, Some(expected));
    assert_eq!(events.enter, Some(second));
}

#[test]
fn moving_within_a_surface_sends_motion_only() {
    let mut s = state_with(&[(1, 10)]);
    let surfaces = vec![window(leaf(100, Some(Point(50, 50))))];
    s.on_cursor_move((10, 10), &surfaces);
    let events = s.on_cursor_move((11, 12), &surfaces);
    assert_eq!(events.leave, None);
    assert_eq!(events.enter, None);
    assert_eq!(events.motion.map(|p| p.position), Some(Point(11, 12)));
    let again = s.calculate_pointer_focus(&surfaces);
    assert_eq!(again.leave, None);
    assert_eq!(again.enter, None);
    assert_eq!(again.motion, None);
}

#[test]
fn last_sub_surface_under_the_cursor_wins() {
    let mut s = state_with(&[(1, 10)]);
    let tree = SurfaceTree {
        surface: 1,
        input_region: None,
        size: Some(Point(100, 100)),
        children: vec![
            (Point(10, 10), leaf(2, Some(Point(20, 20)))),
            (Point(15, 15), leaf(3, Some(Point(20, 20)))),
        ],
    };
    let surfaces = vec![window(tree)];
    s.on_cursor_move((20, 20), &surfaces);
    assert_eq!(
        s.pointer_over,
        Some(PointerOver { fd: 1, toplevel: 10, surface: 3, position: Point(5, 5) })
    );
    s.on_cursor_move((12, 12), &surfaces);
    assert_eq!(s.pointer_over.map(|p| p.surface), Some(2));
    s.on_cursor_move((90, 90), &surfaces);
    assert_eq!(s.pointer_over.map(|p| p.surface), Some(1));
}

#[test]
fn popups_come_before_the_window_surface() {
    let mut s = state_with(&[(1, 10)]);
    let surfaces = vec![WindowSurfaces {
        toplevel_position: Point(100, 100),
        xdg_surface_position: Point(0, 0),
        popups: vec![PopupSurfaces {
            xdg_surface_position: Point(0, 0),
            position: Point(5, 5),
            tree: leaf(9, Some(Point(10, 10))),
        }],
        tree: leaf(1, Some(Point(50, 50))),
    }];
    s.on_cursor_move((107, 107), &surfaces);
    assert_eq!(
        s.pointer_over,
        Some(PointerOver { fd: 1, toplevel: 10, surface: 9, position: Point(2, 2) })
    );
    s.on_cursor_move((140, 140), &surfaces);
    assert_eq!(s.pointer_over.map(|p| (p.surface, p.position)), Some((1, Point(40, 40))));
}

#[test]
fn leaving_all_surfaces_sends_leave() {
    let mut s = state_with(&[(1, 10)]);
    let surfaces = vec![window(leaf(100, Some(Point(50, 50))))];
    s.on_cursor_move((10, 10), &surfaces);
    let events = s.on_cursor_move((80, 80), &surfaces);
    assert_eq!(s.pointer_over, None);
    assert_eq!(events.leave.map(|p| p.surface), Some(100));
    assert_eq!(events.enter, None);
}

#[test]
fn events_for_unchanged_target_are_empty() {
    let p = Some(PointerOver { fd: 1, toplevel: 1, surface: 1, position: Point(1, 1) });
    let e = pointer_events(p, p);
    assert_eq!((e.leave, e.enter, e.motion), (None, None, None));
    let e = pointer_events(None, None);
    assert_eq!((e.leave, e.enter, e.motion), (None, None, None));
}

#[test]
fn frame_draws_windows_popups_then_cursor() {
    let mut s = state_with(&[(1, 10), (2, 20)]);
    s.on_cursor_move((5, 6), &vec![window(leaf(1, None)), window(leaf(2, None))]);
    let buffers = vec![
        WindowBuffers {
            toplevel_position: Point(100, 50),
            xdg_surface_position: Point(10, 10),
            buffers: vec![Buffer { position: Point(0, 0), size: Point(30, 20), surface: 7 }],
            popups: vec![PopupBuffers {
                position: Point(5, 5),
                xdg_surface_position: Point(1, 1),
                buffers: vec![Buffer { position: Point(2, 3), size: Point(4, 4), surface: 8 }],
            }],
        },
        WindowBuffers {
            toplevel_position: Point(0, 0),
            xdg_surface_position: Point(0, 0),
            buffers: Vec::new(),
            popups: Vec::new(),
        },
    ];
    let quads = s.render(&buffers, false);
    assert_eq!(
        quads,
        vec![
            Quad {
                position: Point(90, 40),
                size: Point(30, 20),
                texture: QuadTexture::Surface { fd: 1, surface: 7 },
            },
            Quad {
                position: Point(106, 57),
                size: Point(4, 4),
                texture: QuadTexture::Surface { fd: 1, surface: 8 },
            },
            Quad { position: Point(5, 6), size: Point(2, 2), texture: QuadTexture::Cursor },
        ]
    );
    assert_eq!(s.render(&buffers, true).len(), 3);
    s.pointer_over = Some(PointerOver { fd: 1, toplevel: 10, surface: 7, position: Point(0, 0) });
    assert_eq!(s.render(&buffers, true).len(), 2);
}
