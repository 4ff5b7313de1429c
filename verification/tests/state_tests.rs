use hyu::state::{Change, CompositorState, FocusRole, KeyAction, PointerOver, Window};
use hyu::state::window_slot;
use hyu::client::Client;
use hyu::pointer::{SurfaceTree, WindowSurfaces};
use hyu::Point;

fn w(fd: i32, toplevel: u32) -> Window {
    Window { fd, toplevel }
}

/// Surfaces for `w` that accept no input.
fn blank_surfaces(w: Window) -> (Window, WindowSurfaces) {
    (w, surfaces(0, None))
}

fn surfaces(surface: u32, size: Option<Point>) -> WindowSurfaces {
    WindowSurfaces {
        toplevel_position: Point(0, 0),
        xdg_surface_position: Point(0, 0),
        popups: Vec::new(),
        tree: SurfaceTree { surface, input_region: None, size, children: Vec::new() },
    }
}

/// Blank surfaces for every window left once the queue is processed.
fn blank(s: &CompositorState<()>) -> Vec<(Window, WindowSurfaces)> {
    s.windows_after(None).into_iter().map(blank_surfaces).collect()
}

/// Tile heights for a 1440-pixel-high screen, by number of windows.
fn rows() -> Vec<i32> {
    (0..16).map(|n: i32| if n < 2 { 1440 } else { 1440 / (n - 1) }).collect()
}

fn with_windows(list: &[(i32, u32)]) -> CompositorState<()> {
    let mut s = CompositorState::<()>::create(2560, 1440);
    for &(fd, id) in list.iter().rev() {
        s.changes.push(Change::Push(fd, id));
    }
    s.process_focus_changes(&rows(), &blank(&s));
    s
}

#[test]
fn create_is_empty() {
    let s = CompositorState::<()>::create(800, 600);
    assert!(s.windows.is_empty());
    assert_eq!(s.get_focused_window(), None);
    assert_eq!(s.width, 800);
    assert_eq!(s.height, 600);
    assert_eq!(s.pointer_position, Point(0, 0));
}

#[test]
fn push_puts_window_on_top_and_focuses_it() {
    let mut s = CompositorState::<()>::create(100, 100);
    s.changes.push(Change::Push(3, 10));
    s.changes.push(Change::Push(4, 11));
    let update = s.process_focus_changes(&rows(), &blank(&s));
    assert_eq!(s.windows, vec![w(4, 11), w(3, 10)]);
    assert_eq!(s.get_focused_window(), Some(w(4, 11)));
    assert_eq!(update.old, None);
    assert_eq!(update.current, Some(w(4, 11)));
    assert!(update.should_leave_from_old);
    assert!(update.recompute);
    assert_eq!(update.applied.len(), 2);
    assert!(s.changes.is_empty());
}

#[test]
fn no_changes_means_no_recompute() {
    let mut s = with_windows(&[(1, 1)]);
    let update = s.process_focus_changes(&rows(), &blank(&s));
    assert!(!update.recompute);
    assert!(!update.should_leave_from_old);
    assert_eq!(update.old, update.current);
}

#[test]
fn removing_focused_window_focuses_top() {
    let mut s = with_windows(&[(1, 1), (2, 2), (3, 3)]);
    assert_eq!(s.get_focused_window(), Some(w(1, 1)));
    s.changes.push(Change::RemoveToplevel(1, 1));
    let update = s.process_focus_changes(&rows(), &blank(&s));
    assert_eq!(s.windows, vec![w(2, 2), w(3, 3)]);
    assert_eq!(s.get_focused_window(), Some(w(2, 2)));
    assert!(!update.should_leave_from_old);
}

#[test]
fn removing_other_window_keeps_focus() {
    let mut s = with_windows(&[(1, 1), (2, 2), (3, 3)]);
    s.changes.push(Change::Pick(3, 3));
    s.process_focus_changes(&rows(), &blank(&s));
    s.changes.push(Change::RemoveToplevel(2, 2));
    s.process_focus_changes(&rows(), &blank(&s));
    assert_eq!(s.windows, vec![w(1, 1), w(3, 3)]);
    assert_eq!(s.get_focused_window(), Some(w(3, 3)));
}

#[test]
fn push_then_remove_restores_stack() {
    let mut s = with_windows(&[(1, 1), (2, 2)]);
    let before = s.windows.clone();
    s.changes.push(Change::Push(9, 9));
    s.changes.push(Change::RemoveToplevel(9, 9));
    s.process_focus_changes(&rows(), &blank(&s));
    assert_eq!(s.windows, before);
}

#[test]
fn removing_client_removes_all_its_windows_and_pointer() {
    let mut s = with_windows(&[(1, 1), (2, 5), (1, 2), (3, 1)]);
    s.pointer_over = Some(PointerOver { fd: 1, toplevel: 2, surface: 7, position: Point(0, 0) });
    s.changes.push(Change::RemoveClient(1));
    s.process_focus_changes(&rows(), &blank(&s));
    assert_eq!(s.windows, vec![w(2, 5), w(3, 1)]);
    assert_eq!(s.get_focused_window(), Some(w(2, 5)));
    assert_eq!(s.pointer_over, None);
}

#[test]
fn removing_last_window_clears_focus() {
    let mut s = with_windows(&[(1, 1)]);
    s.changes.push(Change::RemoveToplevel(1, 1));
    s.process_focus_changes(&rows(), &blank(&s));
    assert!(s.windows.is_empty());
    assert_eq!(s.get_focused_window(), None);
}

#[test]
fn processing_finds_the_surface_under_the_pointer_again() {
    let mut s = with_windows(&[(1, 1)]);
    let table = vec![(w(1, 1), surfaces(7, Some(Point(50, 50))))];
    s.changes.push(Change::RemoveSurface(1, 8));
    let update = s.process_focus_changes(&rows(), &table);
    let over = PointerOver { fd: 1, toplevel: 1, surface: 7, position: Point(0, 0) };
    assert_eq!(s.pointer_over, Some(over));
    assert_eq!(update.pointer.enter, Some(over));
    // A new window on top takes the pointer.
    s.changes.push(Change::Push(2, 2));
    let table = vec![
        (w(1, 1), surfaces(7, Some(Point(50, 50)))),
        (w(2, 2), surfaces(9, Some(Point(10, 10)))),
    ];
    let update = s.process_focus_changes(&rows(), &table);
    let over2 = PointerOver { fd: 2, toplevel: 2, surface: 9, position: Point(0, 0) };
    assert_eq!(s.pointer_over, Some(over2));
    assert_eq!(update.pointer.leave, Some(over));
    assert_eq!(update.pointer.enter, Some(over2));
    // The window under the pointer goes away; the removal already cleared the
    // target, so no leave is sent, and the blank window below takes nothing.
    s.changes.push(Change::RemoveToplevel(2, 2));
    let update = s.process_focus_changes(&rows(), &vec![blank_surfaces(w(1, 1))]);
    assert_eq!(s.pointer_over, None);
    assert_eq!(update.pointer.leave, None);
    assert_eq!(update.pointer.enter, None);
}

#[test]
fn move_down_then_up_restores_stack() {
    let mut s = with_windows(&[(1, 1), (2, 2), (3, 3)]);
    let before = s.windows.clone();
    s.changes.push(Change::MoveDown(1, 1));
    s.process_focus_changes(&rows(), &blank(&s));
    assert_eq!(s.windows, vec![w(2, 2), w(1, 1), w(3, 3)]);
    s.changes.push(Change::MoveUp(1, 1));
    s.process_focus_changes(&rows(), &blank(&s));
    assert_eq!(s.windows, before);
}

#[test]
fn moves_at_the_ends_do_nothing() {
    let mut s = with_windows(&[(1, 1), (2, 2)]);
    let before = s.windows.clone();
    s.changes.push(Change::MoveDown(2, 2));
    s.changes.push(Change::MoveUp(1, 1));
    s.changes.push(Change::MoveUp(5, 5));
    let update = s.process_focus_changes(&rows(), &blank(&s));
    assert_eq!(s.windows, before);
    assert!(!update.should_leave_from_old);
    assert!(update.recompute);
}

#[test]
fn pick_moves_focus_without_moving_windows() {
    let mut s = with_windows(&[(1, 1), (2, 2)]);
    s.changes.push(Change::Pick(2, 2));
    let update = s.process_focus_changes(&rows(), &blank(&s));
    assert_eq!(s.windows, vec![w(1, 1), w(2, 2)]);
    assert_eq!(update.old, Some(w(1, 1)));
    assert_eq!(update.current, Some(w(2, 2)));
    assert!(update.should_leave_from_old);
}

#[test]
fn slot_of_single_window_fills_screen() {
    assert_eq!(window_slot(0, 1, 2560, 1440, 0), (Point(0, 0), Point(2560, 1440)));
}

#[test]
fn slots_of_three_windows_tile_the_screen() {
    assert_eq!(window_slot(0, 3, 2560, 1440, 720), (Point(0, 0), Point(1280, 1440)));
    assert_eq!(window_slot(1, 3, 2560, 1440, 720), (Point(1280, 0), Point(1280, 720)));
    assert_eq!(window_slot(2, 3, 2560, 1440, 720), (Point(1280, 720), Point(1280, 720)));
}

#[test]
fn layout_assigns_tiles_and_roles() {
    let mut s = with_windows(&[(1, 1), (2, 2), (3, 3)]);
    s.changes.push(Change::Pick(2, 2));
    let update = s.process_focus_changes(&rows(), &blank(&s));
    let placements = s.layout(720, update.old, update.should_leave_from_old);
    assert_eq!(update.placements, placements);
    assert_eq!(placements.len(), 3);
    assert_eq!(placements[0].window, w(1, 1));
    assert_eq!(placements[0].role, FocusRole::Leave);
    assert_eq!(placements[1].role, FocusRole::Enter);
    assert_eq!(placements[2].role, FocusRole::Configure);
    assert_eq!(placements[1].position, Point(1280, 0));
    assert_eq!(placements[2].position, Point(1280, 720));
    assert_eq!(placements[2].size, Point(1280, 720));
}

#[test]
fn tiles_do_not_overlap() {
    let amount = 4u32;
    let frac = 1440 / 3;
    let tiles: Vec<_> = (0..amount).map(|i| window_slot(i, amount, 2560, 1440, frac)).collect();
    for i in 0..tiles.len() {
        for j in i + 1..tiles.len() {
            let (a, b) = (tiles[i], tiles[j]);
            let disjoint = a.0 .0 + a.1 .0 <= b.0 .0
                || b.0 .0 + b.1 .0 <= a.0 .0
                || a.0 .1 + a.1 .1 <= b.0 .1
                || b.0 .1 + b.1 .1 <= a.0 .1;
            assert!(disjoint);
        }
    }
}

const LOGO: u32 = 64;
const SHIFT: u32 = 1;

#[test]
fn logo_escape_quits_and_logo_t_spawns() {
    let mut s = with_windows(&[(1, 1)]);
    assert_eq!(s.on_keyboard_button(LOGO, 1, 1, &rows(), &blank(&s)).0, KeyAction::Quit);
    assert_eq!(s.on_keyboard_button(LOGO, 20, 1, &rows(), &blank(&s)).0, KeyAction::SpawnTerminal);
    let (action, update) = s.on_keyboard_button(LOGO, 1, 0, &rows(), &blank(&s));
    assert_eq!(action, KeyAction::Ignore);
    assert!(update.is_none());
    assert!(s.changes.is_empty());
}

#[test]
fn logo_c_closes_focused_window() {
    let mut s = with_windows(&[(4, 9), (5, 1)]);
    assert_eq!(s.on_keyboard_button(LOGO, 46, 1, &rows(), &blank(&s)).0, KeyAction::Close(w(4, 9)));
    let mut empty = CompositorState::<()>::create(10, 10);
    assert_eq!(empty.on_keyboard_button(LOGO, 46, 1, &rows(), &blank(&empty)).0, KeyAction::Ignore);
}

#[test]
fn logo_j_and_k_pick_neighbours() {
    let mut s = with_windows(&[(1, 1), (2, 2), (3, 3)]);
    let (action, update) = s.on_keyboard_button(LOGO, 36, 1, &rows(), &blank(&s));
    assert_eq!(action, KeyAction::Refocus);
    let update = update.unwrap();
    assert_eq!(update.applied, vec![Change::Pick(2, 2)]);
    assert_eq!(s.get_focused_window(), Some(w(2, 2)));
    assert_eq!(s.windows, vec![w(1, 1), w(2, 2), w(3, 3)]);
    assert_eq!(update.placements[0].role, FocusRole::Leave);
    assert_eq!(update.placements[1].role, FocusRole::Enter);
    assert!(s.changes.is_empty());

    let (action, _) = s.on_keyboard_button(LOGO, 37, 1, &rows(), &blank(&s));
    assert_eq!(action, KeyAction::Refocus);
    assert_eq!(s.get_focused_window(), Some(w(1, 1)));
    let (action, update) = s.on_keyboard_button(LOGO, 37, 1, &rows(), &blank(&s));
    assert_eq!(action, KeyAction::Ignore);
    assert!(update.is_none());
    assert_eq!(s.get_focused_window(), Some(w(1, 1)));
}

#[test]
fn logo_j_at_bottom_does_nothing() {
    let mut s = with_windows(&[(1, 1), (2, 2)]);
    s.changes.push(Change::Pick(2, 2));
    s.process_focus_changes(&rows(), &blank(&s));
    assert_eq!(s.on_keyboard_button(LOGO, 36, 1, &rows(), &blank(&s)).0, KeyAction::Ignore);
    assert_eq!(s.get_focused_window(), Some(w(2, 2)));
    assert!(s.changes.is_empty());
}

#[test]
fn logo_shift_j_and_k_move_focused_window() {
    let mut s = with_windows(&[(1, 1), (2, 2)]);
    let (action, update) = s.on_keyboard_button(LOGO | SHIFT, 36, 1, &rows(), &blank(&s));
    assert_eq!(action, KeyAction::Refocus);
    assert_eq!(update.unwrap().applied, vec![Change::MoveDown(1, 1)]);
    assert_eq!(s.windows, vec![w(2, 2), w(1, 1)]);
    assert_eq!(s.get_focused_window(), Some(w(1, 1)));
    let (action, _) = s.on_keyboard_button(LOGO | SHIFT, 37, 1, &rows(), &blank(&s));
    assert_eq!(action, KeyAction::Refocus);
    assert_eq!(s.windows, vec![w(1, 1), w(2, 2)]);
    assert_eq!(s.get_focused_window(), Some(w(1, 1)));
}

#[test]
fn plain_keys_go_to_focused_client() {
    let mut s = with_windows(&[(7, 1)]);
    assert_eq!(s.on_keyboard_button(0, 30, 1, &rows(), &blank(&s)).0, KeyAction::Forward(7));
    assert_eq!(s.on_keyboard_button(SHIFT, 30, 0, &rows(), &blank(&s)).0, KeyAction::Forward(7));
    let mut empty = CompositorState::<()>::create(10, 10);
    assert_eq!(empty.on_keyboard_button(0, 30, 1, &rows(), &blank(&empty)).0, KeyAction::Ignore);
}

#[test]
fn logo_with_other_key_is_ignored() {
    let mut s = with_windows(&[(7, 1)]);
    assert_eq!(s.on_keyboard_button(LOGO, 30, 1, &rows(), &blank(&s)).0, KeyAction::Ignore);
}

#[test]
fn button_on_unfocused_window_picks_it() {
    let mut s = with_windows(&[(1, 1), (2, 2)]);
    let table = vec![blank_surfaces(w(1, 1)), (w(2, 2), surfaces(5, Some(Point(10, 10))))];
    let po = PointerOver { fd: 2, toplevel: 2, surface: 5, position: Point(0, 0) };
    s.pointer_over = Some(po);
    let (target, update) = s.on_mouse_button(&rows(), &table);
    assert_eq!(target, Some(po));
    assert_eq!(update.unwrap().applied, vec![Change::Pick(2, 2)]);
    assert_eq!(s.get_focused_window(), Some(w(2, 2)));
    assert_eq!(s.windows, vec![w(1, 1), w(2, 2)]);
    assert_eq!(s.pointer_over, Some(po));
    let (target, update) = s.on_mouse_button(&rows(), &table);
    assert_eq!(target, Some(po));
    assert!(update.unwrap().applied.is_empty());
    assert!(s.changes.is_empty());
}

#[test]
fn button_without_pointer_target_does_nothing() {
    let mut s = with_windows(&[(1, 1)]);
    let (target, update) = s.on_mouse_button(&rows(), &blank(&s));
    assert_eq!(target, None);
    assert!(update.is_none());
    assert!(s.changes.is_empty());
}

#[test]
fn push_maximizes_and_places_every_window() {
    let mut s = with_windows(&[(1, 1)]);
    s.changes.push(Change::Push(2, 2));
    let update = s.process_focus_changes(&rows(), &blank(&s));
    assert_eq!(update.maximized, vec![w(2, 2)]);
    assert_eq!(update.placements.len(), 2);
    assert_eq!(update.placements[0].window, w(2, 2));
    assert_eq!(update.placements[0].role, FocusRole::Enter);
    assert_eq!(update.placements[0].size, Point(1280, 1440));
    assert_eq!(update.placements[1].role, FocusRole::Leave);
    assert_eq!(update.placements[1].position, Point(1280, 0));
    assert_eq!(update.placements[1].size, Point(1280, 1440));
}

#[test]
fn queue_check_refuses_pick_of_removed_window() {
    let mut s = with_windows(&[(1, 1), (2, 2)]);
    assert!(s.queue_allowed(Some(Change::Pick(2, 2))));
    s.changes.push(Change::RemoveClient(2));
    assert!(s.queue_allowed(None));
    assert!(!s.queue_allowed(Some(Change::Pick(2, 2))));
    assert!(s.queue_allowed(Some(Change::Pick(1, 1))));
    assert!(!s.queue_allowed(Some(Change::Pick(9, 9))));
}

#[test]
fn scroll_goes_to_client_under_pointer() {
    let mut s = with_windows(&[(1, 1)]);
    assert_eq!(s.on_mouse_scroll(), None);
    s.pointer_over = Some(PointerOver { fd: 1, toplevel: 1, surface: 5, position: Point(0, 0) });
    assert_eq!(s.on_mouse_scroll(), Some(1));
}

#[test]
fn cursor_move_records_position() {
    let mut s = CompositorState::<()>::create(10, 10);
    let events = s.on_cursor_move((4, 9), &Vec::new());
    assert_eq!(s.pointer_position, Point(4, 9));
    assert_eq!(events.enter, None);
}

#[test]
fn removing_client_drops_it_from_the_client_map() {
    let mut s = with_windows(&[(1, 1), (2, 2)]);
    s.clients.insert(1, Client::new(1, Point(0, 0)));
    s.clients.insert(2, Client::new(2, Point(0, 0)));
    s.changes.push(Change::RemoveClient(1));
    s.process_focus_changes(&rows(), &blank(&s));
    assert!(!s.clients.contains_key(&1));
    assert!(s.clients.contains_key(&2));
    assert_eq!(s.windows, vec![w(2, 2)]);
}
