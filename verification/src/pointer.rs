//! Which surface the pointer is over: the surfaces of each window form a
//! tree of sub-surfaces, with popups above the window itself.
use vstd::prelude::*;

use crate::point::Point;
use crate::state::{CompositorState, PointerOver, Window};

verus! {

/// A surface with its sub-surfaces. `input_region`, when present, is the
/// list of rectangles (corner, size) that accept input; otherwise a surface
/// with content of size `size` accepts input over all of it.
pub struct SurfaceTree {
    pub surface: u32,
    pub input_region: Option<Vec<(Point, Point)>>,
    pub size: Option<Point>,
    /// Each sub-surface with its position relative to this surface.
    pub children: Vec<(Point, SurfaceTree)>,
}

/// Some area of the input region, moved to `pos`, holds the cursor.
pub open spec fn region_hit(region: Seq<(Point, Point)>, cursor: Point, pos: Point) -> bool {
    exists|k: int|
        0 <= k < region.len() && crate::point::inside(
            cursor,
            crate::point::point_add(pos, region[k].0),
            region[k].1,
        )
}

/// The cursor is over the surface `t` drawn at `pos`.
pub open spec fn over_surface(t: SurfaceTree, cursor: Point, pos: Point) -> bool {
    match t.input_region {
        Some(r) => region_hit(r@, cursor, pos),
        None => match t.size {
            Some(size) => crate::point::inside(cursor, pos, size),
            None => false,
        },
    }
}

/// The arithmetic that the test for `t` performs stays in range: the areas of
/// the input region are tried in order until one holds the cursor.
pub open spec fn over_defined(t: SurfaceTree, cursor: Point, pos: Point) -> bool {
    match t.input_region {
        Some(r) => forall|k: int|
            #![trigger r@[k]]
            0 <= k < r@.len() && (forall|j: int|
                0 <= j < k ==> !crate::point::inside(
                    cursor,
                    crate::point::point_add(pos, #[trigger] r@[j].0),
                    r@[j].1,
                )) ==> crate::point::add_fits(pos, r@[k].0) && crate::point::is_inside_defined(
                cursor,
                crate::point::point_add(pos, r@[k].0),
                r@[k].1,
            ),
        None => match t.size {
            Some(size) => crate::point::is_inside_defined(cursor, pos, size),
            None => true,
        },
    }
}

/// The pointer target after visiting `t` (drawn at `pos`) and its
/// sub-surfaces in order: the last surface visited that holds the cursor, or
/// `acc` if none does.
pub open spec fn hit_node(
    t: SurfaceTree,
    fd: i32,
    toplevel: u32,
    cursor: Point,
    pos: Point,
    acc: Option<PointerOver>,
) -> Option<PointerOver>
    decreases t, 0nat,
{
    let acc1 = if over_surface(t, cursor, pos) {
        Some(
            PointerOver {
                fd,
                toplevel,
                surface: t.surface,
                position: crate::point::point_sub(cursor, pos),
            },
        )
    } else {
        acc
    };
    proof {
        assert(decreases_to!(t => t.children));
        assert(decreases_to!(t.children => t.children@));
    }
    hit_list(t.children@, fd, toplevel, cursor, pos, acc1)
}

/// The pointer target after visiting the sub-surfaces `cs` of a surface
/// drawn at `base`, in order.
pub open spec fn hit_list(
    cs: Seq<(Point, SurfaceTree)>,
    fd: i32,
    toplevel: u32,
    cursor: Point,
    base: Point,
    acc: Option<PointerOver>,
) -> Option<PointerOver>
    decreases cs, 1nat,
{
    if cs.len() == 0 {
        acc
    } else {
        proof {
            assert(decreases_to!(cs => cs[0]));
            assert(decreases_to!(cs[0] => cs[0].1));
        }
        let acc1 = hit_node(
            cs[0].1,
            fd,
            toplevel,
            cursor,
            crate::point::point_add(base, cs[0].0),
            acc,
        );
        hit_list(cs.drop_first(), fd, toplevel, cursor, base, acc1)
    }
}

/// The arithmetic of visiting `t` at `pos` and its sub-surfaces stays in
/// range.
pub open spec fn node_defined(t: SurfaceTree, cursor: Point, pos: Point) -> bool
    decreases t, 0nat,
{
    proof {
        assert(decreases_to!(t => t.children));
        assert(decreases_to!(t.children => t.children@));
    }
    &&& over_defined(t, cursor, pos)
    &&& (over_surface(t, cursor, pos) ==> crate::point::sub_fits(cursor, pos))
    &&& list_defined(t.children@, cursor, pos)
}

/// The arithmetic of visiting the sub-surfaces `cs` of a surface at `base`
/// stays in range.
pub open spec fn list_defined(cs: Seq<(Point, SurfaceTree)>, cursor: Point, base: Point) -> bool
    decreases cs, 1nat,
{
    if cs.len() == 0 {
        true
    } else {
        proof {
            assert(decreases_to!(cs => cs[0]));
            assert(decreases_to!(cs[0] => cs[0].1));
        }
        &&& crate::point::add_fits(base, cs[0].0)
        &&& node_defined(cs[0].1, cursor, crate::point::point_add(base, cs[0].0))
        &&& list_defined(cs.drop_first(), cursor, base)
    }
}

/// Whether the cursor is over the surface `t` drawn at `surface_position`.
pub fn is_cursor_over_surface(cursor_position: Point, surface_position: Point, surface: &SurfaceTree) -> (r: bool)
    requires
        over_defined(*surface, cursor_position, surface_position),
    ensures
        r == over_surface(*surface, cursor_position, surface_position),
{
    if let Some(input_region) = &surface.input_region {
        let mut k: usize = 0;
        while k < input_region.len()
            invariant
                k <= input_region.len(),
                surface.input_region == Some(*input_region),
                over_defined(*surface, cursor_position, surface_position),
                forall|j: int|
                    0 <= j < k ==> !crate::point::inside(
                        cursor_position,
                        crate::point::point_add(surface_position, #[trigger] input_region@[j].0),
                        input_region@[j].1,
                    ),
            decreases input_region.len() - k,
        {
            let area = input_region[k];
            proof {
                let r = surface.input_region->0;
                assert(r@[k as int] == area);
                assert(forall|j: int|
                    0 <= j < k ==> !crate::point::inside(
                        cursor_position,
                        crate::point::point_add(surface_position, #[trigger] r@[j].0),
                        r@[j].1,
                    ));
            }
            let position = surface_position + area.0;
            if cursor_position.is_inside((position, area.1)) {
                return true;
            }
            k = k + 1;
        }
        proof {
            if region_hit(input_region@, cursor_position, surface_position) {
                let k = choose|k: int|
                    0 <= k < input_region@.len() && crate::point::inside(
                        cursor_position,
                        crate::point::point_add(surface_position, input_region@[k].0),
                        input_region@[k].1,
                    );
                assert(input_region@[k] == input_region@[k]);
            }
        }
        false
    } else if let Some(size) = surface.size {
        cursor_position.is_inside((surface_position, size))
    } else {
        false
    }
}

/// Visits `surface` at `surface_position` and its sub-surfaces in order, and
/// records each surface that holds the cursor as the pointer target.
pub fn recurse(
    pointer_over: &mut Option<PointerOver>,
    fd: i32,
    toplevel: u32,
    surface: &SurfaceTree,
    cursor_position: Point,
    surface_position: Point,
)
    requires
        node_defined(*surface, cursor_position, surface_position),
    ensures
        *final(pointer_over) == hit_node(
            *surface,
            fd,
            toplevel,
            cursor_position,
            surface_position,
            *old(pointer_over),
        ),
    decreases surface,
{
    if is_cursor_over_surface(cursor_position, surface_position, surface) {
        *pointer_over = Some(
            PointerOver {
                fd,
                toplevel,
                surface: surface.surface,
                position: cursor_position - surface_position,
            },
        );
    }
    let ghost acc1 = *pointer_over;
    let children = &surface.children;
    let mut i: usize = 0;
    proof {
        assert(children@.skip(0) =~= children@);
    }
    while i < children.len()
        invariant
            i <= children.len(),
            *children == surface.children,
            list_defined(children@.skip(i as int), cursor_position, surface_position),
            hit_list(children@, fd, toplevel, cursor_position, surface_position, acc1)
                == hit_list(
                children@.skip(i as int),
                fd,
                toplevel,
                cursor_position,
                surface_position,
                *pointer_over,
            ),
        decreases children.len() - i,
    {
        let child = &children[i];
        proof {
            let rest = children@.skip(i as int);
            assert(rest[0] == children@[i as int]);
            assert(rest.drop_first() =~= children@.skip(i + 1));
            assert(decreases_to!(*surface => surface.children));
            assert(decreases_to!(surface.children => surface.children@));
            assert(decreases_to!(surface.children@ => surface.children@[i as int]));
            assert(decreases_to!(surface.children@[i as int] => surface.children@[i as int].1));
        }
        let position = surface_position + child.0;
        recurse(pointer_over, fd, toplevel, &child.1, cursor_position, position);
        i = i + 1;
    }
}

/// A popup of a window: the position of its `xdg_surface` geometry, its
/// position relative to the window, and its surfaces.
pub struct PopupSurfaces {
    pub xdg_surface_position: Point,
    pub position: Point,
    pub tree: SurfaceTree,
}

/// The surfaces of a toplevel window: its position, the position of its
/// `xdg_surface` geometry, its popups (topmost first) and its own surfaces.
pub struct WindowSurfaces {
    pub toplevel_position: Point,
    pub xdg_surface_position: Point,
    pub popups: Vec<PopupSurfaces>,
    pub tree: SurfaceTree,
}

/// Where the window's surface is drawn.
pub open spec fn window_origin(ws: WindowSurfaces) -> Point {
    crate::point::point_sub(ws.toplevel_position, ws.xdg_surface_position)
}

/// Where a popup's surface is drawn, given the window's origin.
pub open spec fn popup_origin(origin: Point, p: PopupSurfaces) -> Point {
    crate::point::point_add(crate::point::point_sub(origin, p.xdg_surface_position), p.position)
}

/// The pointer target among the popups `ps`: the first popup that holds the
/// cursor decides.
pub open spec fn popups_hit(
    ps: Seq<PopupSurfaces>,
    w: Window,
    cursor: Point,
    origin: Point,
) -> Option<PointerOver>
    decreases ps.len(),
{
    if ps.len() == 0 {
        None
    } else {
        let h = hit_node(ps[0].tree, w.fd, w.toplevel, cursor, popup_origin(origin, ps[0]), None);
        if h is Some {
            h
        } else {
            popups_hit(ps.drop_first(), w, cursor, origin)
        }
    }
}

/// The pointer target within a window: its popups come first, then its own
/// surfaces.
pub open spec fn window_hit(w: Window, ws: WindowSurfaces, cursor: Point) -> Option<PointerOver> {
    let p = popups_hit(ws.popups@, w, cursor, window_origin(ws));
    if p is Some {
        p
    } else {
        hit_node(ws.tree, w.fd, w.toplevel, cursor, window_origin(ws), None)
    }
}

/// The pointer target: the first window of the stack that holds the cursor
/// decides.
pub open spec fn pointer_target(
    windows: Seq<Window>,
    surfaces: Seq<WindowSurfaces>,
    cursor: Point,
) -> Option<PointerOver>
    decreases windows.len(),
{
    if windows.len() == 0 || surfaces.len() == 0 {
        None
    } else {
        let h = window_hit(windows[0], surfaces[0], cursor);
        if h is Some {
            h
        } else {
            pointer_target(windows.drop_first(), surfaces.drop_first(), cursor)
        }
    }
}

/// The arithmetic of trying the popups `ps` in order stays in range.
pub open spec fn popups_defined(ps: Seq<PopupSurfaces>, w: Window, cursor: Point, origin: Point) -> bool
    decreases ps.len(),
{
    if ps.len() == 0 {
        true
    } else {
        &&& crate::point::sub_fits(origin, ps[0].xdg_surface_position)
        &&& crate::point::add_fits(
            crate::point::point_sub(origin, ps[0].xdg_surface_position),
            ps[0].position,
        )
        &&& node_defined(ps[0].tree, cursor, popup_origin(origin, ps[0]))
        &&& (hit_node(ps[0].tree, w.fd, w.toplevel, cursor, popup_origin(origin, ps[0]), None) is None
            ==> popups_defined(ps.drop_first(), w, cursor, origin))
    }
}

/// The arithmetic of trying a window stays in range.
pub open spec fn window_defined(w: Window, ws: WindowSurfaces, cursor: Point) -> bool {
    &&& crate::point::sub_fits(ws.toplevel_position, ws.xdg_surface_position)
    &&& popups_defined(ws.popups@, w, cursor, window_origin(ws))
    &&& (popups_hit(ws.popups@, w, cursor, window_origin(ws)) is None ==> node_defined(
        ws.tree,
        cursor,
        window_origin(ws),
    ))
}

/// The arithmetic of trying the windows in order stays in range.
pub open spec fn targets_defined(
    windows: Seq<Window>,
    surfaces: Seq<WindowSurfaces>,
    cursor: Point,
) -> bool
    decreases windows.len(),
{
    if windows.len() == 0 || surfaces.len() == 0 {
        true
    } else {
        &&& window_defined(windows[0], surfaces[0], cursor)
        &&& (window_hit(windows[0], surfaces[0], cursor) is None ==> targets_defined(
            windows.drop_first(),
            surfaces.drop_first(),
            cursor,
        ))
    }
}

/// The pointer target within one window.
fn window_target(w: Window, ws: &WindowSurfaces, cursor_position: Point) -> (r: Option<PointerOver>)
    requires
        window_defined(w, *ws, cursor_position),
    ensures
        r == window_hit(w, *ws, cursor_position),
{
    let position = ws.toplevel_position - ws.xdg_surface_position;
    let mut i: usize = 0;
    proof {
        assert(ws.popups@.skip(0) =~= ws.popups@);
    }
    while i < ws.popups.len()
        invariant
            i <= ws.popups.len(),
            position == window_origin(*ws),
            popups_defined(ws.popups@.skip(i as int), w, cursor_position, position),
            popups_hit(ws.popups@, w, cursor_position, position) == popups_hit(
                ws.popups@.skip(i as int),
                w,
                cursor_position,
                position,
            ),
            window_defined(w, *ws, cursor_position),
        decreases ws.popups.len() - i,
    {
        let popup = &ws.popups[i];
        proof {
            let rest = ws.popups@.skip(i as int);
            assert(rest[0] == ws.popups@[i as int]);
            assert(rest.drop_first() =~= ws.popups@.skip(i + 1));
        }
        let popup_position = (position - popup.xdg_surface_position) + popup.position;
        let mut new: Option<PointerOver> = None;
        recurse(&mut new, w.fd, w.toplevel, &popup.tree, cursor_position, popup_position);
        if new.is_some() {
            return new;
        }
        i = i + 1;
    }
    let mut new: Option<PointerOver> = None;
    recurse(&mut new, w.fd, w.toplevel, &ws.tree, cursor_position, position);
    new
}

/// The pointer target among all windows, topmost first.
fn find_pointer_target(windows: &Vec<Window>, surfaces: &Vec<WindowSurfaces>, cursor_position: Point) -> (r: Option<PointerOver>)
    requires
        targets_defined(windows@, surfaces@, cursor_position),
    ensures
        r == pointer_target(windows@, surfaces@, cursor_position),
{
    let mut i: usize = 0;
    proof {
        assert(windows@.skip(0) =~= windows@);
        assert(surfaces@.skip(0) =~= surfaces@);
    }
    while i < windows.len() && i < surfaces.len()
        invariant
            i <= windows.len(),
            i <= surfaces.len(),
            targets_defined(windows@.skip(i as int), surfaces@.skip(i as int), cursor_position),
            pointer_target(windows@, surfaces@, cursor_position) == pointer_target(
                windows@.skip(i as int),
                surfaces@.skip(i as int),
                cursor_position,
            ),
        decreases windows.len() - i,
    {
        proof {
            assert(windows@.skip(i as int)[0] == windows@[i as int]);
            assert(surfaces@.skip(i as int)[0] == surfaces@[i as int]);
            assert(windows@.skip(i as int).drop_first() =~= windows@.skip(i + 1));
            assert(surfaces@.skip(i as int).drop_first() =~= surfaces@.skip(i + 1));
        }
        let h = window_target(windows[i], &surfaces[i], cursor_position);
        if h.is_some() {
            return h;
        }
        i = i + 1;
    }
    None
}

/// The windows that a table of surfaces has entries for, in table order.
pub open spec fn table_keys(table: Seq<(Window, WindowSurfaces)>) -> Seq<Window> {
    table.map_values(|e: (Window, WindowSurfaces)| e.0)
}

/// The table has an entry for every window of `windows`.
pub open spec fn table_covers(table: Seq<(Window, WindowSurfaces)>, windows: Seq<Window>) -> bool {
    forall|i: int| 0 <= i < windows.len() ==> table_keys(table).contains(#[trigger] windows[i])
}

/// The surfaces of each window of `windows`, from its first entry in the
/// table.
pub open spec fn surfaces_for(
    table: Seq<(Window, WindowSurfaces)>,
    windows: Seq<Window>,
) -> Seq<WindowSurfaces> {
    Seq::new(
        windows.len(),
        |i: int|
            match table_keys(table).index_of_first(windows[i]) {
                Some(k) => table[k].1,
                None => table[0].1,
            },
    )
}

/// The position of the first entry of `w` in the table.
fn find_entry(table: &Vec<(Window, WindowSurfaces)>, w: Window) -> (r: Option<usize>)
    ensures
        match r {
            Some(k) => table_keys(table@).index_of_first(w) == Some(k as int),
            None => table_keys(table@).index_of_first(w) is None,
        },
{
    let ghost keys = table_keys(table@);
    proof {
        keys.index_of_first_ensures(w);
    }
    let mut k: usize = 0;
    while k < table.len()
        invariant
            k <= table.len(),
            keys == table_keys(table@),
            forall|j: int| 0 <= j < k ==> keys[j] != w,
        decreases table.len() - k,
    {
        if table[k].0 == w {
            proof {
                assert(keys[k as int] == w);
                assert(keys.contains(w));
                keys.index_of_first_ensures(w);
                let j = keys.index_of_first(w)->0;
                if j < k {
                    assert(keys[j] != w);
                }
                if j > k {
                    assert(keys[k as int] != w);
                }
            }
            return Some(k);
        }
        proof {
            assert(keys[k as int] == table@[k as int].0);
        }
        k = k + 1;
    }
    proof {
        keys.index_of_first_ensures(w);
        if keys.contains(w) {
            let j = choose|j: int| 0 <= j < keys.len() && keys[j] == w;
            assert(keys[j] != w);
        }
    }
    None
}

/// The pointer target among all windows, topmost first, with the surfaces of
/// each window looked up in `table`.
fn find_pointer_target_keyed(
    windows: &Vec<Window>,
    table: &Vec<(Window, WindowSurfaces)>,
    cursor_position: Point,
) -> (r: Option<PointerOver>)
    requires
        table_covers(table@, windows@),
        targets_defined(windows@, surfaces_for(table@, windows@), cursor_position),
    ensures
        r == pointer_target(windows@, surfaces_for(table@, windows@), cursor_position),
{
    let ghost s = surfaces_for(table@, windows@);
    let mut i: usize = 0;
    proof {
        assert(windows@.skip(0) =~= windows@);
        assert(s.skip(0) =~= s);
    }
    while i < windows.len()
        invariant
            i <= windows.len(),
            s == surfaces_for(table@, windows@),
            s.len() == windows.len(),
            table_covers(table@, windows@),
            targets_defined(windows@.skip(i as int), s.skip(i as int), cursor_position),
            pointer_target(windows@, s, cursor_position) == pointer_target(
                windows@.skip(i as int),
                s.skip(i as int),
                cursor_position,
            ),
        decreases windows.len() - i,
    {
        proof {
            assert(windows@.skip(i as int)[0] == windows@[i as int]);
            assert(s.skip(i as int)[0] == s[i as int]);
            assert(windows@.skip(i as int).drop_first() =~= windows@.skip(i + 1));
            assert(s.skip(i as int).drop_first() =~= s.skip(i + 1));
        }
        let w = windows[i];
        proof {
            assert(table_keys(table@).contains(windows@[i as int]));
            table_keys(table@).index_of_first_ensures(w);
        }
        let k = match find_entry(table, w) {
            Some(k) => k,
            None => {
                return None;
            },
        };
        proof {
            assert(s[i as int] == table@[k as int].1);
        }
        let h = window_target(w, &table[k].1, cursor_position);
        if h.is_some() {
            return h;
        }
        i = i + 1;
    }
    proof {
        assert(windows@.skip(i as int).len() == 0);
    }
    None
}

/// The surface (connection and object id) that a pointer target names.
pub open spec fn surface_key(p: Option<PointerOver>) -> Option<(i32, u32)> {
    match p {
        Some(x) => Some((x.fd, x.surface)),
        None => None,
    }
}

/// The position within its surface that a pointer target names.
pub open spec fn position_key(p: Option<PointerOver>) -> Option<Point> {
    match p {
        Some(x) => Some(x.position),
        None => None,
    }
}

/// The pointer events that a change of pointer target calls for: a `leave`
/// to the old target's surface and an `enter` to the new one when the surface changed,
/// else a `motion` when only the position within the surface changed.
#[derive(Clone, Copy, PartialEq, Eq, Structural, Debug)]
pub struct PointerEvents {
    pub leave: Option<PointerOver>,
    pub enter: Option<PointerOver>,
    pub motion: Option<PointerOver>,
}

/// The events for a move of the pointer target from `old` to `new`.
pub open spec fn pointer_events_spec(old: Option<PointerOver>, new: Option<PointerOver>) -> PointerEvents {
    if surface_key(old) != surface_key(new) {
        PointerEvents { leave: old, enter: new, motion: None }
    } else if position_key(old) != position_key(new) {
        PointerEvents { leave: None, enter: None, motion: new }
    } else {
        PointerEvents { leave: None, enter: None, motion: None }
    }
}

/// Whether two pointer targets name the same surface.
fn same_surface(a: Option<PointerOver>, b: Option<PointerOver>) -> (r: bool)
    ensures
        r == (surface_key(a) == surface_key(b)),
{
    match (a, b) {
        (Some(x), Some(y)) => x.fd == y.fd && x.surface == y.surface,
        (None, None) => true,
        _ => false,
    }
}

/// Whether two pointer targets name the same position.
fn same_position(a: Option<PointerOver>, b: Option<PointerOver>) -> (r: bool)
    ensures
        r == (position_key(a) == position_key(b)),
{
    match (a, b) {
        (Some(x), Some(y)) => x.position == y.position,
        (None, None) => true,
        _ => false,
    }
}

/// The events for a move of the pointer target from `old` to `new`.
pub fn pointer_events(old: Option<PointerOver>, new: Option<PointerOver>) -> (r: PointerEvents)
    ensures
        r == pointer_events_spec(old, new),
{
    if !same_surface(old, new) {
        PointerEvents { leave: old, enter: new, motion: None }
    } else if !same_position(old, new) {
        PointerEvents { leave: None, enter: None, motion: new }
    } else {
        PointerEvents { leave: None, enter: None, motion: None }
    }
}

/// A target found while visiting a surface tree names the window that owns
/// the tree, unless it is the target that the visit started from.
pub proof fn lemma_hit_node_owner(
    t: SurfaceTree,
    fd: i32,
    toplevel: u32,
    cursor: Point,
    pos: Point,
    acc: Option<PointerOver>,
)
    ensures
        hit_node(t, fd, toplevel, cursor, pos, acc) == acc || (hit_node(
            t,
            fd,
            toplevel,
            cursor,
            pos,
            acc,
        ) matches Some(po) && po.fd == fd && po.toplevel == toplevel),
    decreases t, 0nat,
{
    let acc1 = if over_surface(t, cursor, pos) {
        Some(
            PointerOver {
                fd,
                toplevel,
                surface: t.surface,
                position: crate::point::point_sub(cursor, pos),
            },
        )
    } else {
        acc
    };
    assert(decreases_to!(t => t.children));
    assert(decreases_to!(t.children => t.children@));
    lemma_hit_list_owner(t.children@, fd, toplevel, cursor, pos, acc1);
}

/// The same for a list of sub-surfaces.
pub proof fn lemma_hit_list_owner(
    cs: Seq<(Point, SurfaceTree)>,
    fd: i32,
    toplevel: u32,
    cursor: Point,
    base: Point,
    acc: Option<PointerOver>,
)
    ensures
        hit_list(cs, fd, toplevel, cursor, base, acc) == acc || (hit_list(
            cs,
            fd,
            toplevel,
            cursor,
            base,
            acc,
        ) matches Some(po) && po.fd == fd && po.toplevel == toplevel),
    decreases cs, 1nat,
{
    if cs.len() > 0 {
        assert(decreases_to!(cs => cs[0]));
        assert(decreases_to!(cs[0] => cs[0].1));
        let acc1 = hit_node(
            cs[0].1,
            fd,
            toplevel,
            cursor,
            crate::point::point_add(base, cs[0].0),
            acc,
        );
        lemma_hit_node_owner(cs[0].1, fd, toplevel, cursor, crate::point::point_add(base, cs[0].0), acc);
        lemma_hit_list_owner(cs.drop_first(), fd, toplevel, cursor, base, acc1);
    }
}

/// A target found among popups names the window that owns them.
proof fn lemma_popups_owner(ps: Seq<PopupSurfaces>, w: Window, cursor: Point, origin: Point)
    ensures
        popups_hit(ps, w, cursor, origin) matches Some(po) ==> po.fd == w.fd && po.toplevel == w.toplevel,
    decreases ps.len(),
{
    if ps.len() > 0 {
        lemma_hit_node_owner(ps[0].tree, w.fd, w.toplevel, cursor, popup_origin(origin, ps[0]), None);
        lemma_popups_owner(ps.drop_first(), w, cursor, origin);
    }
}

/// The pointer target is always a window of the stack, so recomputing it
/// keeps the stack invariant.
pub proof fn lemma_pointer_target_on_stack(
    windows: Seq<Window>,
    surfaces: Seq<WindowSurfaces>,
    cursor: Point,
)
    ensures
        pointer_target(windows, surfaces, cursor) matches Some(po) ==> windows.contains(
            crate::state::win(po.fd, po.toplevel),
        ),
    decreases windows.len(),
{
    if windows.len() > 0 && surfaces.len() > 0 {
        let w = windows[0];
        let ws = surfaces[0];
        lemma_popups_owner(ws.popups@, w, cursor, window_origin(ws));
        lemma_hit_node_owner(ws.tree, w.fd, w.toplevel, cursor, window_origin(ws), None);
        lemma_pointer_target_on_stack(windows.drop_first(), surfaces.drop_first(), cursor);
        if let Some(po) = pointer_target(windows, surfaces, cursor) {
            if window_hit(w, ws, cursor) is Some {
                assert(windows[0] == crate::state::win(po.fd, po.toplevel));
            } else {
                let k = choose|k: int|
                    0 <= k < windows.drop_first().len() && windows.drop_first()[k]
                        == crate::state::win(po.fd, po.toplevel);
                assert(windows[k + 1] == crate::state::win(po.fd, po.toplevel));
            }
        }
    }
}

/// Recomputing the pointer target keeps the stack invariant.
pub proof fn lemma_pointer_focus_keeps_wf(
    v: crate::state::StackView,
    surfaces: Seq<WindowSurfaces>,
    cursor: Point,
)
    requires
        crate::state::stack_wf(v),
    ensures
        crate::state::stack_wf(
            crate::state::StackView {
                windows: v.windows,
                focused: v.focused,
                pointer_over: pointer_target(v.windows, surfaces, cursor),
            },
        ),
{
    lemma_pointer_target_on_stack(v.windows, surfaces, cursor);
}

/// A pointer target that did not change calls for no event.
pub proof fn lemma_same_target_no_events(p: Option<PointerOver>)
    ensures
        pointer_events_spec(p, p) == (PointerEvents { leave: None, enter: None, motion: None }),
{
}

/// A cursor inside the rectangle `(corner, size)`, written out.
pub open spec fn in_rect(cursor: Point, corner: (int, int), size: Point) -> bool {
    corner.0 <= cursor.0 < corner.0 + size.0 && corner.1 <= cursor.1 < corner.1 + size.1
}

/// A surface with no input region and no sub-surfaces, holding content of
/// the given size.
pub open spec fn plain_leaf(t: SurfaceTree, size: Point) -> bool {
    t.input_region is None && t.children@.len() == 0 && t.size == Some(size)
}

/// A window without popups whose surface has no input region and no
/// sub-surfaces is hit exactly where it is drawn: from its position less the
/// offset of its `xdg_surface` geometry. The target names that surface, at
/// the cursor's offset from that corner.
pub proof fn lemma_plain_window_hit(w: Window, ws: WindowSurfaces, size: Point, cursor: Point)
    requires
        ws.popups@.len() == 0,
        plain_leaf(ws.tree, size),
        crate::point::fits_i32(ws.toplevel_position.0 - ws.xdg_surface_position.0),
        crate::point::fits_i32(ws.toplevel_position.1 - ws.xdg_surface_position.1),
    ensures
        ({
            let cx = ws.toplevel_position.0 - ws.xdg_surface_position.0;
            let cy = ws.toplevel_position.1 - ws.xdg_surface_position.1;
            window_hit(w, ws, cursor) == if in_rect(cursor, (cx, cy), size) {
                Some(
                    PointerOver {
                        fd: w.fd,
                        toplevel: w.toplevel,
                        surface: ws.tree.surface,
                        position: Point((cursor.0 - cx) as i32, (cursor.1 - cy) as i32),
                    },
                )
            } else {
                None
            }
        }),
{
    assert(ws.tree.children@ =~= Seq::<(Point, SurfaceTree)>::empty());
}

/// A popup whose surface has no input region and no sub-surfaces is hit
/// where it is drawn: from the window's corner less the popup's geometry
/// offset plus the popup's position; and a popup that holds the cursor comes
/// before the window's own surface.
pub proof fn lemma_popup_hit_first(
    w: Window,
    ws: WindowSurfaces,
    size: Point,
    cursor: Point,
)
    requires
        ws.popups@.len() == 1,
        plain_leaf(ws.popups@[0].tree, size),
        crate::point::fits_i32(ws.toplevel_position.0 - ws.xdg_surface_position.0),
        crate::point::fits_i32(ws.toplevel_position.1 - ws.xdg_surface_position.1),
        crate::point::fits_i32(
            ws.toplevel_position.0 - ws.xdg_surface_position.0 - ws.popups@[0].xdg_surface_position.0,
        ),
        crate::point::fits_i32(
            ws.toplevel_position.1 - ws.xdg_surface_position.1 - ws.popups@[0].xdg_surface_position.1,
        ),
        crate::point::fits_i32(
            ws.toplevel_position.0 - ws.xdg_surface_position.0 - ws.popups@[0].xdg_surface_position.0
                + ws.popups@[0].position.0,
        ),
        crate::point::fits_i32(
            ws.toplevel_position.1 - ws.xdg_surface_position.1 - ws.popups@[0].xdg_surface_position.1
                + ws.popups@[0].position.1,
        ),
    ensures
        ({
            let p = ws.popups@[0];
            let px = ws.toplevel_position.0 - ws.xdg_surface_position.0 - p.xdg_surface_position.0
                + p.position.0;
            let py = ws.toplevel_position.1 - ws.xdg_surface_position.1 - p.xdg_surface_position.1
                + p.position.1;
            in_rect(cursor, (px, py), size) ==> window_hit(w, ws, cursor) == Some(
                PointerOver {
                    fd: w.fd,
                    toplevel: w.toplevel,
                    surface: p.tree.surface,
                    position: Point((cursor.0 - px) as i32, (cursor.1 - py) as i32),
                },
            )
        }),
{
    let p = ws.popups@[0];
    assert(p.tree.children@ =~= Seq::<(Point, SurfaceTree)>::empty());
}

/// Of a surface and one sub-surface that both hold the cursor, the
/// sub-surface wins; it is placed at its offset from its parent.
pub proof fn lemma_sub_surface_wins(
    t: SurfaceTree,
    fd: i32,
    toplevel: u32,
    cursor: Point,
    pos: Point,
    size: Point,
    child_size: Point,
)
    requires
        t.input_region is None,
        t.size == Some(size),
        t.children@.len() == 1,
        plain_leaf(t.children@[0].1, child_size),
        crate::point::fits_i32(pos.0 + (t.children@[0].0).0),
        crate::point::fits_i32(pos.1 + (t.children@[0].0).1),
        in_rect(cursor, (pos.0 as int, pos.1 as int), size),
        in_rect(cursor, (pos.0 + (t.children@[0].0).0, pos.1 + (t.children@[0].0).1), child_size),
    ensures
        hit_node(t, fd, toplevel, cursor, pos, None) == Some(
            PointerOver {
                fd,
                toplevel,
                surface: t.children@[0].1.surface,
                position: Point(
                    (cursor.0 - (pos.0 + (t.children@[0].0).0)) as i32,
                    (cursor.1 - (pos.1 + (t.children@[0].0).1)) as i32,
                ),
            },
        ),
{
    let c = t.children@[0].1;
    let off = t.children@[0].0;
    let cpos = crate::point::point_add(pos, off);
    assert(c.children@ =~= Seq::<(Point, SurfaceTree)>::empty());
    assert(t.children@.drop_first() =~= Seq::<(Point, SurfaceTree)>::empty());
    assert(over_surface(t, cursor, pos));
    let acc1 = Some(
        PointerOver {
            fd,
            toplevel,
            surface: t.surface,
            position: crate::point::point_sub(cursor, pos),
        },
    );
    assert(over_surface(c, cursor, cpos));
    let hit = Some(
        PointerOver {
            fd,
            toplevel,
            surface: c.surface,
            position: crate::point::point_sub(cursor, cpos),
        },
    );
    assert(hit_list(c.children@, fd, toplevel, cursor, cpos, hit) == hit);
    assert(hit_node(c, fd, toplevel, cursor, cpos, acc1) == hit);
    assert(hit_list(t.children@.drop_first(), fd, toplevel, cursor, pos, hit) == hit);
    assert(hit_list(t.children@, fd, toplevel, cursor, pos, acc1) == hit);
}

/// The pointer events of a change of target: when the connection or the
/// surface differs (or one side has no target), the old surface gets a
/// leave and the new one an enter, with no motion; within the same surface
/// of the same connection there is only a motion, when the position moved;
/// otherwise nothing.
pub proof fn lemma_pointer_events_cases(old: Option<PointerOver>, new: Option<PointerOver>)
    ensures
        ({
            let e = pointer_events_spec(old, new);
            match (old, new) {
                (Some(x), Some(y)) => if x.fd != y.fd || x.surface != y.surface {
                    e == PointerEvents { leave: old, enter: new, motion: None }
                } else if x.position != y.position {
                    e == PointerEvents { leave: None, enter: None, motion: new }
                } else {
                    e == PointerEvents { leave: None, enter: None, motion: None }
                },
                (None, None) => e == PointerEvents { leave: None, enter: None, motion: None },
                _ => e == PointerEvents { leave: old, enter: new, motion: None },
            }
        }),
{
    if let (Some(x), Some(y)) = (old, new) {
        if x.fd != y.fd {
            assert((surface_key(old)->0).0 != (surface_key(new)->0).0);
        }
        if x.surface != y.surface {
            assert((surface_key(old)->0).1 != (surface_key(new)->0).1);
        }
        if x.position != y.position {
            assert(position_key(old)->0 != position_key(new)->0);
        }
    }
}

/// A window is hit-tested from the same corner it is drawn from.
pub proof fn lemma_hit_origin_is_draw_origin(ws: WindowSurfaces, wb: crate::draw::WindowBuffers)
    requires
        ws.toplevel_position == wb.toplevel_position,
        ws.xdg_surface_position == wb.xdg_surface_position,
    ensures
        window_origin(ws) == crate::draw::window_draw_origin(wb),
{
}

impl<R> CompositorState<R> {
    /// Finds the surface under the pointer, records it, and returns the
    /// pointer events that the change calls for. `surfaces[i]` holds the
    /// surfaces of `windows[i]`.
    pub fn calculate_pointer_focus(&mut self, surfaces: &Vec<WindowSurfaces>) -> (r: PointerEvents)
        requires
            surfaces.len() == old(self).windows.len(),
            targets_defined(old(self).windows@, surfaces@, old(self).pointer_position),
        ensures
            final(self).pointer_over == pointer_target(
                old(self).windows@,
                surfaces@,
                old(self).pointer_position,
            ),
            r == pointer_events_spec(old(self).pointer_over, final(self).pointer_over),
            final(self).windows == old(self).windows,
            final(self).focused_window == old(self).focused_window,
            final(self).changes == old(self).changes,
            final(self).clients == old(self).clients,
            final(self).pointer_position == old(self).pointer_position,
            final(self).width == old(self).width,
            final(self).height == old(self).height,
    {
        let old_target = self.pointer_over;
        let new_target = find_pointer_target(&self.windows, surfaces, self.pointer_position);
        let events = pointer_events(old_target, new_target);
        self.pointer_over = new_target;
        events
    }

    /// Finds the surface under the pointer with the surfaces of each window
    /// looked up in `table`, records it, and returns the pointer events that
    /// the change calls for.
    pub(crate) fn recompute_pointer(&mut self, table: &Vec<(Window, WindowSurfaces)>) -> (r: PointerEvents)
        requires
            table_covers(table@, old(self).windows@),
            targets_defined(
                old(self).windows@,
                surfaces_for(table@, old(self).windows@),
                old(self).pointer_position,
            ),
        ensures
            final(self).pointer_over == pointer_target(
                old(self).windows@,
                surfaces_for(table@, old(self).windows@),
                old(self).pointer_position,
            ),
            r == pointer_events_spec(old(self).pointer_over, final(self).pointer_over),
            final(self).windows == old(self).windows,
            final(self).focused_window == old(self).focused_window,
            final(self).changes == old(self).changes,
            final(self).clients == old(self).clients,
            final(self).pointer_position == old(self).pointer_position,
            final(self).width == old(self).width,
            final(self).height == old(self).height,
    {
        let old_target = self.pointer_over;
        let new_target = find_pointer_target_keyed(&self.windows, table, self.pointer_position);
        let events = pointer_events(old_target, new_target);
        self.pointer_over = new_target;
        events
    }
}

} // verus!
