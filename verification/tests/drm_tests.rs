use hyu::backend::drm::{can_scan_out_directly, queue_frame, Screen, ScreenProps, ScreenState};
use hyu::drm::{
    first_connected, position_of, preferred_mode, select_primary_plane, AtomicCommit,
    AtomicHelper, Card, Connector, Crtc, ModeInfo, Object, Plane, Prop, PropWrapper, Props,
};
use hyu::Point;

fn mode(typee: u32, hdisplay: u16, vdisplay: u16, vrefresh: u32) -> ModeInfo {
    ModeInfo {
        clock: 0x0102_0304,
        hdisplay,
        hsync_start: 0,
        hsync_end: 0,
        htotal: 0,
        hskew: 0,
        vdisplay,
        vsync_start: 0,
        vsync_end: 0,
        vtotal: 0,
        vscan: 0,
        vrefresh,
        flags: 0,
        typee,
        name: [0; 32],
    }
}

fn plane(id: u32, possible_crtcs: u32) -> Plane {
    Plane { plane_id: id, crtc_id: 0, fb_id: 0, possible_crtcs, gamma_size: 0, format_types: vec![] }
}

fn name(text: &str) -> [u8; 32] {
    let mut n = [0u8; 32];
    n[..text.len()].copy_from_slice(text.as_bytes());
    n
}

fn crtc(id: u32) -> Crtc {
    Crtc { set_connectors: vec![], crtc_id: id, fb_id: 0, x: 0, y: 0, gamma_size: 0, mode_valid: 0, mode: mode(0, 0, 0, 60) }
}

fn connector(id: u32, connection: u32) -> Connector {
    Connector {
        encoders: vec![],
        modes: vec![],
        props: vec![],
        prop_values: vec![],
        encoder_id: 0,
        connector_id: id,
        connector_type: 0,
        connector_type_id: 0,
        connection,
        mm_width: 0,
        mm_height: 0,
        subpixel: 0,
        pad: 0,
    }
}

#[test]
fn commit_groups_properties_by_object() {
    let mut ctx = AtomicHelper::new();
    ctx.props = vec![(5, 1, 10), (5, 2, 20), (7, 3, 30), (5, 4, 40), (5, 5, 50)];
    let c = AtomicCommit::new(&ctx, 0x201, 99);
    assert_eq!(c.objs, vec![5, 7, 5]);
    assert_eq!(c.count_props, vec![2, 1, 2]);
    assert_eq!(c.props, vec![1, 2, 3, 4, 5]);
    assert_eq!(c.prop_values, vec![10, 20, 30, 40, 50]);
    assert_eq!(c.flags, 0x201);
    assert_eq!(c.user_data, 99);
    assert_eq!(c.count_props.iter().sum::<u32>() as usize, ctx.props.len());
}

#[test]
fn empty_commit_has_no_objects() {
    let c = AtomicCommit::new(&AtomicHelper::new(), 1, 0);
    assert!(c.objs.is_empty());
    assert!(c.count_props.is_empty());
}

#[test]
fn add_property_records_object_id_and_clear_forgets() {
    let mut ctx = AtomicHelper::new();
    ctx.add_property(&crtc(42), 7, 1);
    ctx.add_property(&plane(3, 0), 8, 2);
    assert_eq!(ctx.props, vec![(42, 7, 1), (3, 8, 2)]);
    ctx.clear();
    assert!(ctx.props.is_empty());
}

#[test]
fn object_ids() {
    assert_eq!(connector(9, 1).get_id(), 9);
    assert_eq!(crtc(4).get_id(), 4);
    assert_eq!(plane(6, 0).get_id(), 6);
}

fn wrapper() -> PropWrapper<Crtc> {
    let props = Props { prop_ids: vec![11, 12, 13], prop_values: vec![0, 0, 0], obj_id: 4, obj_type: 0 };
    let infos = vec![
        Prop { values: vec![], prop_id: 11, flags: 0, name: name("ACTIVE"), count_enum_blobs: 0 },
        Prop { values: vec![], prop_id: 12, flags: 0, name: name("MODE_ID"), count_enum_blobs: 0 },
        Prop { values: vec![], prop_id: 13, flags: 0, name: name("MODE_ID"), count_enum_blobs: 0 },
    ];
    PropWrapper::new(crtc(4), props, infos)
}

#[test]
fn find_property_returns_first_match() {
    let w = wrapper();
    assert_eq!(w.find_property("ACTIVE"), Some(11));
    assert_eq!(w.find_property("MODE_ID"), Some(12));
    assert_eq!(w.find_property("MODE"), None);
    assert_eq!(w.find_property("VRR_ENABLED"), None);
    assert_eq!(w.object().crtc_id, 4);
}

#[test]
fn preferred_mode_is_first_with_bit_three() {
    let modes = vec![mode(1, 1, 1, 60), mode(8 | 1, 2, 2, 60), mode(8, 3, 3, 60)];
    assert_eq!(preferred_mode(&modes), Some(1));
    assert_eq!(preferred_mode(&modes[..1]), None);
}

#[test]
fn crtc_position_and_connected_connector() {
    assert_eq!(position_of(&[40, 41, 42], 42), Some(2));
    assert_eq!(position_of(&[40, 41, 42], 43), None);
    let connectors = vec![connector(1, 2), connector(2, 1), connector(3, 1)];
    assert_eq!(first_connected(&connectors), Some(1));
    assert_eq!(first_connected(&connectors[..1].iter().map(|c| connector(c.connector_id, 2)).collect()), None);
}

#[test]
fn primary_plane_needs_crtc_bit_and_type_one() {
    let planes = vec![plane(1, 0b01), plane(2, 0b10), plane(3, 0b10), plane(4, 0b10)];
    let props = vec![
        vec![(name("type"), 1)],
        vec![(name("type"), 0)],
        vec![(name("other"), 1), (name("type"), 1)],
        vec![(name("type"), 1)],
    ];
    assert_eq!(select_primary_plane(&planes, &props, 1), Some(2));
    assert_eq!(select_primary_plane(&planes, &props, 0), Some(0));
    assert_eq!(select_primary_plane(&planes[1..2].iter().map(|p| plane(p.plane_id, p.possible_crtcs)).collect(), &props[1..2].to_vec(), 1), None);
}

#[test]
fn card_lists_its_ids() {
    let card = Card {
        fb_ids: vec![1],
        crtc_ids: vec![2, 3],
        connector_ids: vec![4],
        encoder_ids: vec![5, 6, 7],
        min_width: 0,
        max_width: 0,
        min_height: 0,
        max_height: 0,
    };
    assert_eq!(card.fb_ids(), &[1]);
    assert_eq!(card.crtc_ids(), &[2, 3]);
    assert_eq!(card.connector_ids(), &[4]);
    assert_eq!(card.encoder_ids(), &[5, 6, 7]);
}

#[test]
fn mode_bytes_follow_kernel_layout() {
    let mut m = mode(0x48, 2560, 1440, 60);
    m.name = name("2560x1440");
    let b = m.to_bytes(true);
    assert_eq!(b.len(), 68);
    assert_eq!(&b[0..4], &[4, 3, 2, 1]);
    assert_eq!(u16::from_le_bytes([b[4], b[5]]), 2560);
    assert_eq!(u16::from_le_bytes([b[14], b[15]]), 1440);
    assert_eq!(u32::from_le_bytes([b[24], b[25], b[26], b[27]]), 60);
    assert_eq!(u32::from_le_bytes([b[32], b[33], b[34], b[35]]), 0x48);
    assert_eq!(&b[36..45], b"2560x1440");
    let big = m.to_bytes(false);
    assert_eq!(&big[0..4], &[1, 2, 3, 4]);
}

fn screen_props() -> ScreenProps {
    ScreenProps {
        connector_crtc_id: 100,
        crtc_mode_id: 101,
        crtc_active: 102,
        crtc_vrr_enabled: 103,
        plane_fb_id: 104,
        plane_crtc_id: 105,
        plane_src_x: 106,
        plane_src_y: 107,
        plane_src_w: 108,
        plane_src_h: 109,
        plane_crtc_x: 110,
        plane_crtc_y: 111,
        plane_crtc_w: 112,
        plane_crtc_h: 113,
        plane_in_fence_fd: 114,
    }
}

#[test]
fn frame_without_modeset_sets_plane_only() {
    let mut ctx = AtomicHelper::new();
    let m = mode(0, 2560, 1440, 60);
    let flags = queue_frame(&mut ctx, &connector(1, 1), &crtc(2), &plane(3, 1), &screen_props(), None, 77, &m, -1);
    assert_eq!(flags, 0x201);
    assert_eq!(
        ctx.props,
        vec![
            (3, 104, 77),
            (3, 105, 2),
            (3, 106, 0),
            (3, 107, 0),
            (3, 108, 2560 << 16),
            (3, 109, 1440 << 16),
            (3, 110, 0),
            (3, 111, 0),
            (3, 112, 2560),
            (3, 113, 1440),
            (3, 114, u64::MAX),
        ]
    );
}

#[test]
fn frame_with_modeset_routes_connector_first() {
    let mut ctx = AtomicHelper::new();
    let m = mode(0, 1920, 1080, 60);
    let flags = queue_frame(&mut ctx, &connector(1, 1), &crtc(2), &plane(3, 1), &screen_props(), Some(55), 77, &m, 9);
    assert_eq!(flags, 0x601);
    assert_eq!(ctx.props.len(), 14);
    assert_eq!(&ctx.props[..3], &[(1, 100, 2), (2, 101, 55), (2, 102, 1)]);
    assert_eq!(ctx.props[13], (3, 114, 9));
    let commit = AtomicCommit::new(&ctx, flags, 0);
    assert_eq!(commit.objs, vec![1, 2, 3]);
    assert_eq!(commit.count_props, vec![1, 2, 11]);
}

#[test]
fn page_flip_timing_at_sixty_hertz() {
    let mut screen = Screen::new(mode(0, 2560, 1440, 60));
    screen.begin_frame(false);
    let t = screen.on_page_flip(10, 500);
    assert_eq!(screen.state, ScreenState::Idle);
    assert_eq!(t.refresh_us, 10_000_500);
    assert_eq!(t.cycle_us, 16_666);
    assert_eq!(t.missed_by_us, None);
    assert_eq!(t.presentation_flags, 7);
    assert_eq!(t.next_render_us, 10_000_500 + 16_666 - 1_000);
    assert_eq!(screen.last_refresh, Some(10_000_500));

    screen.begin_frame(true);
    let t = screen.on_page_flip(10, 500 + 16_666 + 400);
    assert_eq!(t.missed_by_us, None);
    assert_eq!(t.presentation_flags, 15);

    screen.begin_frame(false);
    let t = screen.on_page_flip(10, 500 + 2 * 16_666 + 400 + 16_666 + 900);
    assert_eq!(t.missed_by_us, Some(16_666 + 900));
}

#[test]
fn direct_scanout_needs_one_plain_full_screen_window() {
    assert!(can_scan_out_directly(1, 0, Some(Point(2560, 1440))));
    assert!(!can_scan_out_directly(2, 0, Some(Point(2560, 1440))));
    assert!(!can_scan_out_directly(1, 1, Some(Point(2560, 1440))));
    assert!(!can_scan_out_directly(1, 0, Some(Point(1920, 1080))));
    assert!(!can_scan_out_directly(1, 0, None));
}

#[test]
fn timer_tick_decides_direct_scanout() {
    let mut screen = Screen::new(mode(0, 2560, 1440, 60));
    assert!(screen.on_timer(1, 0, Some(Point(2560, 1440))));
    assert_eq!(screen.state, ScreenState::WaitingForPageFlip { did_direct_scanout: true });
    screen.on_page_flip(1, 0);
    assert!(!screen.on_timer(2, 0, Some(Point(2560, 1440))));
    assert_eq!(screen.state, ScreenState::WaitingForPageFlip { did_direct_scanout: false });
}
