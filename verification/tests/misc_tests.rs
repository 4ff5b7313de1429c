use hyu::client::Client;
use hyu::libinput::{event_kind, EventKind};
use hyu::renderer::vulkan::{
    bound_plane_count, find_physical_device, graphics_queue_family, memory_type_index,
    planes_disjoint,
};
use hyu::rt::producers::Input;
use hyu::store::StoreError;
use hyu::{Config, GlobalWrapper, Point};

#[test]
fn default_config() {
    let c = Config::default();
    assert_eq!(c.keymap, "us");
    assert_eq!(c.card, "/dev/dri/card0");
}

#[test]
fn global_wrapper_holds_value_once_set() {
    let mut g: GlobalWrapper<u32> = GlobalWrapper::empty();
    g.initialize(5);
    assert_eq!(*g.get(), 5);
    *g.get_mut() = 6;
    assert_eq!(*g.get(), 6);
}

#[test]
fn null_handles_are_refused() {
    assert!(hyu::egl::Display::from_raw(0).is_none());
    assert!(hyu::gbm::BufferObject::from_raw(0).is_none());
    assert!(hyu::libinput::Event::from_raw(0).is_none());
    assert!(hyu::udev::Instance::from_raw(0).is_none());
    let d = hyu::egl::Display::from_raw(0x1000).unwrap();
    assert_eq!(d.as_ptr(), 0x1000);
    let s = hyu::gbm::Surface::from_raw(3).unwrap();
    assert_eq!(s.as_ptr(), 3);
    let c = hyu::libinput::Context::from_raw(9).unwrap();
    let input = Input::new(c);
    assert_eq!(input.context.as_ptr(), 9);
    assert_eq!(hyu::backend::drm::egl::Config::from_raw(4).unwrap().as_ptr(), 4);
    assert_eq!(hyu::backend::input::udev::Instance::from_raw(8).unwrap().as_ptr(), 8);
}

#[test]
fn buffer_user_data_keeps_framebuffer() {
    assert_eq!(hyu::gbm::UserData::new(31).fb(), 31);
}

#[test]
fn libinput_event_kinds() {
    assert_eq!(event_kind(300), EventKind::KeyboardKey);
    assert_eq!(event_kind(400), EventKind::PointerMotion);
    assert_eq!(event_kind(402), EventKind::PointerButton);
    assert_eq!(event_kind(404), EventKind::PointerScrollWheel);
    assert_eq!(event_kind(401), EventKind::Other);
}

#[test]
fn physical_device_is_found_by_device_number() {
    // /dev/dri/card0 is 226:0, card1 226:1; 0xe200 and 0xe201 as dev_t.
    let nodes = [(226i64, 1i64), (226, 0)];
    assert_eq!(find_physical_device(&nodes, 0xe200), Some(1));
    assert_eq!(find_physical_device(&nodes, 0xe201), Some(0));
    assert_eq!(find_physical_device(&nodes, 0xe202), None);
    // A large major and minor number use the high bits.
    let big = [(0x1000i64, 0x100i64)];
    assert_eq!(find_physical_device(&big, (0x1000u64 << 32) | (0x100u64 << 12)), Some(0));
}

#[test]
fn first_graphics_queue_family() {
    assert_eq!(graphics_queue_family(&[0b100, 0b011, 0b001]), Some(1));
    assert_eq!(graphics_queue_family(&[0b100, 0b010]), None);
}

#[test]
fn memory_type_needs_allowed_bit_and_all_properties() {
    let flags = [0b0001, 0b0110, 0b0111, 0b0110];
    assert_eq!(memory_type_index(0b1111, &flags, 0b0110), Some(1));
    assert_eq!(memory_type_index(0b1101, &flags, 0b0110), Some(2));
    assert_eq!(memory_type_index(0b0001, &flags, 0b0110), None);
    assert_eq!(memory_type_index(0b0001, &flags, 0), Some(0));
}

#[test]
fn client_objects_and_fds() {
    let mut c: Client<&str> = Client::new(5, Point(1, 2));
    assert_eq!(c.fd, 5);
    c.ensure_objects_capacity();
    c.new_object(1, "display");
    assert_eq!(c.get_object(1), Ok(&"display"));
    assert_eq!(c.get_object(2), Err(StoreError::NoObject(2)));
    *c.get_object_mut(1).unwrap() = "wl_display";
    assert_eq!(c.get_resource(1), Some(&"wl_display"));
    assert_eq!(c.objects().len(), 1);
    assert!(c.remove_object(1).is_ok());
    assert!(c.get_resource_mut(1).is_none());
    assert_eq!(c.fd, 5);
    assert_eq!(c.start_position, Point(1, 2));
    assert!(c.changes.is_empty());

    c.receive_fds(&[10, 11]);
    c.receive_fds(&[12]);
    assert_eq!(c.take_received_fd(), Some(10));
    assert_eq!(c.take_received_fd(), Some(11));
    c.to_send_fds.push(20);
    assert_eq!(c.take_fds_to_send(), vec![20]);
    assert!(c.to_send_fds.is_empty());
    assert_eq!(c.take_received_fd(), Some(12));
    assert_eq!(c.take_received_fd(), None);
}

#[test]
fn wayland_producer_buffer() {
    let mut wl = hyu::rt::producers::Wl::new(7u8);
    assert!(wl.params.is_empty());
    wl.reset_params(5);
    assert_eq!(wl.params, vec![0; 5]);
    wl.params[0] = 9;
    wl.reset_params(2);
    assert_eq!(wl.params, vec![0, 0]);
    wl.clear_params();
    assert!(wl.params.is_empty());
    assert_eq!(wl.stream, 7);
}

#[test]
fn dmabuf_planes_in_one_file_are_not_disjoint() {
    assert!(!planes_disjoint(&[]));
    assert!(!planes_disjoint(&[7]));
    assert!(!planes_disjoint(&[7, 7, 7]));
}

#[test]
fn dmabuf_planes_in_two_files_are_disjoint() {
    assert!(planes_disjoint(&[7, 8]));
    assert!(planes_disjoint(&[7, 7, 9]));
}

#[test]
fn memory_is_bound_per_plane_only_when_disjoint() {
    assert_eq!(bound_plane_count(3, false), 1);
    assert_eq!(bound_plane_count(3, true), 3);
    assert_eq!(bound_plane_count(6, true), 4);
    assert_eq!(bound_plane_count(1, true), 1);
}

#[test]
fn egl_handles_clone_to_the_same_handle() {
    let d = hyu::egl::Display::from_raw(0x2000).unwrap();
    assert_eq!(d.clone().as_ptr(), 0x2000);
    let c = hyu::egl::Context::from_raw(0x3000).unwrap();
    assert_eq!(c.clone().as_ptr(), 0x3000);
}
