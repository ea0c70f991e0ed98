use mouse_tracking::geometry::{MousePos, MousePosWorld, Projection, Transform};
use mouse_tracking::mouse_pos::{
    CameraEntity, CursorMoved, ExcludeMouseTracking, InitMouseTracking, InitWorldTracking,
    MainCamera, MousePosPlugin, RenderTarget, TrackingError, WindowInfo,
};

fn cam(id: u64, window: u64) -> CameraEntity {
    CameraEntity {
        id,
        target: RenderTarget::Window(window),
        transform: None,
        projection: None,
        main: None,
        excluded: None,
        screen: None,
        world: None,
        screen_changed: false,
        transform_changed: false,
    }
}

fn unit_proj() -> Projection {
    Projection { left: 0, bottom: 0, scale: 1 }
}

fn win(id: u64, cursor: Option<MousePos>) -> WindowInfo {
    WindowInfo { id, cursor }
}

#[test]
fn last_event_for_a_window_wins() {
    let mut plugin = MousePosPlugin::new();
    let mut a = cam(1, 10);
    a.screen = Some(MousePos { x: 0, y: 0 });
    let mut b = cam(2, 20);
    b.screen = Some(MousePos { x: 5, y: 5 });
    plugin.cameras.push(a);
    plugin.cameras.push(b);
    let events = vec![
        CursorMoved { window: 10, pos: MousePos { x: 1, y: 1 } },
        CursorMoved { window: 20, pos: MousePos { x: 2, y: 2 } },
        CursorMoved { window: 10, pos: MousePos { x: 3, y: 3 } },
    ];
    plugin.update_pos(&events);
    assert_eq!(plugin.cameras[0].screen, Some(MousePos { x: 3, y: 3 }));
    assert!(plugin.cameras[0].screen_changed);
    assert_eq!(plugin.cameras[1].screen, Some(MousePos { x: 2, y: 2 }));
}

#[test]
fn cameras_on_other_windows_are_unaffected() {
    let mut plugin = MousePosPlugin::new();
    let mut a = cam(1, 30);
    a.screen = Some(MousePos { x: 7, y: 8 });
    plugin.cameras.push(a);
    let events = vec![CursorMoved { window: 10, pos: MousePos { x: 1, y: 1 } }];
    plugin.update_pos(&events);
    assert_eq!(plugin.cameras[0].screen, Some(MousePos { x: 7, y: 8 }));
    assert!(!plugin.cameras[0].screen_changed);
}

#[test]
fn cameras_sharing_a_window_all_receive_the_update() {
    let mut plugin = MousePosPlugin::new();
    let mut a = cam(1, 10);
    a.screen = Some(MousePos { x: 0, y: 0 });
    let mut b = cam(2, 10);
    b.screen = Some(MousePos { x: 0, y: 0 });
    plugin.cameras.push(a);
    plugin.cameras.push(b);
    let events = vec![CursorMoved { window: 10, pos: MousePos { x: 4, y: 6 } }];
    plugin.update_pos(&events);
    assert_eq!(plugin.cameras[0].screen, Some(MousePos { x: 4, y: 6 }));
    assert_eq!(plugin.cameras[1].screen, Some(MousePos { x: 4, y: 6 }));
}

#[test]
fn untracked_cameras_get_no_screen_from_events() {
    let mut plugin = MousePosPlugin::new();
    plugin.cameras.push(cam(1, 10));
    let events = vec![CursorMoved { window: 10, pos: MousePos { x: 4, y: 6 } }];
    plugin.update_pos(&events);
    assert_eq!(plugin.cameras[0].screen, None);
}

#[test]
fn init_mouse_tracking_seeds_the_current_cursor_immediately() {
    let mut plugin = MousePosPlugin::new();
    plugin.cameras.push(cam(1, 10));
    let windows = vec![win(10, Some(MousePos { x: 50, y: 50 }))];
    let r = InitMouseTracking.write(&mut plugin, 1, &windows);
    assert!(r.is_ok());
    assert_eq!(plugin.cameras[0].screen, Some(MousePos { x: 50, y: 50 }));
}

#[test]
fn init_mouse_tracking_seeds_zero_when_cursor_is_outside() {
    let mut plugin = MousePosPlugin::new();
    plugin.cameras.push(cam(1, 10));
    let windows = vec![win(10, None)];
    let r = InitMouseTracking.write(&mut plugin, 1, &windows);
    assert!(r.is_ok());
    assert_eq!(plugin.cameras[0].screen, Some(MousePos { x: 0, y: 0 }));
}

#[test]
fn init_world_tracking_computes_the_initial_world_position() {
    let mut plugin = MousePosPlugin::new();
    let mut c = cam(1, 10);
    c.transform = Some(Transform::identity());
    c.projection = Some(Projection { left: -400, bottom: -300, scale: 2 });
    plugin.cameras.push(c);
    let windows = vec![win(10, Some(MousePos { x: 400, y: 300 }))];
    let r = InitWorldTracking.write(&mut plugin, 1, &windows);
    assert!(r.is_ok());
    assert_eq!(plugin.cameras[0].screen, Some(MousePos { x: 400, y: 300 }));
    assert_eq!(plugin.cameras[0].world, Some(MousePosWorld { x: 0, y: 0, z: 0 }));
}

#[test]
fn init_on_an_unknown_entity_is_rejected() {
    let mut plugin = MousePosPlugin::new();
    plugin.cameras.push(cam(1, 10));
    let windows = vec![win(10, None)];
    let r = InitMouseTracking.write(&mut plugin, 9, &windows);
    assert_eq!(r, Err(TrackingError::NotACamera(9)));
    assert_eq!(plugin.cameras[0].screen, None);
}

#[test]
fn init_on_an_image_camera_is_rejected() {
    let mut plugin = MousePosPlugin::new();
    let mut c = cam(1, 10);
    c.target = RenderTarget::Image;
    plugin.cameras.push(c);
    let windows = vec![win(10, None)];
    let r = InitMouseTracking.write(&mut plugin, 1, &windows);
    assert_eq!(r, Err(TrackingError::RendersToImage(1)));
}

#[test]
fn init_with_an_unknown_window_is_rejected() {
    let mut plugin = MousePosPlugin::new();
    plugin.cameras.push(cam(1, 99));
    let windows = vec![win(10, None)];
    let r = InitMouseTracking.write(&mut plugin, 1, &windows);
    assert_eq!(r, Err(TrackingError::WindowNotFound(99)));
}

#[test]
fn init_world_without_a_transform_is_rejected_with_screen_attached() {
    let mut plugin = MousePosPlugin::new();
    let mut c = cam(1, 10);
    c.projection = Some(unit_proj());
    plugin.cameras.push(c);
    let windows = vec![win(10, Some(MousePos { x: 5, y: 5 }))];
    let r = InitWorldTracking.write(&mut plugin, 1, &windows);
    assert_eq!(r, Err(TrackingError::MissingTransform(1)));
    // The screen half ran first, as in the per-frame path.
    assert_eq!(plugin.cameras[0].screen, Some(MousePos { x: 5, y: 5 }));
    assert_eq!(plugin.cameras[0].world, None);
}

#[test]
fn init_world_without_a_projection_is_rejected() {
    let mut plugin = MousePosPlugin::new();
    let mut c = cam(1, 10);
    c.transform = Some(Transform::identity());
    plugin.cameras.push(c);
    let windows = vec![win(10, Some(MousePos { x: 5, y: 5 }))];
    let r = InitWorldTracking.write(&mut plugin, 1, &windows);
    assert_eq!(r, Err(TrackingError::MissingProjection(1)));
}

#[test]
fn a_single_marker_makes_that_camera_the_main_one() {
    let mut plugin = MousePosPlugin::new();
    let mut c = cam(7, 10);
    c.screen = Some(MousePos { x: 5, y: 6 });
    c.world = Some(MousePosWorld { x: 50, y: 60, z: 0 });
    c.main = Some(MainCamera);
    plugin.cameras.push(c);
    let r = plugin.update_resources(&vec![7], &Vec::new());
    assert!(r.is_ok());
    assert_eq!(plugin.last_main, Some(7));
    assert_eq!(plugin.screen_res, MousePos { x: 5, y: 6 });
    assert_eq!(plugin.world_res, MousePosWorld { x: 50, y: 60, z: 0 });
}

#[test]
fn two_markers_are_rejected_until_disambiguated() {
    let mut plugin = MousePosPlugin::new();
    let mut a = cam(1, 10);
    a.screen = Some(MousePos { x: 1, y: 1 });
    a.main = Some(MainCamera);
    let mut b = cam(2, 10);
    b.screen = Some(MousePos { x: 2, y: 2 });
    plugin.cameras.push(a);
    plugin.cameras.push(b);

    // Designate A.
    assert!(plugin.update_resources(&vec![1], &Vec::new()).is_ok());
    assert_eq!(plugin.last_main, Some(1));

    // Designate B as well: two simultaneous markers, rejected.
    plugin.cameras[1].main = Some(MainCamera);
    let r = plugin.update_resources(&vec![2], &Vec::new());
    assert_eq!(r, Err(TrackingError::MultipleMainCameras));
    assert_eq!(plugin.last_main, Some(1));

    // Remove B's marker: the single remaining marker is accepted.
    plugin.cameras[1].main = None;
    let r = plugin.update_resources(&vec![2], &vec![2]);
    assert!(r.is_ok());
    assert_eq!(plugin.last_main, Some(1));
    assert_eq!(plugin.screen_res, MousePos { x: 1, y: 1 });
}

#[test]
fn slots_reset_exactly_on_the_transition_frame() {
    let mut plugin = MousePosPlugin::new();
    let mut c = cam(1, 10);
    c.screen = Some(MousePos { x: 5, y: 6 });
    c.main = Some(MainCamera);
    plugin.cameras.push(c);
    assert!(plugin.update_resources(&vec![1], &Vec::new()).is_ok());
    assert_eq!(plugin.screen_res, MousePos { x: 5, y: 6 });

    // The marker disappears: the slots reset to zero on this frame.
    plugin.cameras[0].main = None;
    assert!(plugin.update_resources(&Vec::new(), &vec![1]).is_ok());
    assert_eq!(plugin.last_main, None);
    assert_eq!(plugin.screen_res, MousePos { x: 0, y: 0 });
    assert_eq!(plugin.world_res, MousePosWorld { x: 0, y: 0, z: 0 });

    // On later frames with no main camera the slots are left untouched,
    // not reset again.
    plugin.screen_res = MousePos { x: 9, y: 9 };
    assert!(plugin.update_resources(&Vec::new(), &Vec::new()).is_ok());
    assert_eq!(plugin.screen_res, MousePos { x: 9, y: 9 });
}

#[test]
fn excluded_cameras_never_receive_components() {
    let mut plugin = MousePosPlugin::new();
    let mut c = cam(1, 10);
    c.transform = Some(Transform::identity());
    c.projection = Some(unit_proj());
    c.excluded = Some(ExcludeMouseTracking);
    plugin.cameras.push(c);
    let windows = vec![win(10, Some(MousePos { x: 3, y: 4 }))];
    let events = vec![CursorMoved { window: 10, pos: MousePos { x: 8, y: 9 } }];
    for _ in 0..3 {
        let r = plugin.frame(&windows, &events, &Vec::new(), &Vec::new());
        assert!(r.is_ok());
        assert_eq!(plugin.cameras[0].screen, None);
        assert_eq!(plugin.cameras[0].world, None);
    }
}

#[test]
fn housekeeping_attaches_tracking_seeded_with_the_true_cursor() {
    let mut plugin = MousePosPlugin::new();
    let mut c = cam(1, 10);
    c.transform = Some(Transform::identity());
    c.projection = Some(Projection { left: -100, bottom: -100, scale: 1 });
    plugin.cameras.push(c);
    let windows = vec![win(10, Some(MousePos { x: 30, y: 40 }))];
    let r = plugin.attach_tracking(&windows);
    assert!(r.is_ok());
    assert_eq!(plugin.cameras[0].screen, Some(MousePos { x: 30, y: 40 }));
    assert_eq!(plugin.cameras[0].world, Some(MousePosWorld { x: -70, y: -60, z: 0 }));
}

#[test]
fn housekeeping_skips_image_cameras_and_unknown_windows() {
    let mut plugin = MousePosPlugin::new();
    let mut a = cam(1, 10);
    a.target = RenderTarget::Image;
    let b = cam(2, 99);
    plugin.cameras.push(a);
    plugin.cameras.push(b);
    let windows = vec![win(10, None)];
    let r = plugin.attach_tracking(&windows);
    assert!(r.is_ok());
    assert_eq!(plugin.cameras[0].screen, None);
    assert_eq!(plugin.cameras[1].screen, None);
}

#[test]
fn housekeeping_faults_on_a_camera_without_an_orthographic_projection() {
    let mut plugin = MousePosPlugin::new();
    let mut c = cam(1, 10);
    c.transform = Some(Transform::identity());
    plugin.cameras.push(c);
    let windows = vec![win(10, None)];
    let r = plugin.attach_tracking(&windows);
    assert_eq!(r, Err(TrackingError::MissingProjection(1)));
    assert_eq!(plugin.cameras[0].screen, None);
}

#[test]
fn world_update_recomputes_only_changed_cameras() {
    let mut plugin = MousePosPlugin::new();
    let mut a = cam(1, 10);
    a.transform = Some(Transform::identity());
    a.projection = Some(unit_proj());
    a.screen = Some(MousePos { x: 5, y: 5 });
    a.world = Some(MousePosWorld { x: 0, y: 0, z: 0 });
    a.screen_changed = true;
    let mut b = cam(2, 10);
    b.transform = Some(Transform::identity());
    b.projection = Some(unit_proj());
    b.screen = Some(MousePos { x: 7, y: 7 });
    b.world = Some(MousePosWorld { x: 1, y: 1, z: 1 });
    plugin.cameras.push(a);
    plugin.cameras.push(b);
    let r = plugin.update_pos_ortho();
    assert!(r.is_ok());
    assert_eq!(plugin.cameras[0].world, Some(MousePosWorld { x: 5, y: 5, z: 0 }));
    assert_eq!(plugin.cameras[1].world, Some(MousePosWorld { x: 1, y: 1, z: 1 }));
}

#[test]
fn world_update_recomputes_when_only_the_transform_changed() {
    let mut plugin = MousePosPlugin::new();
    let mut c = cam(1, 10);
    let mut t = Transform::identity();
    t.tx = 100;
    c.transform = Some(t);
    c.projection = Some(unit_proj());
    c.screen = Some(MousePos { x: 5, y: 5 });
    c.world = Some(MousePosWorld { x: 5, y: 5, z: 0 });
    c.transform_changed = true;
    plugin.cameras.push(c);
    let r = plugin.update_pos_ortho();
    assert!(r.is_ok());
    assert_eq!(plugin.cameras[0].world, Some(MousePosWorld { x: 105, y: 5, z: 0 }));
}

#[test]
fn world_update_faults_on_a_tracked_camera_without_a_transform() {
    let mut plugin = MousePosPlugin::new();
    let mut c = cam(1, 10);
    c.screen = Some(MousePos { x: 5, y: 5 });
    c.world = Some(MousePosWorld { x: 0, y: 0, z: 0 });
    c.screen_changed = true;
    plugin.cameras.push(c);
    let r = plugin.update_pos_ortho();
    assert_eq!(r, Err(TrackingError::MissingTransform(1)));
    assert_eq!(plugin.cameras[0].world, Some(MousePosWorld { x: 0, y: 0, z: 0 }));
}

#[test]
fn a_frame_moves_the_cursor_through_to_the_global_slots() {
    let mut plugin = MousePosPlugin::new();
    let mut c = cam(1, 10);
    c.transform = Some(Transform::identity());
    c.projection = Some(Projection { left: -10, bottom: -10, scale: 1 });
    c.main = Some(MainCamera);
    plugin.cameras.push(c);
    let windows = vec![win(10, Some(MousePos { x: 0, y: 0 }))];
    let events = vec![CursorMoved { window: 10, pos: MousePos { x: 25, y: 35 } }];
    let r = plugin.frame(&windows, &events, &vec![1], &Vec::new());
    assert!(r.is_ok());
    assert_eq!(plugin.cameras[0].screen, Some(MousePos { x: 25, y: 35 }));
    assert_eq!(plugin.cameras[0].world, Some(MousePosWorld { x: 15, y: 25, z: 0 }));
    assert_eq!(plugin.last_main, Some(1));
    assert_eq!(plugin.screen_res, MousePos { x: 25, y: 35 });
    assert_eq!(plugin.world_res, MousePosWorld { x: 15, y: 25, z: 0 });
}

#[test]
fn a_frame_clears_the_change_flags() {
    let mut plugin = MousePosPlugin::new();
    let mut c = cam(1, 10);
    c.transform = Some(Transform::identity());
    c.projection = Some(unit_proj());
    c.transform_changed = true;
    plugin.cameras.push(c);
    let windows = vec![win(10, Some(MousePos { x: 1, y: 2 }))];
    let r = plugin.frame(&windows, &Vec::new(), &Vec::new(), &Vec::new());
    assert!(r.is_ok());
    assert!(!plugin.cameras[0].screen_changed);
    assert!(!plugin.cameras[0].transform_changed);
}

#[test]
fn main_camera_without_components_mirrors_zero() {
    let mut plugin = MousePosPlugin::new();
    let mut c = cam(3, 10);
    c.main = Some(MainCamera);
    plugin.cameras.push(c);
    assert!(plugin.update_resources(&vec![3], &Vec::new()).is_ok());
    assert_eq!(plugin.last_main, Some(3));
    assert_eq!(plugin.screen_res, MousePos { x: 0, y: 0 });
    assert_eq!(plugin.world_res, MousePosWorld { x: 0, y: 0, z: 0 });
}

#[test]
fn a_frame_reports_the_marker_conflict() {
    let mut plugin = MousePosPlugin::new();
    let mut a = cam(1, 10);
    a.main = Some(MainCamera);
    a.excluded = Some(ExcludeMouseTracking);
    let mut b = cam(2, 10);
    b.main = Some(MainCamera);
    b.excluded = Some(ExcludeMouseTracking);
    plugin.cameras.push(a);
    plugin.cameras.push(b);
    let windows = vec![win(10, None)];
    let r = plugin.frame(&windows, &Vec::new(), &vec![1, 2], &Vec::new());
    assert_eq!(r, Err(TrackingError::MultipleMainCameras));
    assert_eq!(plugin.last_main, None);
}

#[test]
fn a_fresh_plugin_has_zero_slots_and_no_main_camera() {
    let plugin = MousePosPlugin::new();
    assert!(plugin.cameras.is_empty());
    assert_eq!(plugin.screen_res, MousePos { x: 0, y: 0 });
    assert_eq!(plugin.world_res, MousePosWorld { x: 0, y: 0, z: 0 });
    assert_eq!(plugin.last_main, None);
}
