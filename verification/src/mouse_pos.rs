//! Per-camera cursor tracking and the main-camera mirror.
//!
//! Camera entities are records over plain values.  Each frame the host hands
//! this module the cursor-moved notifications, a snapshot of the window
//! registry, and the change sets of the main-camera marker; the update rules
//! here copy notifications into screen positions, convert screen positions
//! to world positions, resolve which camera is the main one, and mirror its
//! values into two global lookup slots.

use vstd::prelude::*;

use crate::geometry::{
    compute_world_pos_ortho, world_of, world_pos_fits, zero_screen, zero_world, MousePos,
    MousePosWorld, Projection, Transform,
};

verus! {

/// Where a camera renders: into a window of the registry, or off screen
/// into an image.  Image cameras cannot track the cursor.
#[derive(Clone, Copy, Debug, PartialEq, Eq, Structural)]
pub enum RenderTarget {
    Window(u64),
    Image,
}

/// Marker for the single camera whose position values are mirrored into the
/// global lookup slots.
#[derive(Clone, Copy, Debug, PartialEq, Eq, Structural)]
pub struct MainCamera;

/// Marker that disables tracking for a camera; the escape hatch for cameras
/// whose projection is not orthographic.
#[derive(Clone, Copy, Debug, PartialEq, Eq, Structural)]
pub struct ExcludeMouseTracking;

/// One cursor-moved notification from the host: the window the cursor moved
/// in, and its new position there.
#[derive(Clone, Copy, Debug, PartialEq, Eq, Structural)]
pub struct CursorMoved {
    pub window: u64,
    pub pos: MousePos,
}

/// One window of the host's registry: its identifier and the current cursor
/// position inside it, if the cursor is in it.
#[derive(Clone, Copy, Debug, PartialEq)]
pub struct WindowInfo {
    pub id: u64,
    pub cursor: Option<MousePos>,
}

/// A camera entity as this module sees it: its identity, where it renders,
/// its optional projection and world transform, the two markers, the two
/// tracking components, and the host's change-detection flags for this
/// frame.
#[derive(Clone, Copy, Debug, PartialEq)]
pub struct CameraEntity {
    pub id: u64,
    pub target: RenderTarget,
    pub transform: Option<Transform>,
    pub projection: Option<Projection>,
    /// The main-camera marker as currently present on the entity.  The
    /// resolution step reads the frame's change sets, not this field, just
    /// as the host's change-detection queries would.
    pub main: Option<MainCamera>,
    pub excluded: Option<ExcludeMouseTracking>,
    pub screen: Option<MousePos>,
    pub world: Option<MousePosWorld>,
    pub screen_changed: bool,
    pub transform_changed: bool,
}

/// A camera misconfiguration.  Every variant is a usage error on the
/// calling application's side, named after the entity or window at fault.
#[derive(Clone, Copy, Debug, PartialEq, Eq, Structural)]
pub enum TrackingError {
    /// An initialization action was invoked on an entity that is not a
    /// camera of the tracked set.
    NotACamera(u64),
    /// An initialization action was invoked on a camera that renders to an
    /// off-screen image rather than a window.
    RendersToImage(u64),
    /// A camera's target window is not in the window registry.
    WindowNotFound(u64),
    /// World tracking needs the camera's resolved world transform.
    MissingTransform(u64),
    /// World tracking needs an orthographic projection on the camera.
    MissingProjection(u64),
    /// More than one entity carries the main-camera marker.
    MultipleMainCameras,
}

/// The whole tracking state: the tracked cameras, the two global lookup
/// slots that mirror the main camera, and the identity of the main camera
/// resolved last frame.  The slots are written only by the update steps of
/// this module; everyone else reads them.
#[derive(Debug)]
pub struct MousePosPlugin {
    pub cameras: Vec<CameraEntity>,
    pub screen_res: MousePos,
    pub world_res: MousePosWorld,
    pub last_main: Option<u64>,
}

/// The window a render target draws to, if any.
pub open spec fn target_window(t: RenderTarget) -> Option<u64> {
    match t {
        RenderTarget::Window(w) => Some(w),
        RenderTarget::Image => None,
    }
}

/// The first window of the registry with the given identifier.
pub open spec fn find_window(ws: Seq<WindowInfo>, id: u64) -> Option<WindowInfo>
    decreases ws.len(),
{
    if ws.len() == 0 {
        None
    } else if ws[0].id == id {
        Some(ws[0])
    } else {
        find_window(ws.drop_first(), id)
    }
}

/// The index of the first camera with the given entity identifier.
pub open spec fn find_cam(cams: Seq<CameraEntity>, id: u64) -> Option<int>
    decreases cams.len(),
{
    if cams.len() == 0 {
        None
    } else if cams[0].id == id {
        Some(0)
    } else {
        match find_cam(cams.drop_first(), id) {
            Some(i) => Some(i + 1),
            None => None,
        }
    }
}

proof fn lemma_find_window_from(ws: Seq<WindowInfo>, id: u64, i: int)
    requires
        0 <= i <= ws.len(),
        forall|j: int| 0 <= j < i ==> ws[j].id != id,
    ensures
        find_window(ws, id) == find_window(ws.subrange(i, ws.len() as int), id),
    decreases i,
{
    if i > 0 {
        lemma_find_window_from(ws, id, i - 1);
        let tail = ws.subrange(i - 1, ws.len() as int);
        assert(tail[0] == ws[i - 1]);
        assert(tail.drop_first() =~= ws.subrange(i, ws.len() as int));
    } else {
        assert(ws.subrange(0, ws.len() as int) =~= ws);
    }
}

proof fn lemma_find_cam_from(cams: Seq<CameraEntity>, id: u64, i: int)
    requires
        0 <= i <= cams.len(),
        forall|j: int| 0 <= j < i ==> cams[j].id != id,
    ensures
        find_cam(cams, id) == match find_cam(cams.subrange(i, cams.len() as int), id) {
            Some(k) => Some(k + i),
            None => None::<int>,
        },
    decreases i,
{
    if i > 0 {
        lemma_find_cam_from(cams, id, i - 1);
        let tail = cams.subrange(i - 1, cams.len() as int);
        assert(tail[0] == cams[i - 1]);
        assert(tail.drop_first() =~= cams.subrange(i, cams.len() as int));
    } else {
        assert(cams.subrange(0, cams.len() as int) =~= cams);
    }
}

/// Looks a window up by identifier; returns the first entry with that
/// identifier, as [`find_window`] does.
fn lookup_window(ws: &Vec<WindowInfo>, id: u64) -> (r: Option<WindowInfo>)
    ensures
        r == find_window(ws@, id),
{
    let mut i: usize = 0;
    while i < ws.len()
        invariant
            0 <= i <= ws@.len(),
            forall|j: int| 0 <= j < i ==> ws@[j].id != id,
        decreases ws@.len() - i,
    {
        if ws[i].id == id {
            proof {
                lemma_find_window_from(ws@, id, i as int);
                let tail = ws@.subrange(i as int, ws@.len() as int);
                assert(tail[0] == ws@[i as int]);
            }
            return Some(ws[i]);
        }
        i = i + 1;
    }
    proof {
        lemma_find_window_from(ws@, id, ws@.len() as int);
        assert(ws@.subrange(ws@.len() as int, ws@.len() as int) =~= Seq::<WindowInfo>::empty());
    }
    None
}

/// Looks a camera up by entity identifier; returns the index of the first
/// camera with that identifier, as [`find_cam`] does.
fn lookup_camera(cams: &Vec<CameraEntity>, id: u64) -> (r: Option<usize>)
    ensures
        match r {
            Some(i) => find_cam(cams@, id) == Some(i as int) && i < cams@.len(),
            None => find_cam(cams@, id) is None,
        },
{
    let mut i: usize = 0;
    while i < cams.len()
        invariant
            0 <= i <= cams@.len(),
            forall|j: int| 0 <= j < i ==> cams@[j].id != id,
        decreases cams@.len() - i,
    {
        if cams[i].id == id {
            proof {
                lemma_find_cam_from(cams@, id, i as int);
                let tail = cams@.subrange(i as int, cams@.len() as int);
                assert(tail[0] == cams@[i as int]);
            }
            return Some(i);
        }
        i = i + 1;
    }
    proof {
        lemma_find_cam_from(cams@, id, cams@.len() as int);
        assert(cams@.subrange(cams@.len() as int, cams@.len() as int)
            =~= Seq::<CameraEntity>::empty());
    }
    None
}

/// The position carried by the last notification for window `w`, in
/// arrival order, if the frame had any.
pub open spec fn last_cursor(events: Seq<CursorMoved>, w: u64) -> Option<MousePos>
    decreases events.len(),
{
    if events.len() == 0 {
        None
    } else if events.last().window == w {
        Some(events.last().pos)
    } else {
        last_cursor(events.drop_last(), w)
    }
}

/// One camera after the screen-position update: a camera that carries the
/// screen component and renders to a window some notification targeted
/// takes the last such notification's position; every other camera is
/// untouched.
pub open spec fn screen_update_cam(c: CameraEntity, events: Seq<CursorMoved>) -> CameraEntity {
    if c.screen is Some && target_window(c.target) is Some {
        match last_cursor(events, target_window(c.target).unwrap()) {
            Some(p) => CameraEntity { screen: Some(p), screen_changed: true, ..c },
            None => c,
        }
    } else {
        c
    }
}

/// The whole camera set after the screen-position update.
pub open spec fn screen_step(cams: Seq<CameraEntity>, events: Seq<CursorMoved>) -> Seq<
    CameraEntity,
> {
    cams.map_values(|c: CameraEntity| screen_update_cam(c, events))
}

/// A frame has no notification for window `w` exactly when [`last_cursor`]
/// finds none.
pub proof fn lemma_last_cursor_none(events: Seq<CursorMoved>, w: u64)
    ensures
        last_cursor(events, w) is None <==> (forall|j: int|
            0 <= j < events.len() ==> events[j].window != w),
    decreases events.len(),
{
    if events.len() > 0 {
        lemma_last_cursor_none(events.drop_last(), w);
        assert(forall|j: int|
            0 <= j < events.len() - 1 ==> events.drop_last()[j] == events[j]);
    }
}

/// [`last_cursor`] returns the notification that no later notification for
/// the same window follows: the last one in arrival order.
pub proof fn lemma_last_cursor_is_last(events: Seq<CursorMoved>, w: u64, j: int)
    requires
        0 <= j < events.len(),
        events[j].window == w,
        forall|k: int| j < k < events.len() ==> events[k].window != w,
    ensures
        last_cursor(events, w) == Some(events[j].pos),
    decreases events.len(),
{
    if j == events.len() - 1 {
    } else {
        lemma_last_cursor_is_last(events.drop_last(), w, j);
        assert(forall|k: int|
            0 <= k < events.len() - 1 ==> events.drop_last()[k] == events[k]);
    }
}

/// Whether the world-position update must recompute this camera this
/// frame: it carries both tracking components, and its screen position or
/// its world transform changed.
pub open spec fn needs_world_update(c: CameraEntity) -> bool {
    c.world is Some && c.screen is Some && (c.screen_changed || c.transform_changed)
}

/// Whether the world-position update would hit this camera's missing
/// transform or missing orthographic projection: the fatal usage error
/// whose remedy is marking the camera excluded.
pub open spec fn world_cam_fault(c: CameraEntity) -> bool {
    needs_world_update(c) && (c.transform is None || c.projection is None)
}

/// The error reported for a camera that lacks what world tracking needs:
/// the transform is checked first, as the initialization actions do.
pub open spec fn fault_error(c: CameraEntity) -> TrackingError {
    if c.transform is None {
        TrackingError::MissingTransform(c.id)
    } else {
        TrackingError::MissingProjection(c.id)
    }
}

/// The index of the first camera the world-position update would fault on.
pub open spec fn world_fault(cams: Seq<CameraEntity>) -> Option<int>
    decreases cams.len(),
{
    if cams.len() == 0 {
        None
    } else if world_cam_fault(cams[0]) {
        Some(0)
    } else {
        match world_fault(cams.drop_first()) {
            Some(i) => Some(i + 1),
            None => None,
        }
    }
}

/// One camera after the world-position update: a camera due for
/// recomputation takes the world position its current screen position maps
/// to; every other camera is untouched.
pub open spec fn world_update_cam(c: CameraEntity) -> CameraEntity {
    if needs_world_update(c) && c.transform is Some && c.projection is Some {
        CameraEntity {
            world: Some(
                world_of(c.screen.unwrap(), c.transform.unwrap(), c.projection.unwrap()),
            ),
            ..c
        }
    } else {
        c
    }
}

/// The whole camera set after the world-position update.
pub open spec fn world_step(cams: Seq<CameraEntity>) -> Seq<CameraEntity> {
    cams.map_values(|c: CameraEntity| world_update_cam(c))
}

/// Whether every world position the world-position update would compute
/// stays in `i64` range.  This is the machine-size precondition of
/// [`MousePosPlugin::update_pos_ortho`].
pub open spec fn world_fits(cams: Seq<CameraEntity>) -> bool {
    forall|k: int|
        0 <= k < cams.len() && needs_world_update(#[trigger] cams[k]) && cams[k].transform is Some
            && cams[k].projection is Some ==> world_pos_fits(
            cams[k].screen.unwrap(),
            cams[k].transform.unwrap(),
            cams[k].projection.unwrap(),
        )
}

proof fn lemma_world_fault_from(cams: Seq<CameraEntity>, i: int)
    requires
        0 <= i <= cams.len(),
        forall|j: int| 0 <= j < i ==> !world_cam_fault(cams[j]),
    ensures
        world_fault(cams) == match world_fault(cams.subrange(i, cams.len() as int)) {
            Some(k) => Some(k + i),
            None => None::<int>,
        },
    decreases i,
{
    if i > 0 {
        lemma_world_fault_from(cams, i - 1);
        let tail = cams.subrange(i - 1, cams.len() as int);
        assert(tail[0] == cams[i - 1]);
        assert(tail.drop_first() =~= cams.subrange(i, cams.len() as int));
    } else {
        assert(cams.subrange(0, cams.len() as int) =~= cams);
    }
}

/// Whether the per-frame housekeeping step touches this camera at all: it
/// is not excluded, it renders to a window, and that window is in the
/// registry.  Excluded cameras and image cameras are always skipped.
pub open spec fn hk_applies(c: CameraEntity, ws: Seq<WindowInfo>) -> bool {
    &&& c.excluded is None
    &&& target_window(c.target) is Some
    &&& find_window(ws, target_window(c.target).unwrap()) is Some
}

/// The true cursor position in this camera's window, or zero when the
/// cursor is not in it.  Meaningful when [`hk_applies`] holds.
pub open spec fn hk_cursor(c: CameraEntity, ws: Seq<WindowInfo>) -> MousePos {
    match find_window(ws, target_window(c.target).unwrap()).unwrap().cursor {
        Some(p) => p,
        None => zero_screen(),
    }
}

/// This camera after the screen half of housekeeping: a camera lacking the
/// screen component receives one, seeded with the window's current cursor
/// position.
pub open spec fn hk_seed_screen(c: CameraEntity, ws: Seq<WindowInfo>) -> CameraEntity {
    if hk_applies(c, ws) && c.screen is None {
        CameraEntity { screen: Some(hk_cursor(c, ws)), screen_changed: true, ..c }
    } else {
        c
    }
}

/// Whether housekeeping attaches a world component to this camera: it is
/// touched at all, lacks the world component, and carries the transform and
/// projection the conversion needs.
pub open spec fn hk_attaches_world(c: CameraEntity, ws: Seq<WindowInfo>) -> bool {
    hk_applies(c, ws) && c.world is None && c.transform is Some && c.projection is Some
}

/// Whether housekeeping faults on this camera: it should receive a world
/// component but lacks its transform or its orthographic projection.
pub open spec fn hk_cam_fault(c: CameraEntity, ws: Seq<WindowInfo>) -> bool {
    hk_applies(c, ws) && c.world is None && (c.transform is None || c.projection is None)
}

/// One camera after housekeeping: the screen component is seeded if it was
/// missing, and then the world component, computed from the camera's
/// (possibly just seeded) screen position.
pub open spec fn hk_cam(c: CameraEntity, ws: Seq<WindowInfo>) -> CameraEntity {
    let c1 = hk_seed_screen(c, ws);
    if hk_attaches_world(c, ws) {
        CameraEntity {
            world: Some(
                world_of(c1.screen.unwrap(), c.transform.unwrap(), c.projection.unwrap()),
            ),
            ..c1
        }
    } else {
        c1
    }
}

/// The whole camera set after housekeeping.
pub open spec fn hk_step(cams: Seq<CameraEntity>, ws: Seq<WindowInfo>) -> Seq<CameraEntity> {
    cams.map_values(|c: CameraEntity| hk_cam(c, ws))
}

/// The index of the first camera housekeeping would fault on.
pub open spec fn hk_fault(cams: Seq<CameraEntity>, ws: Seq<WindowInfo>) -> Option<int>
    decreases cams.len(),
{
    if cams.len() == 0 {
        None
    } else if hk_cam_fault(cams[0], ws) {
        Some(0)
    } else {
        match hk_fault(cams.drop_first(), ws) {
            Some(i) => Some(i + 1),
            None => None,
        }
    }
}

/// Whether every world position housekeeping would compute stays in `i64`
/// range.  This is the machine-size precondition of
/// [`MousePosPlugin::attach_tracking`].
pub open spec fn hk_fits(cams: Seq<CameraEntity>, ws: Seq<WindowInfo>) -> bool {
    forall|k: int|
        0 <= k < cams.len() && hk_attaches_world(#[trigger] cams[k], ws) ==> world_pos_fits(
            hk_seed_screen(cams[k], ws).screen.unwrap(),
            cams[k].transform.unwrap(),
            cams[k].projection.unwrap(),
        )
}

proof fn lemma_hk_fault_from(cams: Seq<CameraEntity>, ws: Seq<WindowInfo>, i: int)
    requires
        0 <= i <= cams.len(),
        forall|j: int| 0 <= j < i ==> !hk_cam_fault(cams[j], ws),
    ensures
        hk_fault(cams, ws) == match hk_fault(cams.subrange(i, cams.len() as int), ws) {
            Some(k) => Some(k + i),
            None => None::<int>,
        },
    decreases i,
{
    if i > 0 {
        lemma_hk_fault_from(cams, ws, i - 1);
        let tail = cams.subrange(i - 1, cams.len() as int);
        assert(tail[0] == cams[i - 1]);
        assert(tail.drop_first() =~= cams.subrange(i, cams.len() as int));
    } else {
        assert(cams.subrange(0, cams.len() as int) =~= cams);
    }
}

/// One camera with the host's change-detection flags cleared for the next
/// frame.
pub open spec fn clear_cam(c: CameraEntity) -> CameraEntity {
    CameraEntity { screen_changed: false, transform_changed: false, ..c }
}

/// The whole camera set with the change-detection flags cleared.
pub open spec fn clear_step(cams: Seq<CameraEntity>) -> Seq<CameraEntity> {
    cams.map_values(|c: CameraEntity| clear_cam(c))
}

/// Whether every world position a whole frame update would compute stays in
/// `i64` range: housekeeping's computations, and the per-frame
/// recomputation as it runs after housekeeping and the screen update.
/// This is the machine-size precondition of [`MousePosPlugin::frame`].
pub open spec fn frame_fits(
    cams: Seq<CameraEntity>,
    ws: Seq<WindowInfo>,
    events: Seq<CursorMoved>,
) -> bool {
    hk_fits(cams, ws) && world_fits(screen_step(hk_step(cams, ws), events))
}

/// A camera record with a freshly seeded screen component.
pub open spec fn seed_screen(c: CameraEntity, p: MousePos) -> CameraEntity {
    CameraEntity { screen: Some(p), screen_changed: true, ..c }
}

/// A camera record with a freshly seeded world component.
pub open spec fn seed_world(c: CameraEntity, wp: MousePosWorld) -> CameraEntity {
    CameraEntity { world: Some(wp), ..c }
}

/// What initializing screen tracking on `entity` does: the index of the
/// camera and the screen position it is seeded with (the window's current
/// true cursor position, or zero when the cursor is not in the window), or
/// the fatal usage error.
pub open spec fn init_mouse_spec(
    cams: Seq<CameraEntity>,
    ws: Seq<WindowInfo>,
    entity: u64,
) -> Result<(int, MousePos), TrackingError> {
    match find_cam(cams, entity) {
        None => Err(TrackingError::NotACamera(entity)),
        Some(i) => match target_window(cams[i].target) {
            None => Err(TrackingError::RendersToImage(entity)),
            Some(w) => match find_window(ws, w) {
                None => Err(TrackingError::WindowNotFound(w)),
                Some(win) => match win.cursor {
                    Some(p) => Ok((i, p)),
                    None => Ok((i, zero_screen())),
                },
            },
        },
    }
}

/// What initializing world tracking on `entity` does: the screen
/// initialization first, then the world position computed from the seeded
/// screen position, or the fatal usage error when the camera lacks its
/// transform or its orthographic projection.
pub open spec fn init_world_spec(
    cams: Seq<CameraEntity>,
    ws: Seq<WindowInfo>,
    entity: u64,
) -> Result<(int, MousePos, MousePosWorld), TrackingError> {
    match init_mouse_spec(cams, ws, entity) {
        Err(e) => Err(e),
        Ok(t) => if cams[t.0].transform is None {
            Err(TrackingError::MissingTransform(entity))
        } else if cams[t.0].projection is None {
            Err(TrackingError::MissingProjection(entity))
        } else {
            Ok(
                (
                    t.0,
                    t.1,
                    world_of(t.1, cams[t.0].transform.unwrap(), cams[t.0].projection.unwrap()),
                ),
            )
        },
    }
}

/// Whether the world position that initializing world tracking on `entity`
/// would compute stays in `i64` range.  This is the machine-size
/// precondition of [`InitWorldTracking::write`].
pub open spec fn init_world_fits(
    cams: Seq<CameraEntity>,
    ws: Seq<WindowInfo>,
    entity: u64,
) -> bool {
    match init_mouse_spec(cams, ws, entity) {
        Ok(t) => cams[t.0].transform is Some && cams[t.0].projection is Some
            ==> world_pos_fits(t.1, cams[t.0].transform.unwrap(), cams[t.0].projection.unwrap()),
        Err(_) => true,
    }
}

/// An optional entity as a sequence of zero or one entities.
pub open spec fn opt_to_seq(o: Option<u64>) -> Seq<u64> {
    match o {
        Some(x) => seq![x],
        None => Seq::empty(),
    }
}

/// The index of the first occurrence of `x`.
pub open spec fn find_id(s: Seq<u64>, x: u64) -> Option<int>
    decreases s.len(),
{
    if s.len() == 0 {
        None
    } else if s[0] == x {
        Some(0)
    } else {
        match find_id(s.drop_first(), x) {
            Some(i) => Some(i + 1),
            None => None,
        }
    }
}

/// The sequence with the first occurrence of `x` removed, if there is one.
pub open spec fn remove_first(s: Seq<u64>, x: u64) -> Seq<u64> {
    match find_id(s, x) {
        Some(i) => s.remove(i),
        None => s,
    }
}

/// The sequence after removing, one by one in order, the first occurrence
/// of each entity of `rem`.
pub open spec fn remove_each(s: Seq<u64>, rem: Seq<u64>) -> Seq<u64>
    decreases rem.len(),
{
    if rem.len() == 0 {
        s
    } else {
        remove_each(remove_first(s, rem[0]), rem.drop_first())
    }
}

/// The entities known to carry the main-camera marker after applying this
/// frame's change sets: the camera resolved last frame, then the entities
/// whose marker was added this frame, minus those whose marker was removed.
pub open spec fn resolve_markers(last: Option<u64>, added: Seq<u64>, removed: Seq<u64>) -> Seq<
    u64,
> {
    remove_each(opt_to_seq(last) + added, removed)
}

/// The screen position of the camera with the given identifier, or zero
/// when there is no such camera or it carries no screen component.
pub open spec fn lookup_screen(cams: Seq<CameraEntity>, id: u64) -> MousePos {
    match find_cam(cams, id) {
        Some(i) => match cams[i].screen {
            Some(p) => p,
            None => zero_screen(),
        },
        None => zero_screen(),
    }
}

/// The world position of the camera with the given identifier, or zero
/// when there is no such camera or it carries no world component.
pub open spec fn lookup_world(cams: Seq<CameraEntity>, id: u64) -> MousePosWorld {
    match find_cam(cams, id) {
        Some(i) => match cams[i].world {
            Some(p) => p,
            None => zero_world(),
        },
        None => zero_world(),
    }
}

/// The main-camera resolution and global mirror, as a function of the state
/// it reads: the new resolved main camera and the new values of the two
/// global slots, or the fatal error when several entities carry the marker.
/// With exactly one marked entity the slots mirror that camera; with none
/// the slots are reset to zero on the frame the marker disappears and are
/// left untouched on every later frame.
pub open spec fn resources_step(
    last: Option<u64>,
    added: Seq<u64>,
    removed: Seq<u64>,
    cams: Seq<CameraEntity>,
    screen_res: MousePos,
    world_res: MousePosWorld,
) -> Result<(Option<u64>, MousePos, MousePosWorld), TrackingError> {
    let lst = resolve_markers(last, added, removed);
    if lst.len() >= 2 {
        Err(TrackingError::MultipleMainCameras)
    } else if lst.len() == 1 {
        Ok((Some(lst[0]), lookup_screen(cams, lst[0]), lookup_world(cams, lst[0])))
    } else if last is Some {
        Ok((None, zero_screen(), zero_world()))
    } else {
        Ok((None, screen_res, world_res))
    }
}

proof fn lemma_find_id_from(s: Seq<u64>, x: u64, i: int)
    requires
        0 <= i <= s.len(),
        forall|j: int| 0 <= j < i ==> s[j] != x,
    ensures
        find_id(s, x) == match find_id(s.subrange(i, s.len() as int), x) {
            Some(k) => Some(k + i),
            None => None::<int>,
        },
    decreases i,
{
    if i > 0 {
        lemma_find_id_from(s, x, i - 1);
        let tail = s.subrange(i - 1, s.len() as int);
        assert(tail[0] == s[i - 1]);
        assert(tail.drop_first() =~= s.subrange(i, s.len() as int));
    } else {
        assert(s.subrange(0, s.len() as int) =~= s);
    }
}

proof fn lemma_remove_each_push(s: Seq<u64>, rem: Seq<u64>, x: u64)
    ensures
        remove_each(s, rem.push(x)) == remove_first(remove_each(s, rem), x),
    decreases rem.len(),
{
    let p = rem.push(x);
    assert(p.len() == rem.len() + 1);
    if rem.len() == 0 {
        assert(p[0] == x);
        assert(p.drop_first() =~= Seq::<u64>::empty());
        assert(remove_each(s, p) == remove_each(remove_first(s, x), p.drop_first()));
        assert(remove_each(remove_first(s, x), p.drop_first()) == remove_first(s, x));
        assert(remove_each(s, rem) == s);
    } else {
        assert(p[0] == rem[0]);
        assert(p.drop_first() =~= rem.drop_first().push(x));
        assert(remove_each(s, p) == remove_each(remove_first(s, p[0]), p.drop_first()));
        lemma_remove_each_push(remove_first(s, rem[0]), rem.drop_first(), x);
        assert(remove_each(s, rem) == remove_each(remove_first(s, rem[0]), rem.drop_first()));
    }
}

/// The index of the first occurrence of `x`, as [`find_id`] finds it.
fn position_of(v: &Vec<u64>, x: u64) -> (r: Option<usize>)
    ensures
        match r {
            Some(i) => find_id(v@, x) == Some(i as int) && i < v@.len(),
            None => find_id(v@, x) is None,
        },
{
    let mut i: usize = 0;
    while i < v.len()
        invariant
            0 <= i <= v@.len(),
            forall|j: int| 0 <= j < i ==> v@[j] != x,
        decreases v@.len() - i,
    {
        if v[i] == x {
            proof {
                lemma_find_id_from(v@, x, i as int);
                let tail = v@.subrange(i as int, v@.len() as int);
                assert(tail[0] == v@[i as int]);
            }
            return Some(i);
        }
        i = i + 1;
    }
    proof {
        lemma_find_id_from(v@, x, v@.len() as int);
        assert(v@.subrange(v@.len() as int, v@.len() as int) =~= Seq::<u64>::empty());
    }
    None
}

impl MousePosPlugin {
    /// A fresh tracking state: no cameras, both global slots at zero, no
    /// main camera resolved.
    pub fn new() -> (r: MousePosPlugin)
        ensures
            r.cameras@ == Seq::<CameraEntity>::empty(),
            r.screen_res == zero_screen(),
            r.world_res == zero_world(),
            r.last_main is None,
    {
        MousePosPlugin {
            cameras: Vec::new(),
            screen_res: MousePos { x: 0, y: 0 },
            world_res: MousePosWorld { x: 0, y: 0, z: 0 },
            last_main: None,
        }
    }

    /// The per-frame housekeeping step: finds cameras that lack tracking
    /// components and attaches them, the screen position seeded with the
    /// camera's window's current true cursor position and the world
    /// position computed from it.  Excluded cameras never receive
    /// components; image cameras and cameras of unknown windows are
    /// skipped.  A camera that should receive a world component but lacks
    /// its transform or its orthographic projection is a fatal usage error
    /// (remedy: mark the camera excluded); the first such camera is
    /// reported and nothing is changed.
    pub fn attach_tracking(&mut self, windows: &Vec<WindowInfo>) -> (r: Result<(), TrackingError>)
        requires
            hk_fits(old(self).cameras@, windows@),
        ensures
            match hk_fault(old(self).cameras@, windows@) {
                Some(i) => r == Err::<(), TrackingError>(fault_error(old(self).cameras@[i]))
                    && final(self).cameras@ == old(self).cameras@,
                None => r is Ok && final(self).cameras@ == hk_step(old(self).cameras@, windows@),
            },
            final(self).screen_res == old(self).screen_res,
            final(self).world_res == old(self).world_res,
            final(self).last_main == old(self).last_main,
    {
        let n = self.cameras.len();
        let mut i: usize = 0;
        while i < n
            invariant
                0 <= i <= n,
                n == self.cameras@.len(),
                self == old(self),
                forall|j: int| 0 <= j < i ==> !hk_cam_fault(self.cameras@[j], windows@),
            decreases n - i,
        {
            let c = self.cameras[i];
            if c.excluded.is_none() && c.world.is_none() && (c.transform.is_none()
                || c.projection.is_none()) {
                if let RenderTarget::Window(w) = c.target {
                    if lookup_window(windows, w).is_some() {
                        proof {
                            lemma_hk_fault_from(self.cameras@, windows@, i as int);
                            let tail = self.cameras@.subrange(
                                i as int,
                                self.cameras@.len() as int,
                            );
                            assert(tail[0] == self.cameras@[i as int]);
                        }
                        if c.transform.is_none() {
                            return Err(TrackingError::MissingTransform(c.id));
                        } else {
                            return Err(TrackingError::MissingProjection(c.id));
                        }
                    }
                }
            }
            proof {
                assert(!hk_cam_fault(self.cameras@[i as int], windows@));
            }
            i = i + 1;
        }
        proof {
            lemma_hk_fault_from(self.cameras@, windows@, n as int);
            assert(self.cameras@.subrange(n as int, n as int) =~= Seq::<CameraEntity>::empty());
        }

        let mut i: usize = 0;
        while i < n
            invariant
                0 <= i <= n,
                n == self.cameras@.len(),
                self.cameras@.len() == old(self).cameras@.len(),
                hk_fits(old(self).cameras@, windows@),
                forall|k: int|
                    0 <= k < i ==> self.cameras@[k] == hk_cam(old(self).cameras@[k], windows@),
                forall|k: int| i <= k < n ==> self.cameras@[k] == old(self).cameras@[k],
                self.screen_res == old(self).screen_res,
                self.world_res == old(self).world_res,
                self.last_main == old(self).last_main,
            decreases n - i,
        {
            let mut c = self.cameras[i];
            if c.excluded.is_none() {
                if let RenderTarget::Window(w) = c.target {
                    if let Some(win) = lookup_window(windows, w) {
                        if c.screen.is_none() {
                            let cur = match win.cursor {
                                Some(p) => p,
                                None => MousePos { x: 0, y: 0 },
                            };
                            c.screen = Some(cur);
                            c.screen_changed = true;
                        }
                        assert(c == hk_seed_screen(old(self).cameras@[i as int], windows@));
                        if c.world.is_none() && c.transform.is_some() && c.projection.is_some() {
                            let sp = c.screen.unwrap();
                            let tf = c.transform.unwrap();
                            let proj = c.projection.unwrap();
                            c.world = Some(compute_world_pos_ortho(sp, &tf, &proj));
                        }
                        self.cameras[i] = c;
                    }
                }
            }
            assert(self.cameras@[i as int] == hk_cam(old(self).cameras@[i as int], windows@));
            i = i + 1;
        }
        assert(self.cameras@ =~= hk_step(old(self).cameras@, windows@));
        Ok(())
    }

    /// Copies this frame's cursor-moved notifications into the screen
    /// position of every camera that carries the screen component, window
    /// by window.  Cameras sharing a window all receive the same update;
    /// when several notifications target one window the last in arrival
    /// order wins; cameras whose window got no notification keep their
    /// previous value.  The global slots and the resolved main camera are
    /// untouched.
    pub fn update_pos(&mut self, events: &Vec<CursorMoved>)
        ensures
            final(self).cameras@ == screen_step(old(self).cameras@, events@),
            final(self).screen_res == old(self).screen_res,
            final(self).world_res == old(self).world_res,
            final(self).last_main == old(self).last_main,
    {
        let n = self.cameras.len();
        let mut i: usize = 0;
        while i < n
            invariant
                0 <= i <= n,
                n == self.cameras@.len(),
                self.cameras@.len() == old(self).cameras@.len(),
                forall|k: int|
                    0 <= k < i ==> self.cameras@[k] == screen_update_cam(
                        old(self).cameras@[k],
                        events@,
                    ),
                forall|k: int| i <= k < n ==> self.cameras@[k] == old(self).cameras@[k],
                self.screen_res == old(self).screen_res,
                self.world_res == old(self).world_res,
                self.last_main == old(self).last_main,
            decreases n - i,
        {
            let mut c = self.cameras[i];
            if c.screen.is_some() {
                if let RenderTarget::Window(w) = c.target {
                    let mut latest: Option<MousePos> = None;
                    let mut j: usize = 0;
                    assert(events@.take(0) =~= Seq::<CursorMoved>::empty());
                    while j < events.len()
                        invariant
                            0 <= j <= events@.len(),
                            latest == last_cursor(events@.take(j as int), w),
                        decreases events@.len() - j,
                    {
                        proof {
                            let pre = events@.take(j as int);
                            let post = events@.take(j + 1);
                            assert(post.drop_last() =~= pre);
                            assert(post.last() == events@[j as int]);
                        }
                        if events[j].window == w {
                            latest = Some(events[j].pos);
                        }
                        j = j + 1;
                    }
                    assert(events@.take(events@.len() as int) =~= events@);
                    if let Some(p) = latest {
                        c.screen = Some(p);
                        c.screen_changed = true;
                        self.cameras[i] = c;
                    }
                }
            }
            assert(self.cameras@[i as int] == screen_update_cam(old(self).cameras@[i as int], events@));
            i = i + 1;
        }
        assert(self.cameras@ =~= screen_step(old(self).cameras@, events@));
    }

    /// Recomputes the world position of every camera whose screen position
    /// or world transform changed this frame, through the pure conversion
    /// of [`compute_world_pos_ortho`].  A camera due for recomputation that
    /// lacks its transform or its orthographic projection is a fatal usage
    /// error (remedy: mark the camera excluded); the first such camera is
    /// reported and nothing is changed.
    pub fn update_pos_ortho(&mut self) -> (r: Result<(), TrackingError>)
        requires
            world_fits(old(self).cameras@),
        ensures
            match world_fault(old(self).cameras@) {
                Some(i) => r == Err::<(), TrackingError>(fault_error(old(self).cameras@[i]))
                    && final(self).cameras@ == old(self).cameras@,
                None => r is Ok && final(self).cameras@ == world_step(old(self).cameras@),
            },
            final(self).screen_res == old(self).screen_res,
            final(self).world_res == old(self).world_res,
            final(self).last_main == old(self).last_main,
    {
        let n = self.cameras.len();
        let mut i: usize = 0;
        while i < n
            invariant
                0 <= i <= n,
                n == self.cameras@.len(),
                self == old(self),
                forall|j: int| 0 <= j < i ==> !world_cam_fault(self.cameras@[j]),
            decreases n - i,
        {
            let c = self.cameras[i];
            if c.world.is_some() && c.screen.is_some() && (c.screen_changed || c.transform_changed)
                && (c.transform.is_none() || c.projection.is_none()) {
                proof {
                    lemma_world_fault_from(self.cameras@, i as int);
                    let tail = self.cameras@.subrange(i as int, self.cameras@.len() as int);
                    assert(tail[0] == self.cameras@[i as int]);
                }
                if c.transform.is_none() {
                    return Err(TrackingError::MissingTransform(c.id));
                } else {
                    return Err(TrackingError::MissingProjection(c.id));
                }
            }
            i = i + 1;
        }
        proof {
            lemma_world_fault_from(self.cameras@, n as int);
            assert(self.cameras@.subrange(n as int, n as int) =~= Seq::<CameraEntity>::empty());
        }

        let mut i: usize = 0;
        while i < n
            invariant
                0 <= i <= n,
                n == self.cameras@.len(),
                self.cameras@.len() == old(self).cameras@.len(),
                world_fits(old(self).cameras@),
                forall|k: int|
                    0 <= k < i ==> self.cameras@[k] == world_update_cam(old(self).cameras@[k]),
                forall|k: int| i <= k < n ==> self.cameras@[k] == old(self).cameras@[k],
                self.screen_res == old(self).screen_res,
                self.world_res == old(self).world_res,
                self.last_main == old(self).last_main,
            decreases n - i,
        {
            let mut c = self.cameras[i];
            if c.world.is_some() && c.screen.is_some() && (c.screen_changed || c.transform_changed) {
                if c.transform.is_some() && c.projection.is_some() {
                    let screen = c.screen.unwrap();
                    let transform = c.transform.unwrap();
                    let proj = c.projection.unwrap();
                    c.world = Some(compute_world_pos_ortho(screen, &transform, &proj));
                    self.cameras[i] = c;
                }
            }
            assert(self.cameras@[i as int] == world_update_cam(old(self).cameras@[i as int]));
            i = i + 1;
        }
        assert(self.cameras@ =~= world_step(old(self).cameras@));
        Ok(())
    }

    /// Resolves which camera is the main one from last frame's answer and
    /// this frame's marker change sets, then mirrors that camera's screen
    /// and world positions into the global lookup slots.  Several
    /// simultaneously marked entities are a fatal configuration error; the
    /// state is then left unchanged.  When the last marker disappears the
    /// slots are reset to zero once, on that frame only.
    pub fn update_resources(&mut self, added_main: &Vec<u64>, removed_main: &Vec<u64>) -> (r: Result<(), TrackingError>)
        ensures
            final(self).cameras@ == old(self).cameras@,
            match resources_step(
                old(self).last_main,
                added_main@,
                removed_main@,
                old(self).cameras@,
                old(self).screen_res,
                old(self).world_res,
            ) {
                Ok(t) => r is Ok && final(self).last_main == t.0 && final(self).screen_res == t.1
                    && final(self).world_res == t.2,
                Err(e) => r == Err::<(), TrackingError>(e)
                    && final(self).last_main == old(self).last_main
                    && final(self).screen_res == old(self).screen_res
                    && final(self).world_res == old(self).world_res,
            },
    {
        let ghost initial = opt_to_seq(self.last_main) + added_main@;
        let mut with_marker: Vec<u64> = Vec::new();
        if let Some(m) = self.last_main {
            with_marker.push(m);
        }
        assert(with_marker@ =~= opt_to_seq(self.last_main));
        let mut i: usize = 0;
        while i < added_main.len()
            invariant
                0 <= i <= added_main@.len(),
                with_marker@ == opt_to_seq(self.last_main) + added_main@.take(i as int),
                self == old(self),
            decreases added_main@.len() - i,
        {
            with_marker.push(added_main[i]);
            proof {
                assert(opt_to_seq(self.last_main) + added_main@.take(i + 1) =~= (opt_to_seq(
                    self.last_main,
                ) + added_main@.take(i as int)).push(added_main@[i as int]));
            }
            i = i + 1;
        }
        assert(added_main@.take(added_main@.len() as int) =~= added_main@);
        assert(with_marker@ == initial);

        let mut k: usize = 0;
        assert(remove_each(initial, removed_main@.take(0)) == initial) by {
            assert(removed_main@.take(0) =~= Seq::<u64>::empty());
        }
        while k < removed_main.len()
            invariant
                0 <= k <= removed_main@.len(),
                with_marker@ == remove_each(initial, removed_main@.take(k as int)),
                self == old(self),
            decreases removed_main@.len() - k,
        {
            let x = removed_main[k];
            proof {
                assert(removed_main@.take(k + 1) =~= removed_main@.take(k as int).push(x));
                lemma_remove_each_push(initial, removed_main@.take(k as int), x);
            }
            match position_of(&with_marker, x) {
                Some(j) => {
                    with_marker.remove(j);
                },
                None => {},
            }
            k = k + 1;
        }
        assert(removed_main@.take(removed_main@.len() as int) =~= removed_main@);
        assert(with_marker@ == resolve_markers(old(self).last_main, added_main@, removed_main@));

        if with_marker.len() >= 2 {
            return Err(TrackingError::MultipleMainCameras);
        }
        if with_marker.len() == 1 {
            let m = with_marker[0];
            self.last_main = Some(m);
            self.screen_res = match lookup_camera(&self.cameras, m) {
                Some(ci) => match self.cameras[ci].screen {
                    Some(p) => p,
                    None => MousePos { x: 0, y: 0 },
                },
                None => MousePos { x: 0, y: 0 },
            };
            self.world_res = match lookup_camera(&self.cameras, m) {
                Some(ci) => match self.cameras[ci].world {
                    Some(p) => p,
                    None => MousePosWorld { x: 0, y: 0, z: 0 },
                },
                None => MousePosWorld { x: 0, y: 0, z: 0 },
            };
        } else {
            if self.last_main.is_some() {
                self.last_main = None;
                self.screen_res = MousePos { x: 0, y: 0 };
                self.world_res = MousePosWorld { x: 0, y: 0, z: 0 };
            }
        }
        Ok(())
    }
}

/// Over a frame's notifications, a screen-tracked camera bound to a window
/// ends the frame with the position of the last notification for that
/// window in arrival order: the notification at `j`, which no later
/// notification for the same window follows.
pub proof fn lemma_screen_step_last_event(
    cams: Seq<CameraEntity>,
    events: Seq<CursorMoved>,
    i: int,
    j: int,
)
    requires
        0 <= i < cams.len(),
        cams[i].screen is Some,
        target_window(cams[i].target) is Some,
        0 <= j < events.len(),
        events[j].window == target_window(cams[i].target).unwrap(),
        forall|k: int|
            j < k < events.len() ==> events[k].window != target_window(cams[i].target).unwrap(),
    ensures
        screen_step(cams, events)[i].screen == Some(events[j].pos),
        screen_step(cams, events)[i].screen_changed,
{
    lemma_last_cursor_is_last(events, target_window(cams[i].target).unwrap(), j);
}

/// A camera bound to a window that none of a frame's notifications target
/// is unaffected by the screen-position update, as is a camera that
/// renders to an image.
pub proof fn lemma_screen_step_unaffected(cams: Seq<CameraEntity>, events: Seq<CursorMoved>, i: int)
    requires
        0 <= i < cams.len(),
        forall|k: int|
            0 <= k < events.len() ==> target_window(cams[i].target) != Some(events[k].window),
    ensures
        screen_step(cams, events)[i] == cams[i],
{
    if target_window(cams[i].target) is Some {
        let w = target_window(cams[i].target).unwrap();
        lemma_last_cursor_none(events, w);
        assert(forall|k: int| 0 <= k < events.len() ==> events[k].window != w);
    }
}

/// A camera marked excluded that carries no tracking components receives
/// none from a whole frame update, whatever the frame's notifications and
/// windows; the property is preserved frame over frame, so it holds for
/// any number of frames.
pub proof fn lemma_excluded_never_tracked(
    cams: Seq<CameraEntity>,
    ws: Seq<WindowInfo>,
    events: Seq<CursorMoved>,
    i: int,
)
    requires
        0 <= i < cams.len(),
        cams[i].excluded is Some,
        cams[i].screen is None,
        cams[i].world is None,
    ensures
        ({
            let after = clear_step(world_step(screen_step(hk_step(cams, ws), events)));
            &&& after[i].excluded is Some
            &&& after[i].screen is None
            &&& after[i].world is None
        }),
{
    assert(hk_step(cams, ws)[i] == cams[i]);
    assert(screen_step(hk_step(cams, ws), events)[i] == cams[i]);
    assert(world_step(screen_step(hk_step(cams, ws), events))[i] == cams[i]);
}

/// World tracking depends on screen tracking: housekeeping seeds the
/// screen component before it computes the world component, so every
/// camera it touches ends the step screen-tracked, whether or not it was
/// before.
pub proof fn lemma_world_tracking_implies_screen(
    cams: Seq<CameraEntity>,
    ws: Seq<WindowInfo>,
    i: int,
)
    requires
        0 <= i < cams.len(),
        hk_applies(cams[i], ws),
    ensures
        hk_step(cams, ws)[i].screen is Some,
{
}

/// Losing the last main-camera marker resets the global lookup slots to
/// zero on that frame: whatever the slots held, the resolution leaves no
/// main camera and zeroed slots.
pub proof fn lemma_main_removed_resets(
    e: u64,
    added: Seq<u64>,
    removed: Seq<u64>,
    cams: Seq<CameraEntity>,
    sr: MousePos,
    wr: MousePosWorld,
)
    requires
        resolve_markers(Some(e), added, removed).len() == 0,
    ensures
        resources_step(Some(e), added, removed, cams, sr, wr) == Ok::<
            (Option<u64>, MousePos, MousePosWorld),
            TrackingError,
        >((None, zero_screen(), zero_world())),
{
}

/// With no main camera resolved and none appearing, the main-camera
/// resolution leaves the global lookup slots exactly as they are: the
/// reset of the transition frame does not repeat on later frames.
pub proof fn lemma_no_main_keeps_slots(
    added: Seq<u64>,
    removed: Seq<u64>,
    cams: Seq<CameraEntity>,
    sr: MousePos,
    wr: MousePosWorld,
)
    requires
        resolve_markers(None, added, removed).len() == 0,
    ensures
        resources_step(None, added, removed, cams, sr, wr) == Ok::<
            (Option<u64>, MousePos, MousePosWorld),
            TrackingError,
        >((None, sr, wr)),
{
}

impl MousePosPlugin {
    /// One whole frame of tracking, in the strict order the update rules
    /// depend on: housekeeping, then the screen-position update from this
    /// frame's notifications, then the world-position update, then the
    /// main-camera resolution and global mirror, and finally the clearing
    /// of the change-detection flags.  The first fatal usage error stops
    /// the frame and is returned, with the earlier steps' work in place
    /// and the later steps' untouched.
    pub fn frame(
        &mut self,
        windows: &Vec<WindowInfo>,
        events: &Vec<CursorMoved>,
        added_main: &Vec<u64>,
        removed_main: &Vec<u64>,
    ) -> (r: Result<(), TrackingError>)
        requires
            frame_fits(old(self).cameras@, windows@, events@),
        ensures
            ({
                let cams0 = old(self).cameras@;
                let slots_kept = final(self).screen_res == old(self).screen_res
                    && final(self).world_res == old(self).world_res
                    && final(self).last_main == old(self).last_main;
                match hk_fault(cams0, windows@) {
                    Some(i) => r == Err::<(), TrackingError>(fault_error(cams0[i]))
                        && final(self).cameras@ == cams0 && slots_kept,
                    None => {
                        let cams2 = screen_step(hk_step(cams0, windows@), events@);
                        match world_fault(cams2) {
                            Some(i) => r == Err::<(), TrackingError>(fault_error(cams2[i]))
                                && final(self).cameras@ == cams2 && slots_kept,
                            None => {
                                let cams3 = world_step(cams2);
                                match resources_step(
                                    old(self).last_main,
                                    added_main@,
                                    removed_main@,
                                    cams3,
                                    old(self).screen_res,
                                    old(self).world_res,
                                ) {
                                    Err(e) => r == Err::<(), TrackingError>(e)
                                        && final(self).cameras@ == cams3 && slots_kept,
                                    Ok(t) => r is Ok && final(self).cameras@ == clear_step(cams3)
                                        && final(self).last_main == t.0 && final(self).screen_res
                                        == t.1 && final(self).world_res == t.2,
                                }
                            },
                        }
                    },
                }
            }),
    {
        match self.attach_tracking(windows) {
            Ok(()) => {},
            Err(e) => {
                return Err(e);
            },
        }
        self.update_pos(events);
        match self.update_pos_ortho() {
            Ok(()) => {},
            Err(e) => {
                return Err(e);
            },
        }
        match self.update_resources(added_main, removed_main) {
            Ok(()) => {},
            Err(e) => {
                return Err(e);
            },
        }
        let ghost cams3 = self.cameras@;
        let ghost sr = self.screen_res;
        let ghost wr = self.world_res;
        let ghost lm = self.last_main;
        let n = self.cameras.len();
        let mut i: usize = 0;
        while i < n
            invariant
                0 <= i <= n,
                n == self.cameras@.len(),
                cams3.len() == n,
                forall|k: int| 0 <= k < i ==> self.cameras@[k] == clear_cam(cams3[k]),
                forall|k: int| i <= k < n ==> self.cameras@[k] == cams3[k],
                self.screen_res == sr,
                self.world_res == wr,
                self.last_main == lm,
            decreases n - i,
        {
            let mut c = self.cameras[i];
            c.screen_changed = false;
            c.transform_changed = false;
            self.cameras[i] = c;
            i = i + 1;
        }
        assert(self.cameras@ =~= clear_step(cams3));
        Ok(())
    }
}

/// A one-shot action that attaches the screen-position component to a
/// camera at spawn time, seeded with the window's current true cursor
/// position, so the value is correct immediately instead of defaulting to
/// zero until the next frame's housekeeping.
pub struct InitMouseTracking;

impl InitMouseTracking {
    /// Attaches the screen component to `entity`, seeded per
    /// [`init_mouse_spec`].  Invoking it on an entity that is not a
    /// tracked camera, on a camera that renders to an image, or on a
    /// camera whose window is not in the registry is a fatal usage error;
    /// nothing is changed then.
    pub fn write(self, plugin: &mut MousePosPlugin, entity: u64, windows: &Vec<WindowInfo>) -> (r:
        Result<(), TrackingError>)
        ensures
            match init_mouse_spec(old(plugin).cameras@, windows@, entity) {
                Ok(t) => r is Ok && final(plugin).cameras@ == old(plugin).cameras@.update(
                    t.0,
                    seed_screen(old(plugin).cameras@[t.0], t.1),
                ),
                Err(e) => r == Err::<(), TrackingError>(e) && final(plugin).cameras@ == old(
                    plugin,
                ).cameras@,
            },
            final(plugin).screen_res == old(plugin).screen_res,
            final(plugin).world_res == old(plugin).world_res,
            final(plugin).last_main == old(plugin).last_main,
    {
        let ci = match lookup_camera(&plugin.cameras, entity) {
            Some(i) => i,
            None => {
                return Err(TrackingError::NotACamera(entity));
            },
        };
        let c = plugin.cameras[ci];
        let w = match c.target {
            RenderTarget::Window(w) => w,
            RenderTarget::Image => {
                return Err(TrackingError::RendersToImage(entity));
            },
        };
        let win = match lookup_window(windows, w) {
            Some(win) => win,
            None => {
                return Err(TrackingError::WindowNotFound(w));
            },
        };
        let p = match win.cursor {
            Some(p) => p,
            None => MousePos { x: 0, y: 0 },
        };
        let mut c2 = c;
        c2.screen = Some(p);
        c2.screen_changed = true;
        plugin.cameras[ci] = c2;
        Ok(())
    }
}

/// A one-shot action that attaches both tracking components to a camera at
/// spawn time: the screen position as [`InitMouseTracking`] seeds it, and
/// the world position computed from it through the same pure conversion
/// the per-frame update uses.
pub struct InitWorldTracking;

impl InitWorldTracking {
    /// Attaches both tracking components to `entity` per
    /// [`init_world_spec`].  The screen half runs first, exactly as
    /// [`InitMouseTracking::write`] does; a camera that then turns out to
    /// lack its transform or its orthographic projection is a fatal usage
    /// error, reported with the screen component already attached.
    pub fn write(self, plugin: &mut MousePosPlugin, entity: u64, windows: &Vec<WindowInfo>) -> (r:
        Result<(), TrackingError>)
        requires
            init_world_fits(old(plugin).cameras@, windows@, entity),
        ensures
            match init_world_spec(old(plugin).cameras@, windows@, entity) {
                Ok(t) => r is Ok && final(plugin).cameras@ == old(plugin).cameras@.update(
                    t.0,
                    seed_world(seed_screen(old(plugin).cameras@[t.0], t.1), t.2),
                ),
                Err(e) => r == Err::<(), TrackingError>(e) && final(plugin).cameras@ == (
                match init_mouse_spec(old(plugin).cameras@, windows@, entity) {
                    Ok(t) => old(plugin).cameras@.update(
                        t.0,
                        seed_screen(old(plugin).cameras@[t.0], t.1),
                    ),
                    Err(_) => old(plugin).cameras@,
                }),
            },
            final(plugin).screen_res == old(plugin).screen_res,
            final(plugin).world_res == old(plugin).world_res,
            final(plugin).last_main == old(plugin).last_main,
    {
        let ci = match lookup_camera(&plugin.cameras, entity) {
            Some(i) => i,
            None => {
                return Err(TrackingError::NotACamera(entity));
            },
        };
        let c = plugin.cameras[ci];
        let w = match c.target {
            RenderTarget::Window(w) => w,
            RenderTarget::Image => {
                return Err(TrackingError::RendersToImage(entity));
            },
        };
        let win = match lookup_window(windows, w) {
            Some(win) => win,
            None => {
                return Err(TrackingError::WindowNotFound(w));
            },
        };
        let p = match win.cursor {
            Some(p) => p,
            None => MousePos { x: 0, y: 0 },
        };
        let mut c2 = c;
        c2.screen = Some(p);
        c2.screen_changed = true;
        if c.transform.is_none() {
            plugin.cameras[ci] = c2;
            return Err(TrackingError::MissingTransform(entity));
        }
        if c.projection.is_none() {
            plugin.cameras[ci] = c2;
            return Err(TrackingError::MissingProjection(entity));
        }
        let tf = c.transform.unwrap();
        let proj = c.projection.unwrap();
        let wp = compute_world_pos_ortho(p, &tf, &proj);
        c2.world = Some(wp);
        plugin.cameras[ci] = c2;
        Ok(())
    }
}

} // verus!
