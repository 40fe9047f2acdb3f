use vstd::prelude::*;

use crate::cache::{is_resident_in, ResourceCache};
use crate::component::{Camera, Component, ComponentKind, ResourceHandle, Slot, Transform};
use crate::math::{add_clamped, clamp, Vec3, UNIT};
use crate::scene::{distinct_kinds, lemma_query_upto, rewritten, slot_matches, writes, Access, QueryMask, Scene, SceneView};

verus! {

/// Translation applied per tick while a direction key is held (0.01 units).
pub const MOVE_STEP: i64 = 100;

/// Translation along the view axis per wheel notch (0.001 units).
pub const WHEEL_STEP: i64 = 10;

/// Advance of the time accumulator per tick (0.0025).
pub const TICK_STEP: u64 = 25;

/// Scalar intensity of the environment light (1.5).
pub const LIGHT_INTENSITY: i64 = 15000;

/// Channel value of the ambient base color (0.03).
pub const BASE_LEVEL: i64 = 300;

/// The input of one tick: direction keys, wheel notches, and pointer deltas
/// in fixed-point half-turns.
#[derive(Clone, Copy, Debug, PartialEq, Eq, Structural)]
pub struct InputSnapshot {
    pub up: bool,
    pub down: bool,
    pub left: bool,
    pub right: bool,
    pub mouse_wheel: i64,
    pub delta_x: i64,
    pub delta_y: i64,
}

impl InputSnapshot {
    /// No key held and no motion.
    pub fn idle() -> (r: InputSnapshot)
        ensures
            !r.up && !r.down && !r.left && !r.right,
            r.mouse_wheel == 0 && r.delta_x == 0 && r.delta_y == 0,
    {
        InputSnapshot { up: false, down: false, left: false, right: false, mouse_wheel: 0, delta_x: 0, delta_y: 0 }
    }
}

/// One call into the render backend.
#[derive(Clone, Copy, Debug, PartialEq, Eq, Structural)]
pub enum RenderCommand {
    BeginFrame,
    /// The active camera: its transform and projection. The backend derives
    /// the view by looking one unit forward from the translation.
    SetCamera { transform: Transform, camera: Camera },
    /// Lighting of the tick. The light direction is
    /// (sin(phase), -0.75, cos(phase)), with `phase` in fixed-point radians.
    SetEnvironment { intensity: i64, phase: u64, light_color: Vec3, base_color: Vec3 },
    Draw { handle: ResourceHandle, transform: Transform },
    Flush,
}

/// Why a tick produced no picture.
#[derive(Clone, Copy, Debug, PartialEq, Eq, Structural)]
pub enum TickError {
    MissingActiveCamera,
    AmbiguousActiveCamera,
}

/// What one tick handed to the render backend, in order, and how the camera
/// was resolved.
pub struct TickReport {
    pub commands: Vec<RenderCommand>,
    pub error: Option<TickError>,
}

/// A transform moved by one tick of input.
pub open spec fn moved(t: Transform, i: InputSnapshot) -> Transform {
    let dz: int = if i.up { MOVE_STEP as int } else if i.down { -MOVE_STEP } else { 0 };
    let dx: int = if i.right { MOVE_STEP as int } else if i.left { -MOVE_STEP } else { 0 };
    let z1 = clamp(t.translation.z + dz);
    let x1 = clamp(t.translation.x + dx);
    let z2 = clamp(z1 + clamp(i.mouse_wheel * WHEEL_STEP));
    Transform {
        translation: Vec3 { x: x1, y: t.translation.y, z: z2 },
        rotation: Vec3 {
            x: clamp(t.rotation.x + i.delta_x),
            y: clamp(t.rotation.y + i.delta_y),
            z: t.rotation.z,
        },
        scale: t.scale,
    }
}

/// Whether a row is steered by input: live, with a transform, a camera and
/// the free-range marker.
pub open spec fn steered(s: Slot) -> bool {
    s.alive && s.transform is Some && s.camera is Some && s.free_range
}

pub open spec fn steer_slot(s: Slot, i: InputSnapshot) -> Slot {
    if steered(s) {
        Slot { transform: Some(moved(s.transform->Some_0, i)), ..s }
    } else {
        s
    }
}

/// The scene after the input pass.
pub open spec fn input_applied(s: SceneView, i: InputSnapshot) -> SceneView {
    SceneView { slots: s.slots.map_values(|sl: Slot| steer_slot(sl, i)) }
}

/// The mask of the camera pass: a written transform and a read camera.
pub open spec fn camera_mask() -> Seq<(ComponentKind, Access)> {
    seq![(ComponentKind::Transform, Access::Write), (ComponentKind::Camera, Access::Read)]
}

/// Draw commands of the first `n` rows: one per live row holding a transform
/// and a mesh whose model is resident, in row order.
pub open spec fn draws_upto(s: SceneView, c: Seq<bool>, n: int) -> Seq<RenderCommand>
    decreases n,
{
    if n <= 0 {
        Seq::empty()
    } else {
        let prev = draws_upto(s, c, n - 1);
        let sl = s.slots[n - 1];
        if sl.alive && sl.transform is Some && sl.mesh is Some && is_resident_in(c, sl.mesh->Some_0.handle) {
            prev.push(RenderCommand::Draw { handle: sl.mesh->Some_0.handle, transform: sl.transform->Some_0 })
        } else {
            prev
        }
    }
}

pub open spec fn draws(s: SceneView, c: Seq<bool>) -> Seq<RenderCommand> {
    draws_upto(s, c, s.slots.len() as int)
}

pub open spec fn environment(phase: u64) -> RenderCommand {
    RenderCommand::SetEnvironment {
        intensity: LIGHT_INTENSITY,
        phase,
        light_color: Vec3 { x: UNIT, y: UNIT, z: UNIT },
        base_color: Vec3 { x: BASE_LEVEL, y: BASE_LEVEL, z: BASE_LEVEL },
    }
}

/// How the camera pass resolves on a scene (after input).
pub open spec fn tick_error(s: SceneView) -> Option<TickError> {
    let cams = s.query(camera_mask());
    if cams.len() == 0 {
        Some(TickError::MissingActiveCamera)
    } else if cams.len() > 1 {
        Some(TickError::AmbiguousActiveCamera)
    } else {
        None
    }
}

/// The commands of one tick on a scene (after input). With exactly one
/// camera: begin, camera, environment, the draws, flush. Otherwise the
/// camera, environment and draw passes are skipped.
pub open spec fn tick_commands(s: SceneView, c: Seq<bool>, phase: u64) -> Seq<RenderCommand> {
    let cams = s.query(camera_mask());
    if cams.len() == 1 {
        let sl = s.slots[cams[0].index as int];
        seq![
            RenderCommand::BeginFrame,
            RenderCommand::SetCamera { transform: sl.transform->Some_0, camera: sl.camera->Some_0 },
            environment(phase),
        ] + draws(s, c) + seq![RenderCommand::Flush]
    } else {
        seq![RenderCommand::BeginFrame, RenderCommand::Flush]
    }
}

/// The time accumulator after one tick.
pub open spec fn advanced(frame: u64) -> u64 {
    if frame as int + TICK_STEP as int > u64::MAX as int {
        u64::MAX
    } else {
        (frame + TICK_STEP) as u64
    }
}

/// A transform moved by one tick of input (see `moved`).
pub fn move_transform(t: Transform, i: &InputSnapshot) -> (r: Transform)
    ensures
        r == moved(t, *i),
{
    let dz: i64 = if i.up { MOVE_STEP } else if i.down { -MOVE_STEP } else { 0 };
    let dx: i64 = if i.right { MOVE_STEP } else if i.left { -MOVE_STEP } else { 0 };
    let z1 = add_clamped(t.translation.z, dz);
    let x1 = add_clamped(t.translation.x, dx);
    let w: i128 = i.mouse_wheel as i128 * WHEEL_STEP as i128;
    let wz: i64 = if w < i64::MIN as i128 {
        i64::MIN
    } else if w > i64::MAX as i128 {
        i64::MAX
    } else {
        w as i64
    };
    let z2 = add_clamped(z1, wz);
    Transform {
        translation: Vec3 { x: x1, y: t.translation.y, z: z2 },
        rotation: Vec3 {
            x: add_clamped(t.rotation.x, i.delta_x),
            y: add_clamped(t.rotation.y, i.delta_y),
            z: t.rotation.z,
        },
        scale: t.scale,
    }
}

/// Owns the frame state and runs the passes of a tick in their fixed order.
pub struct FramePipeline {
    frame: u64,
}

impl View for FramePipeline {
    /// The time accumulator, in fixed-point radians.
    type V = u64;

    closed spec fn view(&self) -> u64 {
        self.frame
    }
}

impl FramePipeline {
    pub fn new() -> (r: FramePipeline)
        ensures
            r@ == 0,
    {
        FramePipeline { frame: 0 }
    }

    /// The time accumulator.
    pub fn frame(&self) -> (r: u64)
        ensures
            r == self@,
    {
        self.frame
    }

    /// Runs one tick: begin, input, camera, environment, draws, flush, and
    /// advance of the time accumulator. Only steered transforms change.
    pub fn run_tick(&mut self, scene: &mut Scene, cache: &ResourceCache, input: &InputSnapshot) -> (r: TickReport)
        requires
            old(scene).wf(),
        ensures
            final(scene).wf(),
            final(scene)@ == input_applied(old(scene)@, *input),
            r.commands@ == tick_commands(final(scene)@, cache@, old(self)@),
            r.error == tick_error(final(scene)@),
            final(self)@ == advanced(old(self)@),
    {
        let mut commands: Vec<RenderCommand> = Vec::new();
        commands.push(RenderCommand::BeginFrame);
        steer(scene, input);
        let mask = camera_query_mask();
        let cams = scene.query(&mask);
        let _rows = scene.len();
        proof {
            lemma_query_upto(scene@, camera_mask(), scene@.slots.len() as int);
        }
        let error = if cams.len() == 1 {
            let sl = scene.slot(cams[0].index);
            proof {
                assert(cams@.contains(cams@[0]));
                assert(sl.holds(camera_mask()[0].0));
                assert(sl.holds(camera_mask()[1].0));
            }
            let transform = sl.transform.unwrap();
            let camera = sl.camera.unwrap();
            commands.push(RenderCommand::SetCamera { transform, camera });
            commands.push(RenderCommand::SetEnvironment {
                intensity: LIGHT_INTENSITY,
                phase: self.frame,
                light_color: Vec3::new(UNIT, UNIT, UNIT),
                base_color: Vec3::new(BASE_LEVEL, BASE_LEVEL, BASE_LEVEL),
            });
            let mut d = submit_draws(scene, cache);
            commands.append(&mut d);
            None
        } else if cams.len() == 0 {
            Some(TickError::MissingActiveCamera)
        } else {
            Some(TickError::AmbiguousActiveCamera)
        };
        commands.push(RenderCommand::Flush);
        self.frame = self.frame.saturating_add(TICK_STEP);
        TickReport { commands, error }
    }
}

/// The checked mask of the camera pass.
fn camera_query_mask() -> (r: QueryMask)
    ensures
        r@ == camera_mask(),
{
    let entries = vec![(ComponentKind::Transform, Access::Write), (ComponentKind::Camera, Access::Read)];
    assert(entries@ =~= camera_mask());
    match QueryMask::new(entries) {
        Ok(m) => m,
        Err(_) => {
            proof {
                assert(crate::scene::distinct_kinds(camera_mask()));
            }
            vstd::pervasive::unreached()
        },
    }
}

/// What the input pass makes of one component: a transform is moved, any
/// other component is kept.
pub open spec fn steer_component(c: Component, i: InputSnapshot) -> Component {
    match c {
        Component::Transform(t) => Component::Transform(moved(t, i)),
        _ => c,
    }
}

/// The mask of the input pass: a written transform, a read camera and the
/// read free-range marker.
pub open spec fn steer_mask() -> Seq<(ComponentKind, Access)> {
    seq![
        (ComponentKind::Transform, Access::Write),
        (ComponentKind::Camera, Access::Read),
        (ComponentKind::FreeRange, Access::Read),
    ]
}

/// Two rows that agree on liveness and on every kind are equal.
proof fn lemma_slot_ext(a: Slot, b: Slot)
    requires
        a.alive == b.alive,
        forall|k: ComponentKind| #[trigger] a.get(k) == b.get(k),
    ensures
        a == b,
{
    assert(a.get(ComponentKind::Transform) == b.get(ComponentKind::Transform));
    assert(a.get(ComponentKind::Mesh) == b.get(ComponentKind::Mesh));
    assert(a.get(ComponentKind::Camera) == b.get(ComponentKind::Camera));
    assert(a.get(ComponentKind::Light) == b.get(ComponentKind::Light));
    assert(a.get(ComponentKind::FreeRange) == b.get(ComponentKind::FreeRange));
}

/// The input pass: a query over the steering mask that moves each matching
/// transform.
fn steer(scene: &mut Scene, input: &InputSnapshot)
    requires
        old(scene).wf(),
    ensures
        final(scene).wf(),
        final(scene)@ == input_applied(old(scene)@, *input),
{
    let entries = vec![
        (ComponentKind::Transform, Access::Write),
        (ComponentKind::Camera, Access::Read),
        (ComponentKind::FreeRange, Access::Read),
    ];
    assert(entries@ =~= steer_mask());
    let mask = match QueryMask::new(entries) {
        Ok(m) => m,
        Err(_) => {
            proof {
                assert(distinct_kinds(steer_mask()));
            }
            vstd::pervasive::unreached()
        },
    };
    let f = |c: Component| -> (d: Component)
        ensures
            d == steer_component(c, *input),
    {
        match c {
            Component::Transform(t) => Component::Transform(move_transform(t, input)),
            other => other,
        }
    };
    let _visited = scene.query_mut(&mask, f);
    proof {
        let m = steer_mask();
        assert(writes(m, ComponentKind::Transform)) by {
            assert(m[0] == (ComponentKind::Transform, Access::Write));
        }
        assert forall|k: ComponentKind| k != ComponentKind::Transform implies !writes(m, k) by {
            if writes(m, k) {
                let a = choose|a: int| 0 <= a < m.len() && #[trigger] m[a] == (k, Access::Write);
                assert(a == 0);
            }
        }
        let old_s = old(scene)@;
        let new_s = scene@;
        assert forall|i: int| 0 <= i < old_s.slots.len() implies new_s.slots[i] == steer_slot(old_s.slots[i], *input) by {
            let o = old_s.slots[i];
            let target = steer_slot(o, *input);
            assert(slot_matches(o, m) <==> (o.holds(m[0].0) && o.holds(m[1].0) && o.holds(m[2].0)));
            if o.alive && slot_matches(o, m) {
                assert(rewritten(o, new_s.slots[i], m, f));
                assert forall|k: ComponentKind| #[trigger] new_s.slots[i].get(k) == target.get(k) by {
                    if k == ComponentKind::Transform {
                        assert(f.ensures((o.get(k)->Some_0,), new_s.slots[i].get(k)->Some_0));
                    }
                }
                lemma_slot_ext(new_s.slots[i], target);
            }
        }
        assert(scene@.slots =~= input_applied(old(scene)@, *input).slots);
    }
}

/// The draw pass: one command per live row with a transform and a resident
/// mesh.
fn submit_draws(scene: &Scene, cache: &ResourceCache) -> (r: Vec<RenderCommand>)
    ensures
        r@ == draws(scene@, cache@),
{
    let n = scene.len();
    let mut r: Vec<RenderCommand> = Vec::new();
    let mut i: usize = 0;
    while i < n
        invariant
            n == scene@.slots.len(),
            i <= n,
            r@ == draws_upto(scene@, cache@, i as int),
        decreases n - i,
    {
        let sl = scene.slot(i);
        if sl.alive {
            match (sl.transform, sl.mesh) {
                (Some(t), Some(m)) => {
                    if cache.is_resident(m.handle) {
                        r.push(RenderCommand::Draw { handle: m.handle, transform: t });
                    }
                },
                _ => {},
            }
        }
        i = i + 1;
    }
    r
}

} // verus!
