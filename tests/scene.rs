use arena_scene::cache::{CacheError, Model, ResourceCache};
use arena_scene::component::{Camera, Component, ComponentKind, Light, Mesh, ResourceHandle, Transform};
use arena_scene::math::{add_clamped, Vec3, UNIT};
use arena_scene::pipeline::{move_transform, FramePipeline, InputSnapshot, RenderCommand, TickError, TICK_STEP};
use arena_scene::scene::{Access, EntityId, MaskError, QueryMask, Scene, SceneError};

fn transform_at(x: i64, y: i64, z: i64) -> Transform {
    Transform {
        translation: Vec3::new(x, y, z),
        rotation: Vec3::new(0, 0, 0),
        scale: Vec3::new(UNIT, UNIT, UNIT),
    }
}

fn camera() -> Camera {
    Camera { width: 1280, height: 1280, fov_degrees: 30, near: 1000, far: 100000 }
}

fn mask(entries: Vec<(ComponentKind, Access)>) -> QueryMask {
    QueryMask::new(entries).unwrap()
}

fn resident_model(cache: &mut ResourceCache, name: &str) -> ResourceHandle {
    let h = cache.include_model(Model { source: name.to_string(), data: vec![1, 2, 3] });
    cache.load(h).unwrap();
    h
}

fn add_camera(scene: &mut Scene, free_range: bool) -> EntityId {
    let e = scene.create_entity("Camera A");
    let mut cs = vec![Component::Camera(camera()), Component::Transform(transform_at(0, 0, -5000))];
    if free_range {
        cs.push(Component::FreeRange);
    }
    scene.add_components(e, cs).unwrap();
    e
}

#[test]
fn single_mesh_draws_once_with_its_transform() {
    let mut scene = Scene::new();
    let mut cache = ResourceCache::new();
    let h = resident_model(&mut cache, "models/level/main.gltf");
    add_camera(&mut scene, true);
    let e1 = scene.create_entity("E1");
    scene.add_components(e1, vec![Component::Transform(transform_at(0, 0, 0))]).unwrap();
    scene.add_components(e1, vec![Component::Mesh(Mesh { handle: h })]).unwrap();
    let mut pipeline = FramePipeline::new();
    let report = pipeline.run_tick(&mut scene, &cache, &InputSnapshot::idle());
    assert_eq!(report.error, None);
    let draws: Vec<&RenderCommand> = report.commands.iter().filter(|c| matches!(c, RenderCommand::Draw { .. })).collect();
    assert_eq!(draws.len(), 1);
    assert_eq!(*draws[0], RenderCommand::Draw { handle: h, transform: transform_at(0, 0, 0) });
    assert_eq!(report.commands[0], RenderCommand::BeginFrame);
    assert_eq!(*report.commands.last().unwrap(), RenderCommand::Flush);
}

#[test]
fn shared_mesh_draws_twice_with_distinct_transforms() {
    let mut scene = Scene::new();
    let mut cache = ResourceCache::new();
    let h = resident_model(&mut cache, "models/fairy-female/main.gltf");
    add_camera(&mut scene, false);
    let a = scene.create_entity("A");
    scene.add_components(a, vec![Component::Mesh(Mesh { handle: h }), Component::Transform(transform_at(0, 0, 0))]).unwrap();
    let b = scene.create_entity("B");
    scene.add_components(b, vec![Component::Mesh(Mesh { handle: h }), Component::Transform(transform_at(UNIT, 0, 0))]).unwrap();
    let mut pipeline = FramePipeline::new();
    let report = pipeline.run_tick(&mut scene, &cache, &InputSnapshot::idle());
    let draws: Vec<(ResourceHandle, Transform)> = report
        .commands
        .iter()
        .filter_map(|c| match c {
            RenderCommand::Draw { handle, transform } => Some((*handle, *transform)),
            _ => None,
        })
        .collect();
    assert_eq!(draws.len(), 2);
    assert_eq!(draws[0].0, h);
    assert_eq!(draws[1].0, h);
    assert_ne!(draws[0].1, draws[1].1);
}

#[test]
fn no_camera_skips_drawing_without_failing() {
    let mut scene = Scene::new();
    let mut cache = ResourceCache::new();
    let h = resident_model(&mut cache, "m");
    let e = scene.create_entity("E");
    scene.add_components(e, vec![Component::Mesh(Mesh { handle: h }), Component::Transform(transform_at(0, 0, 0))]).unwrap();
    let mut pipeline = FramePipeline::new();
    let report = pipeline.run_tick(&mut scene, &cache, &InputSnapshot::idle());
    assert_eq!(report.error, Some(TickError::MissingActiveCamera));
    assert_eq!(report.commands, vec![RenderCommand::BeginFrame, RenderCommand::Flush]);
    assert_eq!(pipeline.frame(), TICK_STEP);
}

#[test]
fn two_cameras_are_ambiguous() {
    let mut scene = Scene::new();
    let cache = ResourceCache::new();
    add_camera(&mut scene, false);
    add_camera(&mut scene, false);
    let mut pipeline = FramePipeline::new();
    let report = pipeline.run_tick(&mut scene, &cache, &InputSnapshot::idle());
    assert_eq!(report.error, Some(TickError::AmbiguousActiveCamera));
    assert_eq!(report.commands, vec![RenderCommand::BeginFrame, RenderCommand::Flush]);
}

#[test]
fn read_and_write_of_one_kind_is_rejected() {
    let r = QueryMask::new(vec![(ComponentKind::Transform, Access::Read), (ComponentKind::Transform, Access::Write)]);
    assert_eq!(r.err(), Some(MaskError::ConflictingAccess(ComponentKind::Transform)));
}

#[test]
fn repeated_kind_and_empty_mask_are_rejected() {
    let r = QueryMask::new(vec![(ComponentKind::Mesh, Access::Read), (ComponentKind::Camera, Access::Read), (ComponentKind::Mesh, Access::Read)]);
    assert_eq!(r.err(), Some(MaskError::DuplicateType(ComponentKind::Mesh)));
    assert_eq!(QueryMask::new(vec![]).err(), Some(MaskError::Empty));
}

#[test]
fn attached_entity_is_queried_exactly_once() {
    let mut scene = Scene::new();
    let e = scene.create_entity("E");
    scene.add_components(e, vec![Component::Transform(transform_at(1, 2, 3))]).unwrap();
    scene.add_components(e, vec![Component::Light(Light::Point { radiance: Vec3::new(0, 0, UNIT) })]).unwrap();
    let r = scene.query(&mask(vec![(ComponentKind::Light, Access::Read), (ComponentKind::Transform, Access::Write)]));
    assert_eq!(r, vec![e]);
    let none = scene.query(&mask(vec![(ComponentKind::Mesh, Access::Read)]));
    assert!(none.is_empty());
}

#[test]
fn removed_entity_never_returns() {
    let mut scene = Scene::new();
    let a = scene.create_entity("A");
    scene.add_components(a, vec![Component::FreeRange]).unwrap();
    scene.remove_entity(a).unwrap();
    let b = scene.create_entity("B");
    scene.add_components(b, vec![Component::FreeRange]).unwrap();
    assert_ne!(a, b);
    assert_eq!(scene.query(&mask(vec![(ComponentKind::FreeRange, Access::Read)])), vec![b]);
    assert_eq!(scene.get(a, ComponentKind::FreeRange), None);
    assert_eq!(scene.remove_entity(a), Err(SceneError::UnknownEntity));
    assert_eq!(scene.add_components(a, vec![Component::FreeRange]), Err(SceneError::UnknownEntity));
}

#[test]
fn duplicate_component_is_rejected_and_changes_nothing() {
    let mut scene = Scene::new();
    let e = scene.create_entity("E");
    scene.add_components(e, vec![Component::Transform(transform_at(1, 1, 1))]).unwrap();
    let r = scene.add_components(e, vec![Component::FreeRange, Component::Transform(transform_at(2, 2, 2))]);
    assert_eq!(r, Err(SceneError::DuplicateComponent));
    assert_eq!(scene.get(e, ComponentKind::FreeRange), None);
    let twice = scene.add_components(e, vec![Component::FreeRange, Component::FreeRange]);
    assert_eq!(twice, Err(SceneError::DuplicateComponent));
    assert_eq!(scene.get(e, ComponentKind::Transform), Some(Component::Transform(transform_at(1, 1, 1))));
}

#[test]
fn writes_are_seen_later_and_persist_across_ticks() {
    let mut scene = Scene::new();
    let cache = ResourceCache::new();
    let e = scene.create_entity("E");
    scene.add_components(e, vec![Component::Transform(transform_at(0, 0, 0))]).unwrap();
    let prev = scene.set_component(e, Component::Transform(transform_at(5, 6, 7))).unwrap();
    assert_eq!(prev, Component::Transform(transform_at(0, 0, 0)));
    assert_eq!(scene.get(e, ComponentKind::Transform), Some(Component::Transform(transform_at(5, 6, 7))));
    let mut pipeline = FramePipeline::new();
    pipeline.run_tick(&mut scene, &cache, &InputSnapshot::idle());
    pipeline.run_tick(&mut scene, &cache, &InputSnapshot::idle());
    assert_eq!(scene.get(e, ComponentKind::Transform), Some(Component::Transform(transform_at(5, 6, 7))));
    assert_eq!(scene.set_component(e, Component::FreeRange), Err(SceneError::MissingComponent));
}

#[test]
fn input_moves_only_the_steered_camera() {
    let mut scene = Scene::new();
    let cache = ResourceCache::new();
    let cam = add_camera(&mut scene, true);
    let input = InputSnapshot { up: true, down: false, left: true, right: false, mouse_wheel: 3, delta_x: 50, delta_y: -20 };
    let mut pipeline = FramePipeline::new();
    let report = pipeline.run_tick(&mut scene, &cache, &input);
    let expected = Transform {
        translation: Vec3::new(-100, 0, -5000 + 100 + 30),
        rotation: Vec3::new(50, -20, 0),
        scale: Vec3::new(UNIT, UNIT, UNIT),
    };
    assert_eq!(scene.get(cam, ComponentKind::Transform), Some(Component::Transform(expected)));
    assert_eq!(report.commands[1], RenderCommand::SetCamera { transform: expected, camera: camera() });
    match report.commands[2] {
        RenderCommand::SetEnvironment { intensity, phase, .. } => {
            assert_eq!(intensity, 15000);
            assert_eq!(phase, 0);
        }
        _ => panic!("environment expected after the camera"),
    }
}

#[test]
fn move_transform_clamps_at_the_bounds() {
    let t = transform_at(i64::MIN, 0, i64::MAX);
    let input = InputSnapshot { up: true, down: false, left: true, right: false, mouse_wheel: i64::MAX, delta_x: 0, delta_y: 0 };
    let m = move_transform(t, &input);
    assert_eq!(m.translation.x, i64::MIN);
    assert_eq!(m.translation.z, i64::MAX);
    assert_eq!(add_clamped(i64::MAX, 1), i64::MAX);
    assert_eq!(add_clamped(-3, 5), 2);
}

#[test]
fn cache_issues_fresh_handles_and_loads_idempotently() {
    let mut cache = ResourceCache::new();
    let a = cache.include_model(Model { source: "m".to_string(), data: vec![7] });
    let b = cache.include_model(Model { source: "m".to_string(), data: vec![7] });
    assert_ne!(a, b);
    assert!(!cache.is_resident(a));
    cache.load(a).unwrap();
    cache.load(a).unwrap();
    assert!(cache.is_resident(a));
    assert!(!cache.is_resident(b));
    assert_eq!(cache.load(ResourceHandle { id: 9 }), Err(CacheError::UnknownHandle));
    assert_eq!(cache.len(), 2);
}

#[test]
fn unresident_mesh_is_not_drawn() {
    let mut scene = Scene::new();
    let mut cache = ResourceCache::new();
    let h = cache.include_model(Model { source: "m".to_string(), data: vec![] });
    add_camera(&mut scene, false);
    let e = scene.create_entity("E");
    scene.add_components(e, vec![Component::Mesh(Mesh { handle: h }), Component::Transform(transform_at(0, 0, 0))]).unwrap();
    let mut pipeline = FramePipeline::new();
    let report = pipeline.run_tick(&mut scene, &cache, &InputSnapshot::idle());
    assert_eq!(report.commands.len(), 4);
    assert_eq!(report.error, None);
}

fn nudge(c: Component) -> Component {
    match c {
        Component::Transform(t) => Component::Transform(Transform {
            translation: Vec3::new(t.translation.x + 1, t.translation.y, t.translation.z),
            ..t
        }),
        other => other,
    }
}

#[test]
fn query_mut_rewrites_only_written_members_of_matches() {
    let mut scene = Scene::new();
    let mut cache = ResourceCache::new();
    let h = resident_model(&mut cache, "m");
    let a = scene.create_entity("A");
    scene.add_components(a, vec![Component::Mesh(Mesh { handle: h }), Component::Transform(transform_at(0, 0, 0))]).unwrap();
    let b = scene.create_entity("B");
    scene.add_components(b, vec![Component::Transform(transform_at(9, 9, 9))]).unwrap();
    let m = mask(vec![(ComponentKind::Transform, Access::Write), (ComponentKind::Mesh, Access::Read)]);
    let visited = scene.query_mut(&m, nudge);
    assert_eq!(visited, vec![a]);
    assert_eq!(scene.get(a, ComponentKind::Transform), Some(Component::Transform(transform_at(1, 0, 0))));
    assert_eq!(scene.get(a, ComponentKind::Mesh), Some(Component::Mesh(Mesh { handle: h })));
    assert_eq!(scene.get(b, ComponentKind::Transform), Some(Component::Transform(transform_at(9, 9, 9))));
    assert_eq!(scene.query(&m), vec![a]);
    let mut pipeline = FramePipeline::new();
    let cam = add_camera(&mut scene, false);
    let report = pipeline.run_tick(&mut scene, &cache, &InputSnapshot::idle());
    assert!(report.commands.contains(&RenderCommand::Draw { handle: h, transform: transform_at(1, 0, 0) }));
    assert!(scene.is_live(cam));
}

#[test]
fn query_mut_with_read_only_mask_changes_nothing() {
    let mut scene = Scene::new();
    let a = scene.create_entity("A");
    scene.add_components(a, vec![Component::Transform(transform_at(4, 5, 6))]).unwrap();
    let m = mask(vec![(ComponentKind::Transform, Access::Read)]);
    assert_eq!(scene.query_mut(&m, nudge), vec![a]);
    assert_eq!(scene.get(a, ComponentKind::Transform), Some(Component::Transform(transform_at(4, 5, 6))));
    assert_eq!(scene.len(), 1);
    assert_eq!(scene.label(a), Some(&"A".to_string()));
}
