use vstd::prelude::*;

use crate::math::Vec3;

verus! {

/// Identifies a kind of component; an entity holds at most one of each.
#[derive(Clone, Copy, Debug, PartialEq, Eq, Structural)]
pub enum ComponentKind {
    Transform,
    Mesh,
    Camera,
    Light,
    FreeRange,
}

/// Translation, rotation and scale of an entity.
///
/// Coordinates are fixed-point with `UNIT` per world unit; rotations are
/// fixed-point half-turns, `UNIT` standing for pi radians.
#[derive(Clone, Copy, Debug, PartialEq, Eq, Structural)]
pub struct Transform {
    pub translation: Vec3,
    pub rotation: Vec3,
    pub scale: Vec3,
}

/// Opaque handle of a model held by the resource cache.
#[derive(Clone, Copy, Debug, PartialEq, Eq, Structural)]
pub struct ResourceHandle {
    pub id: usize,
}

/// Marks an entity as drawn with the model behind `handle`.
#[derive(Clone, Copy, Debug, PartialEq, Eq, Structural)]
pub struct Mesh {
    pub handle: ResourceHandle,
}

/// Perspective projection parameters of a camera (near and far planes in
/// fixed-point world units).
#[derive(Clone, Copy, Debug, PartialEq, Eq, Structural)]
pub struct Camera {
    pub width: u32,
    pub height: u32,
    pub fov_degrees: u32,
    pub near: i64,
    pub far: i64,
}

/// A light source.
#[derive(Clone, Copy, Debug, PartialEq, Eq, Structural)]
pub enum Light {
    Point { radiance: Vec3 },
}

/// One component value, tagged by its kind.
#[derive(Clone, Copy, Debug, PartialEq, Eq, Structural)]
pub enum Component {
    Transform(Transform),
    Mesh(Mesh),
    Camera(Camera),
    Light(Light),
    FreeRange,
}

impl Component {
    pub open spec fn kind_spec(self) -> ComponentKind {
        match self {
            Component::Transform(_) => ComponentKind::Transform,
            Component::Mesh(_) => ComponentKind::Mesh,
            Component::Camera(_) => ComponentKind::Camera,
            Component::Light(_) => ComponentKind::Light,
            Component::FreeRange => ComponentKind::FreeRange,
        }
    }

    /// The kind of this component.
    pub fn kind(&self) -> (k: ComponentKind)
        ensures
            k == self.kind_spec(),
    {
        match self {
            Component::Transform(_) => ComponentKind::Transform,
            Component::Mesh(_) => ComponentKind::Mesh,
            Component::Camera(_) => ComponentKind::Camera,
            Component::Light(_) => ComponentKind::Light,
            Component::FreeRange => ComponentKind::FreeRange,
        }
    }
}

/// The storage row of one entity: whether it is alive, and one optional
/// component of each kind.
#[derive(Clone, Copy, Debug, PartialEq, Eq, Structural)]
pub struct Slot {
    pub alive: bool,
    pub transform: Option<Transform>,
    pub mesh: Option<Mesh>,
    pub camera: Option<Camera>,
    pub light: Option<Light>,
    pub free_range: bool,
}

impl Slot {
    /// A live row with no components.
    pub open spec fn fresh() -> Slot {
        Slot {
            alive: true,
            transform: None,
            mesh: None,
            camera: None,
            light: None,
            free_range: false,
        }
    }

    /// A dead row with no components.
    pub open spec fn dead() -> Slot {
        Slot { alive: false, ..Slot::fresh() }
    }

    /// The component of kind `k` held by this row.
    pub open spec fn get(self, k: ComponentKind) -> Option<Component> {
        match k {
            ComponentKind::Transform => match self.transform {
                Some(t) => Some(Component::Transform(t)),
                None => None,
            },
            ComponentKind::Mesh => match self.mesh {
                Some(m) => Some(Component::Mesh(m)),
                None => None,
            },
            ComponentKind::Camera => match self.camera {
                Some(c) => Some(Component::Camera(c)),
                None => None,
            },
            ComponentKind::Light => match self.light {
                Some(l) => Some(Component::Light(l)),
                None => None,
            },
            ComponentKind::FreeRange => if self.free_range {
                Some(Component::FreeRange)
            } else {
                None
            },
        }
    }

    pub open spec fn holds(self, k: ComponentKind) -> bool {
        self.get(k).is_some()
    }

    /// This row with `c` stored under its kind.
    pub open spec fn with(self, c: Component) -> Slot {
        match c {
            Component::Transform(t) => Slot { transform: Some(t), ..self },
            Component::Mesh(m) => Slot { mesh: Some(m), ..self },
            Component::Camera(cam) => Slot { camera: Some(cam), ..self },
            Component::Light(l) => Slot { light: Some(l), ..self },
            Component::FreeRange => Slot { free_range: true, ..self },
        }
    }

    /// This row with each of `cs` stored in turn.
    pub open spec fn with_all(self, cs: Seq<Component>) -> Slot
        decreases cs.len(),
    {
        if cs.len() == 0 {
            self
        } else {
            self.with_all(cs.drop_last()).with(cs.last())
        }
    }

    pub fn fresh_exec() -> (r: Slot)
        ensures
            r == Slot::fresh(),
    {
        Slot {
            alive: true,
            transform: None,
            mesh: None,
            camera: None,
            light: None,
            free_range: false,
        }
    }

    pub fn holds_exec(&self, k: ComponentKind) -> (r: bool)
        ensures
            r == self.holds(k),
    {
        match k {
            ComponentKind::Transform => self.transform.is_some(),
            ComponentKind::Mesh => self.mesh.is_some(),
            ComponentKind::Camera => self.camera.is_some(),
            ComponentKind::Light => self.light.is_some(),
            ComponentKind::FreeRange => self.free_range,
        }
    }

    pub fn get_exec(&self, k: ComponentKind) -> (r: Option<Component>)
        ensures
            r == self.get(k),
    {
        match k {
            ComponentKind::Transform => match self.transform {
                Some(t) => Some(Component::Transform(t)),
                None => None,
            },
            ComponentKind::Mesh => match self.mesh {
                Some(m) => Some(Component::Mesh(m)),
                None => None,
            },
            ComponentKind::Camera => match self.camera {
                Some(c) => Some(Component::Camera(c)),
                None => None,
            },
            ComponentKind::Light => match self.light {
                Some(l) => Some(Component::Light(l)),
                None => None,
            },
            ComponentKind::FreeRange => if self.free_range {
                Some(Component::FreeRange)
            } else {
                None
            },
        }
    }

    pub fn with_exec(&self, c: Component) -> (r: Slot)
        ensures
            r == self.with(c),
    {
        match c {
            Component::Transform(t) => Slot { transform: Some(t), ..*self },
            Component::Mesh(m) => Slot { mesh: Some(m), ..*self },
            Component::Camera(cam) => Slot { camera: Some(cam), ..*self },
            Component::Light(l) => Slot { light: Some(l), ..*self },
            Component::FreeRange => Slot { free_range: true, ..*self },
        }
    }
}

/// Storing `c` sets the component of its kind and leaves the others.
pub proof fn lemma_with_get(s: Slot, c: Component, k: ComponentKind)
    ensures
        s.with(c).get(k) == (if k == c.kind_spec() { Some(c) } else { s.get(k) }),
        s.with(c).alive == s.alive,
{
}

/// After storing a sequence, a kind is held iff it was held before or is the
/// kind of one of the stored components.
pub proof fn lemma_with_all_holds(s: Slot, cs: Seq<Component>, k: ComponentKind)
    ensures
        s.with_all(cs).holds(k) <==> (s.holds(k) || exists|i: int|
            0 <= i < cs.len() && #[trigger] cs[i].kind_spec() == k),
        s.with_all(cs).alive == s.alive,
    decreases cs.len(),
{
    if cs.len() > 0 {
        let init = cs.drop_last();
        lemma_with_all_holds(s, init, k);
        lemma_with_get(s.with_all(init), cs.last(), k);
        if s.with_all(cs).holds(k) && !s.holds(k) && cs.last().kind_spec() != k {
            let i = choose|i: int| 0 <= i < init.len() && #[trigger] init[i].kind_spec() == k;
            assert(cs[i] == init[i]);
        }
        if exists|i: int| 0 <= i < cs.len() && #[trigger] cs[i].kind_spec() == k {
            let i = choose|i: int| 0 <= i < cs.len() && #[trigger] cs[i].kind_spec() == k;
            if i < cs.len() - 1 {
                assert(init[i] == cs[i]);
            }
        }
    }
}

} // verus!
