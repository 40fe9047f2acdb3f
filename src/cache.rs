use vstd::prelude::*;

use crate::component::ResourceHandle;

verus! {

/// A model that was already decoded: where it came from and its packed
/// geometry and texture data.
pub struct Model {
    pub source: String,
    pub data: Vec<u8>,
}

/// Errors of the resource cache.
#[derive(Clone, Copy, Debug, PartialEq, Eq, Structural)]
pub enum CacheError {
    UnknownHandle,
}

/// Holds decoded models behind stable handles, with whether each one is
/// resident in the render backend. Models are not deduplicated: every
/// `include` issues a new handle.
pub struct ResourceCache {
    models: Vec<Model>,
    resident: Vec<bool>,
}

impl View for ResourceCache {
    /// Residency of each issued handle, indexed by handle.
    type V = Seq<bool>;

    closed spec fn view(&self) -> Seq<bool> {
        self.resident@
    }
}

/// Whether `h` was issued by a cache whose residency is `c` and is resident.
pub open spec fn is_resident_in(c: Seq<bool>, h: ResourceHandle) -> bool {
    h.id < c.len() && c[h.id as int]
}

impl ResourceCache {
    pub closed spec fn wf(&self) -> bool {
        self.models@.len() == self.resident@.len()
    }

    pub fn new() -> (r: ResourceCache)
        ensures
            r.wf(),
            r@.len() == 0,
    {
        ResourceCache { models: Vec::new(), resident: Vec::new() }
    }

    /// Registers a decoded model; the new handle is not resident yet.
    pub fn include_model(&mut self, model: Model) -> (r: ResourceHandle)
        requires
            old(self).wf(),
        ensures
            final(self).wf(),
            r.id == old(self)@.len(),
            final(self)@ == old(self)@.push(false),
    {
        let id = self.resident.len();
        self.models.push(model);
        self.resident.push(false);
        ResourceHandle { id }
    }

    /// Records that the model behind `h` has been uploaded to the backend.
    /// Loading a resident handle again changes nothing.
    pub fn load(&mut self, h: ResourceHandle) -> (r: Result<(), CacheError>)
        requires
            old(self).wf(),
        ensures
            final(self).wf(),
            r is Ok <==> h.id < old(self)@.len(),
            r is Ok ==> final(self)@ == old(self)@.update(h.id as int, true),
            r is Err ==> r == Err::<(), CacheError>(CacheError::UnknownHandle) && final(self)@ == old(self)@,
    {
        if h.id < self.resident.len() {
            self.resident.set(h.id, true);
            Ok(())
        } else {
            Err(CacheError::UnknownHandle)
        }
    }

    pub fn is_resident(&self, h: ResourceHandle) -> (r: bool)
        ensures
            r == is_resident_in(self@, h),
    {
        h.id < self.resident.len() && self.resident[h.id]
    }

    /// The decoded model behind `h`, for uploading.
    pub fn model(&self, h: ResourceHandle) -> (r: Option<&Model>)
        requires
            self.wf(),
        ensures
            r is Some <==> h.id < self@.len(),
    {
        if h.id < self.models.len() {
            Some(&self.models[h.id])
        } else {
            None
        }
    }

    /// The number of handles issued.
    pub fn len(&self) -> (r: usize)
        ensures
            r == self@.len(),
    {
        self.resident.len()
    }
}

/// Two registrations never share a handle, even of identical models.
pub proof fn law_registration_issues_fresh_handles(c: Seq<bool>, h1: ResourceHandle, h2: ResourceHandle)
    requires
        h1.id == c.len(),
        h2.id == c.push(false).len(),
    ensures
        h1 != h2,
        c.push(false).push(false).len() == c.len() + 2,
{
}

/// Loading is idempotent: loading twice leaves what loading once leaves.
pub proof fn law_load_idempotent(c: Seq<bool>, h: ResourceHandle)
    requires
        h.id < c.len(),
    ensures
        c.update(h.id as int, true).update(h.id as int, true) == c.update(h.id as int, true),
        is_resident_in(c.update(h.id as int, true), h),
{
    assert(c.update(h.id as int, true).update(h.id as int, true) =~= c.update(h.id as int, true));
}

} // verus!
