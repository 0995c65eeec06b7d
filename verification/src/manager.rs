//! The set of active projects, bounded in size.

use std::collections::HashMap;
use vstd::prelude::*;

use crate::errors::ServerMessageError;

verus! {

broadcast use vstd::std_specs::hash::group_hash_axioms;

/// How many projects may be active unless configured otherwise.
pub const DEFAULT_MAX_PROJECTS: usize = 64;

/// Why a project was not added.
#[derive(Debug, Clone, Copy, PartialEq, Eq)]
pub enum ProjectManagerError {
    /// The active project limit has been reached.
    LimitReached,
}

/// The active projects by id; `P` is how the caller holds a project.
pub struct ProjectManager<P> {
    projects: HashMap<u128, P>,
    max_projects: usize,
}

impl<P> ProjectManager<P> {
    pub closed spec fn view(&self) -> Map<u128, P> {
        self.projects@
    }

    pub closed spec fn limit(&self) -> nat {
        self.max_projects as nat
    }

    /// Well-formed: never more projects than the limit.
    pub closed spec fn wf(&self) -> bool {
        self.projects@.dom().finite() && self.projects@.len() <= self.max_projects
    }

    /// No projects, room for `max_projects`.
    pub fn new(max_projects: usize) -> (r: Self)
        ensures
            r.wf(),
            r.view() == Map::<u128, P>::empty(),
            r.limit() == max_projects,
    {
        ProjectManager { projects: HashMap::new(), max_projects }
    }

    pub fn has_capacity(&self) -> (r: bool)
        requires
            self.wf(),
        ensures
            r == (self.view().len() < self.limit()),
    {
        self.projects.len() < self.max_projects
    }

    /// Adds a project under `id`, unless the limit has been reached.
    pub fn add_project(&mut self, id: u128, project: P) -> (r: Result<(), ProjectManagerError>)
        requires
            old(self).wf(),
        ensures
            add_project_outcome(*old(self), *final(self), id, project, r),
    {
        if !self.has_capacity() {
            return Err(ProjectManagerError::LimitReached);
        }
        self.projects.insert(id, project);
        Ok(())
    }

    /// The project with id `id`.
    pub fn get_project(&self, id: u128) -> (r: Result<&P, ServerMessageError>)
        requires
            self.wf(),
        ensures
            self.view().contains_key(id) ==> (r matches Ok(p) && *p == self.view()[id]),
            !self.view().contains_key(id) ==> r == Err::<&P, ServerMessageError>(
                ServerMessageError::ProjectNotFound(id),
            ),
    {
        match self.projects.get(&id) {
            Some(p) => Ok(p),
            None => Err(ServerMessageError::ProjectNotFound(id)),
        }
    }
}

/// What `add_project` promises: below the limit the project is stored
/// under its id, at the limit nothing changes.
pub open spec fn add_project_outcome<P>(
    before: ProjectManager<P>,
    after: ProjectManager<P>,
    id: u128,
    project: P,
    r: Result<(), ProjectManagerError>,
) -> bool {
    &&& after.wf()
    &&& after.limit() == before.limit()
    &&& before.view().len() < before.limit() ==> r is Ok && after.view() == before.view().insert(
        id,
        project,
    )
    &&& before.view().len() >= before.limit() ==> r == Err::<(), ProjectManagerError>(
        ProjectManagerError::LimitReached,
    ) && after.view() == before.view()
}

/// However many projects are added, the limit is never exceeded, and a
/// project that was added is found under its id.
pub proof fn added_project_is_found<P>(
    before: ProjectManager<P>,
    after: ProjectManager<P>,
    id: u128,
    project: P,
    r: Result<(), ProjectManagerError>,
)
    requires
        before.wf(),
        add_project_outcome(before, after, id, project, r),
    ensures
        after.view().len() <= after.limit(),
        r is Ok ==> after.view().contains_key(id) && after.view()[id] == project,
        r is Ok && !before.view().contains_key(id) ==> after.view().len() == before.view().len()
            + 1,
        r is Ok && before.view().contains_key(id) ==> after.view().len() == before.view().len(),
{
}

impl<P> ProjectManager<P> {
    /// A well-formed manager holds finitely many projects.
    pub proof fn lemma_finite(&self)
        requires
            self.wf(),
        ensures
            self.view().dom().finite(),
    {
    }
}

} // verus!
