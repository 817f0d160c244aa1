//! Locations of resources: a project and, optionally, one of its configurations.

use vstd::prelude::*;
use crate::identifier::{InvalidId, ProjectId};

verus! {

/// A resource location in assemble
#[derive(Debug)]
pub struct ResourceLocation {
    project: ProjectId,
    configuration: Option<String>,
}

impl ResourceLocation {
    /// The project of the location, as its identifier's parts.
    pub closed spec fn project_spec(self) -> Seq<Seq<char>> {
        self.project@
    }

    /// The configuration of the location, if any.
    pub closed spec fn configuration_spec(self) -> Option<Seq<char>> {
        match self.configuration {
            Some(c) => Some(c@),
            None => None,
        }
    }

    pub fn new(project: ProjectId, configuration: Option<&str>) -> (r: Self)
        ensures
            r.project_spec() == project@,
            r.configuration_spec() == match configuration {
                Some(c) => Some(c@),
                None => None::<Seq<char>>,
            },
    {
        let configuration = match configuration {
            Some(c) => Some(c.to_owned()),
            None => None,
        };
        Self { project, configuration }
    }

    pub fn project(&self) -> (r: &ProjectId)
        ensures
            r@ == self.project_spec(),
    {
        &self.project
    }

    pub fn configuration(&self) -> (r: Option<&str>)
        ensures
            match r {
                Some(c) => self.configuration_spec() == Some(c@),
                None => self.configuration_spec() is None,
            },
    {
        match &self.configuration {
            Some(c) => Some(c.as_str()),
            None => None,
        }
    }
}

impl Clone for ResourceLocation {
    fn clone(&self) -> (r: Self)
        ensures
            r.project_spec() == self.project_spec(),
            r.configuration_spec() == self.configuration_spec(),
    {
        let configuration = match &self.configuration {
            Some(c) => Some(c.clone()),
            None => None,
        };
        Self { project: self.project.clone(), configuration }
    }
}

#[derive(Debug)]
pub enum InvalidResourceLocation {
    BadSchema(String),
    InvalidId(InvalidId),
    NoResourceFound,
}

/// A project visitor that tries to find a resource
pub struct ResourceLocator {
    location: ResourceLocation,
}

impl ResourceLocator {
    /// The location searched for.
    pub closed spec fn location(self) -> ResourceLocation {
        self.location
    }

    pub fn new(location: ResourceLocation) -> (r: Self)
        ensures
            r.location() == location,
    {
        Self { location }
    }
}

} // verus!
