//! What is being loaded, apart from how.

use vstd::prelude::*;
use crate::text::{clone_option_string, option_string_view};

verus! {

/// Identity of a resource: its path, and the query and fragment it was
/// requested with. Fixed from creation on.
#[derive(Debug, Clone, PartialEq, Eq)]
pub struct ResourceData {
    resource_path: String,
    resource_query: Option<String>,
    resource_fragment: Option<String>,
}

/// Mathematical content of a [`ResourceData`].
pub struct ResourceDataView {
    pub path: Seq<char>,
    pub query: Option<Seq<char>>,
    pub fragment: Option<Seq<char>>,
}

impl View for ResourceData {
    type V = ResourceDataView;

    closed spec fn view(&self) -> ResourceDataView {
        ResourceDataView {
            path: self.resource_path@,
            query: option_string_view(self.resource_query),
            fragment: option_string_view(self.resource_fragment),
        }
    }
}

impl ResourceData {
    pub fn new(path: String, query: Option<String>, fragment: Option<String>) -> (resource: Self)
        ensures
            resource@ == (ResourceDataView {
                path: path@,
                query: option_string_view(query),
                fragment: option_string_view(fragment),
            }),
    {
        ResourceData { resource_path: path, resource_query: query, resource_fragment: fragment }
    }

    pub fn path(&self) -> (path: &str)
        ensures
            path@ == self@.path,
    {
        self.resource_path.as_str()
    }

    pub fn query(&self) -> (query: Option<&String>)
        ensures
            query is Some == self@.query is Some,
            query matches Some(q) ==> self@.query == Some(q@),
    {
        self.resource_query.as_ref()
    }

    pub fn fragment(&self) -> (fragment: Option<&String>)
        ensures
            fragment is Some == self@.fragment is Some,
            fragment matches Some(f) ==> self@.fragment == Some(f@),
    {
        self.resource_fragment.as_ref()
    }

    /// A copy of the descriptor.
    pub fn duplicate(&self) -> (copy: ResourceData)
        ensures
            copy@ == self@,
    {
        ResourceData {
            resource_path: self.resource_path.clone(),
            resource_query: clone_option_string(&self.resource_query),
            resource_fragment: clone_option_string(&self.resource_fragment),
        }
    }
}

} // verus!
