//! A resolved resource, and the rule that gives it its target.

use vstd::prelude::*;
use crate::paths::{
    file_name_of, final_name, parts_of, path_components, rewrite_components, rewritten,
    split_components, Component, Part, Rewrite,
};

verus! {

/// Information for a resource.
#[derive(Debug, Clone, PartialEq, Eq)]
pub struct Resource {
    path: String,
    target: String,
}

/// The mathematical value of a [`Resource`].
pub struct ResourceView {
    /// Where the resource is read from.
    pub path: Seq<char>,
    /// Where it is stored, relative to the resource directory.
    pub target: Seq<char>,
}

impl View for Resource {
    type V = ResourceView;

    closed spec fn view(&self) -> ResourceView {
        ResourceView { path: self.path@, target: self.target@ }
    }
}

impl Resource {
    /// A resource read from `path` and stored at `target`.
    pub fn new(path: String, target: String) -> (resource: Resource)
        ensures
            resource@ == (ResourceView { path: path@, target: target@ }),
    {
        Resource { path, target }
    }

    /// The path of the resource.
    pub fn path(&self) -> (path: &str)
        ensures
            path@ == self@.path,
    {
        self.path.as_str()
    }

    /// The target location of the resource.
    pub fn target(&self) -> (target: &str)
        ensures
            target@ == self@.target,
    {
        self.target.as_str()
    }

    /// Gives up the resource for its path.
    pub fn into_path(self) -> (path: String)
        ensures
            path@ == self@.path,
    {
        self.path
    }
}

/// The target of an entry with the given components under a destination
/// override: a non-empty override is the target as it stands; an empty one
/// leaves the entry's name, without its directories; with no override the
/// target is the entry's path rewritten for a target.
pub open spec fn target_of(parts: Seq<Part>, dest: Option<Seq<char>>) -> Seq<char> {
    match dest {
        Some(text) => if text.len() > 0 {
            text
        } else {
            match final_name(parts) {
                Some(name) => name,
                None => text,
            }
        },
        None => rewritten(parts, Rewrite::Target),
    }
}

/// The view of an optional text.
pub open spec fn text_of(text: Option<&str>) -> Option<Seq<char>> {
    match text {
        Some(text) => Some(text@),
        None => None,
    }
}

/// The target of an entry given by its components, under a destination
/// override.
pub fn target_from_components(components: &[Component], dest: Option<&str>) -> (target: String)
    ensures
        target@ == target_of(parts_of(components@), text_of(dest)),
{
    match dest {
        Some(text) => {
            if text.is_empty() {
                match file_name_of(components) {
                    Some(name) => {
                        return name;
                    },
                    None => {},
                }
            }
            text.to_owned()
        },
        None => rewrite_components(components, Rewrite::Target),
    }
}

/// The target of the entry at `path` under a destination override.
pub fn entry_target(path: &str, dest: Option<&str>) -> (target: String)
    ensures
        target@ == target_of(path_components(path@), text_of(dest)),
{
    let components = split_components(path);
    target_from_components(components.as_slice(), dest)
}

} // verus!
