//! Names and places of projects.

use vstd::prelude::*;

use crate::text;
use crate::text::{char_is_ident_char, chars_of, put2};

verus! {

/// A project name that templates can't hold.
#[derive(Debug, PartialEq, Eq)]
pub struct ProjectNameError {
    pub name: String,
}

/// Whether a project name has letters, digits, `_` and `-` only, and at least
/// one of them.
pub open spec fn project_name(name: Seq<char>) -> bool {
    name.len() > 0 && forall|i: int|
        0 <= i < name.len() ==> text::is_ident_char(#[trigger] name[i]) || name[i] == '-'
}

/// Accepts a project name that templates can hold.
pub fn validate_project_name(name: &str) -> (r: Result<(), ProjectNameError>)
    ensures
        match r {
            Ok(done) => project_name(name@),
            Err(error) => !project_name(name@) && error.name@ == name@,
        },
{
    let chars = chars_of(name);
    let mut valid = chars.len() > 0;
    let mut i: usize = 0;
    while i < chars.len()
        invariant
            i <= chars@.len(),
            chars@ == name@,
            valid == (name@.len() > 0 && forall|k: int|
                0 <= k < i ==> text::is_ident_char(#[trigger] name@[k]) || name@[k] == '-'),
        decreases chars@.len() - i,
    {
        if !char_is_ident_char(chars[i]) && chars[i] != '-' {
            valid = false;
        }
        i += 1;
    }
    if valid {
        Ok(())
    } else {
        Err(ProjectNameError { name: name.to_owned() })
    }
}

impl ProjectNameError {
    /// Renders the error for a reader.
    pub fn message(&self) -> (r: String)
        ensures
            r@ == Seq::<char>::empty()
                + "project name must contain only ASCII letters, digits, '_' or '-': "@
                + self.name@,
    {
        let mut out = String::new();
        assert(out@ =~= Seq::empty());
        put2(
            &mut out,
            "project name must contain only ASCII letters, digits, '_' or '-': ",
            self.name.as_str(),
        );
        out
    }
}

/// Where the configuration of a project is.
#[derive(Debug, Clone, Copy, PartialEq, Eq, Structural)]
pub enum ProjectPlace {
    /// At the absolute path that was asked for, in the project's root.
    Configured,
    /// At the path that was asked for, below the directory of the command.
    Start,
    /// In the ancestor of that many steps, the start being the first one.
    Ancestor(usize),
}

/// The position of the first ancestor from `i` on that holds a configuration.
pub open spec fn nearest_ancestor(holds_config: Seq<bool>, i: int) -> Option<int>
    decreases holds_config.len() - i,
{
    if i < 0 || i >= holds_config.len() {
        None
    } else if holds_config[i] {
        Some(i)
    } else {
        nearest_ancestor(holds_config, i + 1)
    }
}

/// Where the configuration of a project is, given what the file system holds.
pub open spec fn place_of_project(
    absolute: bool,
    default_name: bool,
    direct_exists: bool,
    holds_config: Seq<bool>,
) -> ProjectPlace {
    if absolute {
        ProjectPlace::Configured
    } else if direct_exists || !default_name {
        ProjectPlace::Start
    } else {
        match nearest_ancestor(holds_config, 0) {
            Some(i) => ProjectPlace::Ancestor(i as usize),
            None => ProjectPlace::Start,
        }
    }
}

/// Decides where the configuration of a project is: at an absolute path, below
/// the start directory if it exists there or has a name of its own, and
/// otherwise in the nearest ancestor that holds one.
pub fn choose_project(
    absolute: bool,
    default_name: bool,
    direct_exists: bool,
    holds_config: &Vec<bool>,
) -> (r: ProjectPlace)
    ensures
        r == place_of_project(absolute, default_name, direct_exists, holds_config@),
        match r {
            ProjectPlace::Ancestor(i) => i < holds_config@.len() && holds_config@[i as int],
            _ => true,
        },
{
    if absolute {
        return ProjectPlace::Configured;
    }
    if direct_exists || !default_name {
        return ProjectPlace::Start;
    }
    let mut i: usize = 0;
    while i < holds_config.len()
        invariant
            i <= holds_config@.len(),
            !absolute && !direct_exists && default_name,
            nearest_ancestor(holds_config@, 0) == nearest_ancestor(holds_config@, i as int),
        decreases holds_config@.len() - i,
    {
        if holds_config[i] {
            return ProjectPlace::Ancestor(i);
        }
        i += 1;
    }
    ProjectPlace::Start
}

} // verus!
