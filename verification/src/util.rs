//! Small helpers: which files the watcher leaves alone, and removal from a
//! vector that tolerates a missing index.

use vstd::prelude::*;
use crate::path::{file_name, spec_file_name};
use crate::text::{starts_with_char, ends_with_char};

verus! {

/// Whether a file name marks a file the watcher leaves alone: hidden (`.`),
/// backup (`~` first or last) or lock (`#`) files.
pub open spec fn is_ignored_file_name(name: Seq<char>) -> bool {
    name.len() > 0 && (name[0] == '.' || name[0] == '~' || name.last() == '~' || name[0] == '#')
}

/// Whether the watcher leaves a path alone: its file name is ignored.
pub open spec fn spec_ignore_file(relative_path: Seq<char>) -> bool {
    match spec_file_name(relative_path) {
        Some(name) => is_ignored_file_name(name),
        None => false,
    }
}

/// Whether the watcher leaves a path alone: see [`spec_ignore_file`].
pub fn ignore_file(relative_path: &str) -> (r: bool)
    ensures
        r == spec_ignore_file(relative_path@),
{
    match file_name(relative_path) {
        Some(name) => {
            let n = name.as_str();
            starts_with_char(n, '.') || starts_with_char(n, '~') || ends_with_char(n, '~')
                || starts_with_char(n, '#')
        },
        None => false,
    }
}

/// Removal of an element that tolerates a missing index.
pub trait TryRemove<T> {
    /// Removes and returns the element at `index`, if there is one.
    fn try_remove(&mut self, index: usize) -> Option<T>;
}

impl<T> TryRemove<T> for Vec<T> {
    fn try_remove(&mut self, index: usize) -> (r: Option<T>)
        ensures
            index < old(self)@.len() ==> r == Some(old(self)@[index as int]) && final(self)@ == old(
                self,
            )@.remove(index as int),
            index >= old(self)@.len() ==> r is None && final(self)@ == old(self)@,
    {
        if self.len() > index {
            Some(self.remove(index))
        } else {
            None
        }
    }
}

} // verus!
