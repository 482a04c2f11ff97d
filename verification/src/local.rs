//! Private files of the local user.

use vstd::prelude::*;
use vstd::string::*;

verus! {

/// Why a local record is of no use.
#[derive(Debug)]
pub struct LocalError {
    pub message: String,
}

impl DeepView for LocalError {
    type V = Seq<char>;

    open spec fn deep_view(&self) -> Seq<char> {
        self.message@
    }
}

pub(crate) fn refuse(message: &str) -> (error: LocalError)
    ensures
        error.deep_view() == message@,
{
    LocalError { message: message.to_owned() }
}

/// What stands at a local path; links are not followed.
#[derive(Clone, Copy, Debug)]
pub struct LocalEntry {
    pub directory: bool,
    pub file: bool,
    pub owner: u32,
    pub mode: u32,
    pub length: u64,
}

/// The user owns the entry, and nobody else has any permission on it.
pub open spec fn is_private(entry: LocalEntry, user: u32) -> bool {
    entry.owner == user && entry.mode & 0o077 == 0
}

/// Whether the user owns the entry and nobody else has any permission on it.
pub fn private(entry: &LocalEntry, user: u32) -> (r: bool)
    ensures
        r == is_private(*entry, user),
{
    entry.owner == user && entry.mode & 0o077 == 0
}

} // verus!
