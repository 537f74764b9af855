use vstd::prelude::*;

verus! {

/// The failures the persistent layer of the registry distinguishes.
/// Each kind wraps an underlying I/O failure against the state
/// directory; the surrounding layer that performs that I/O reports
/// them through this type. A missing key on lookup or removal, and a
/// corrupt entry met during enumeration, are never errors: they are
/// reported as absence, or skipped.
#[derive(Clone, Copy, Debug, PartialEq, Eq, Structural)]
pub enum RegistryError {
    /// The state directory could not be created on open.
    CreateStateDir,
    /// The symlink for a newly registered entry could not be created,
    /// for a reason other than the entry already existing.
    CreatingLink,
    /// The symlink of an existing entry could not be removed; the
    /// entry is then still registered.
    RemovingLink,
    /// The state directory could not be read for enumeration.
    ReadingStateDir,
}

impl RegistryError {
    /// A description of the failure.
    pub fn message(&self) -> (r: &'static str)
        ensures
            *self == RegistryError::CreateStateDir ==> r@ == "failed to create registry state directory"@,
            *self == RegistryError::CreatingLink ==> r@ == "failed to create symlink"@,
            *self == RegistryError::RemovingLink ==> r@ == "failed to remove symlink"@,
            *self == RegistryError::ReadingStateDir ==> r@ == "failed to read registry state directory"@,
    {
        match self {
            RegistryError::CreateStateDir => "failed to create registry state directory",
            RegistryError::CreatingLink => "failed to create symlink",
            RegistryError::RemovingLink => "failed to remove symlink",
            RegistryError::ReadingStateDir => "failed to read registry state directory",
        }
    }
}

} // verus!
