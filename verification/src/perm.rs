//! The file-permission policy: a configuration file may be read and written
//! by its owner and nothing else.

use vstd::prelude::*;

verus! {

/// The owner-execute permission bit of a POSIX file mode.
pub const MODE_OWNER_EXECUTE: u32 = 0o100;

/// The group read, write and execute permission bits of a POSIX file mode.
pub const MODE_GROUP_ALL: u32 = 0o070;

/// The other-users read, write and execute permission bits of a POSIX file
/// mode.
pub const MODE_OTHER_ALL: u32 = 0o007;

/// The low twelve bits of a POSIX file mode: the access permissions,
/// without the file-type bits.
pub const MODE_ACCESS_MASK: u32 = 0o7777;

/// A file mode is secured when no bit beyond owner-read and owner-write is
/// set: the access permissions are `600`, `400`, or a subset of them.
pub open spec fn secured_mode(mode: u32) -> bool {
    &&& mode & MODE_OWNER_EXECUTE == 0
    &&& mode & MODE_GROUP_ALL == 0
    &&& mode & MODE_OTHER_ALL == 0
}

/// Decide whether a file mode is acceptable for a configuration file.
pub fn is_secured_mode(mode: u32) -> (r: bool)
    ensures
        r == secured_mode(mode),
{
    mode & MODE_OWNER_EXECUTE == 0 && mode & MODE_GROUP_ALL == 0 && mode & MODE_OTHER_ALL == 0
}

} // verus!
