//! The error taxonomy of a resolution: no candidate existed, an I/O
//! failure, an insecure file, or content that does not match the shape.

use vstd::prelude::*;

use crate::perm::MODE_ACCESS_MASK;
use crate::text::octal_digits;
use crate::text::push_octal;

verus! {

/// Why a resolution failed. Every kind but `NotFound` carries the path of
/// the file it is about; `NotFound` carries none, since no candidate
/// existed at all.
#[derive(Debug, PartialEq, Eq)]
pub enum Error {
    /// Every candidate configuration file was tried, and none exists.
    NotFound,
    /// A configuration file could not be read: the path and a description
    /// of the I/O failure.
    Io(String, String),
    /// A configuration file exists but grants access beyond owner-read and
    /// owner-write: the path and the file's raw permission mode.
    Insecured(String, u32),
    /// The content of a configuration file could not be mapped into the
    /// requested shape: the path and a description of the mismatch.
    Deserialization(String, String),
}

/// The textual rendering of an error: its kind, and the path and payload
/// where the kind carries them. The permission mode is shown in octal,
/// reduced to its access bits.
pub open spec fn error_text(e: Error) -> Seq<char> {
    match e {
        Error::NotFound => "NotFound"@,
        Error::Io(file, description) => "I/O: "@ + description@ + "; file="@ + file@,
        Error::Insecured(file, mode) => "Insecured. permission="@ + octal_digits(
            (mode & MODE_ACCESS_MASK) as nat,
        ) + "; file="@ + file@,
        Error::Deserialization(file, description) => "Deserialization: "@ + description@
            + "; file="@ + file@,
    }
}

impl Error {
    /// Render the error as text for display.
    pub fn describe(&self) -> (r: String)
        ensures
            r@ == error_text(*self),
    {
        match self {
            Error::NotFound => "NotFound".to_owned(),
            Error::Io(file, description) => {
                let mut s = "I/O: ".to_owned();
                s.push_str(description.as_str());
                s.push_str("; file=");
                s.push_str(file.as_str());
                proof {
                    assert(s@ =~= error_text(*self));
                }
                s
            },
            Error::Insecured(file, mode) => {
                let mut s = "Insecured. permission=".to_owned();
                push_octal(&mut s, *mode & MODE_ACCESS_MASK);
                s.push_str("; file=");
                s.push_str(file.as_str());
                proof {
                    assert(s@ =~= error_text(*self));
                }
                s
            },
            Error::Deserialization(file, description) => {
                let mut s = "Deserialization: ".to_owned();
                s.push_str(description.as_str());
                s.push_str("; file=");
                s.push_str(file.as_str());
                proof {
                    assert(s@ =~= error_text(*self));
                }
                s
            },
        }
    }
}

} // verus!
