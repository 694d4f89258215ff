//! The ways in which a reload can fail.

use vstd::prelude::*;
use crate::text::concat3;

verus! {

/// Why a reload did not complete.
#[derive(Clone, Copy, Debug, PartialEq, Eq, Structural)]
pub enum ReloadError {
    /// The artifact's symbol section could not be parsed.
    MetadataUnreadable,
    /// The loaded module holds no implementation symbol for the function.
    SymbolNotFound,
    /// The module's signature marker is absent or disagrees with the hash
    /// compiled into the call site.
    AbiMismatch,
    /// The artifact could not be opened as a module.
    ModuleOpenFailed,
    /// The artifact's modification time could not be read.
    ArtifactUnavailable,
    /// An event arrived that the protocol did not ask for.
    OutOfTurn,
}

impl ReloadError {
    /// Whether the failure must end the process: the call site cannot go on
    /// with the implementation it has.
    pub open spec fn is_fatal(self) -> bool {
        self == ReloadError::SymbolNotFound || self == ReloadError::AbiMismatch
    }

    /// Whether the failure must end the process.
    pub fn fatal(&self) -> (fatal: bool)
        ensures
            fatal == self.is_fatal(),
    {
        match self {
            ReloadError::SymbolNotFound => true,
            ReloadError::AbiMismatch => true,
            _ => false,
        }
    }

    /// What the operator is told when a reload of the function `name` fails.
    pub open spec fn message(self, name: Seq<char>) -> Seq<char> {
        match self {
            ReloadError::MetadataUnreadable => "could not read the symbol table of the artifact"@,
            ReloadError::SymbolNotFound => "Couldn't find symbol"@,
            ReloadError::AbiMismatch => "ERR-PANIC: new lib's signature for "@ + name
                + " does not match current signature, please restart!"@,
            ReloadError::ModuleOpenFailed => "could not open the artifact as a module"@,
            ReloadError::ArtifactUnavailable => "could not read the modification time of the artifact"@,
            ReloadError::OutOfTurn => "the reload protocol received an event it did not ask for"@,
        }
    }

    /// What the operator is told when a reload of the function `name` fails.
    pub fn describe(&self, name: &str) -> (text: String)
        ensures
            text@ == self.message(name@),
    {
        match self {
            ReloadError::MetadataUnreadable => String::from_str(
                "could not read the symbol table of the artifact",
            ),
            ReloadError::SymbolNotFound => String::from_str("Couldn't find symbol"),
            ReloadError::AbiMismatch => concat3(
                "ERR-PANIC: new lib's signature for ",
                name,
                " does not match current signature, please restart!",
            ),
            ReloadError::ModuleOpenFailed => String::from_str(
                "could not open the artifact as a module",
            ),
            ReloadError::ArtifactUnavailable => String::from_str(
                "could not read the modification time of the artifact",
            ),
            ReloadError::OutOfTurn => String::from_str(
                "the reload protocol received an event it did not ask for",
            ),
        }
    }
}

} // verus!
