use vstd::prelude::*;

use crate::errors::ServerMessageError;

verus! {

/// The access a user holds on a project.
#[derive(Debug, Clone, Copy, PartialEq, Eq, Structural)]
pub enum AccessLevel {
    Queue,
    ReadOnly,
    Editor,
}

impl AccessLevel {
    /// Whether the level lets its holder read the project.
    pub open spec fn spec_can_read(self) -> bool {
        self is ReadOnly || self is Editor
    }

    pub fn can_read(&self) -> (r: bool)
        ensures
            r == self.spec_can_read(),
    {
        match self {
            AccessLevel::Queue => false,
            AccessLevel::ReadOnly | AccessLevel::Editor => true,
        }
    }

    pub fn is_readonly(&self) -> (r: bool)
        ensures
            r == (*self is ReadOnly),
    {
        match self {
            AccessLevel::ReadOnly => true,
            _ => false,
        }
    }

    pub fn is_editor(&self) -> (r: bool)
        ensures
            r == (*self is Editor),
    {
        match self {
            AccessLevel::Editor => true,
            _ => false,
        }
    }

    /// Succeeds exactly when the level can read; otherwise reports
    /// `NotAccessible`.
    pub fn need_read(&self) -> (r: Result<(), ServerMessageError>)
        ensures
            self.spec_can_read() ==> r == Ok::<(), ServerMessageError>(()),
            !self.spec_can_read() ==> r == Err::<(), ServerMessageError>(
                ServerMessageError::NotAccessible,
            ),
    {
        if self.can_read() {
            Ok(())
        } else {
            Err(ServerMessageError::NotAccessible)
        }
    }

    /// Succeeds exactly for editors; a queued user is told that the project
    /// is not accessible, a reader that the access is read-only.
    pub fn need_editor(&self) -> (r: Result<(), ServerMessageError>)
        ensures
            *self is Editor ==> r == Ok::<(), ServerMessageError>(()),
            *self is Queue ==> r == Err::<(), ServerMessageError>(
                ServerMessageError::NotAccessible,
            ),
            *self is ReadOnly ==> r == Err::<(), ServerMessageError>(
                ServerMessageError::ReadonlyPermission,
            ),
    {
        match self {
            AccessLevel::Queue => Err(ServerMessageError::NotAccessible),
            AccessLevel::ReadOnly => Err(ServerMessageError::ReadonlyPermission),
            AccessLevel::Editor => Ok(()),
        }
    }
}

impl Default for AccessLevel {
    /// A user starts in the queue.
    fn default() -> (r: AccessLevel)
        ensures
            r == AccessLevel::Queue,
    {
        AccessLevel::Queue
    }
}

/// Whoever may edit may also read.
pub proof fn editor_access_implies_read(level: AccessLevel)
    ensures
        level is Editor ==> level.spec_can_read(),
{
}

} // verus!
