use vstd::prelude::*;
use crate::domain::RepoError;

verus! {

/// Where a create against an outside store stands.
#[derive(Clone, Copy, Debug, PartialEq, Eq, Structural)]
pub enum CreatePhase {
    Idle,
    CheckingUserName,
    CheckingDepartmentName,
    Inserting,
    Finished,
}

/// What the store answered to the last action.
#[derive(Clone, Copy, Debug, PartialEq, Eq, Structural)]
pub enum CreateEvent {
    /// The create is asked for.
    Begin,
    /// The answer to a name lookup: whether a row with that name exists.
    Found(bool),
    /// The transaction committed; the new user has this identity.
    Inserted(i64),
    /// The store failed; the transaction, if one was open, rolled back.
    Failed,
}

/// What to do next against the store.
#[derive(Clone, Copy, Debug, PartialEq, Eq, Structural)]
pub enum CreateAction {
    /// Look up a user with the proposed user name.
    LookUpUserName,
    /// Look up a department with the proposed department name, under any user.
    LookUpDepartmentName,
    /// In one transaction, insert the user row and a department row that
    /// refers to it, then commit.
    InsertInTransaction,
    /// Stop: the user was created with this identity.
    Created(i64),
    /// Stop: the create failed, and nothing was written.
    Rejected(RepoError),
}

/// The decisions of a create: both uniqueness checks, in order and before
/// any write, then one atomic insert.
#[derive(Clone, Copy, Debug)]
pub struct CreateSession {
    pub phase: CreatePhase,
    pub with_department: bool,
}

/// The next phase and action, from the phase, whether a department name was
/// given, and the event.
pub open spec fn transition(phase: CreatePhase, with_department: bool, event: CreateEvent) -> (
    CreatePhase,
    CreateAction,
) {
    match (phase, event) {
        (CreatePhase::Idle, CreateEvent::Begin) => (
            CreatePhase::CheckingUserName,
            CreateAction::LookUpUserName,
        ),
        (CreatePhase::CheckingUserName, CreateEvent::Found(true)) => (
            CreatePhase::Finished,
            CreateAction::Rejected(RepoError::Duplicate),
        ),
        (CreatePhase::CheckingUserName, CreateEvent::Found(false)) => if with_department {
            (CreatePhase::CheckingDepartmentName, CreateAction::LookUpDepartmentName)
        } else {
            (CreatePhase::Inserting, CreateAction::InsertInTransaction)
        },
        (CreatePhase::CheckingDepartmentName, CreateEvent::Found(true)) => (
            CreatePhase::Finished,
            CreateAction::Rejected(RepoError::Duplicate),
        ),
        (CreatePhase::CheckingDepartmentName, CreateEvent::Found(false)) => (
            CreatePhase::Inserting,
            CreateAction::InsertInTransaction,
        ),
        (CreatePhase::Inserting, CreateEvent::Inserted(id)) => (
            CreatePhase::Finished,
            CreateAction::Created(id),
        ),
        _ => (CreatePhase::Finished, CreateAction::Rejected(RepoError::Storage)),
    }
}

impl CreateSession {
    /// A create that has not begun.
    pub fn new(with_department: bool) -> (r: CreateSession)
        ensures
            r.phase == CreatePhase::Idle,
            r.with_department == with_department,
    {
        CreateSession { phase: CreatePhase::Idle, with_department: with_department }
    }

    /// Takes the store's answer and says what to do next. A duplicate name
    /// ends the create before any write; a failure, or an event that does
    /// not answer the last action, ends it with a storage error.
    pub fn step(&mut self, event: CreateEvent) -> (a: CreateAction)
        ensures
            (final(self).phase, a) == transition(old(self).phase, old(self).with_department, event),
            final(self).with_department == old(self).with_department,
    {
        let (phase, action) = match (self.phase, event) {
            (CreatePhase::Idle, CreateEvent::Begin) => (
                CreatePhase::CheckingUserName,
                CreateAction::LookUpUserName,
            ),
            (CreatePhase::CheckingUserName, CreateEvent::Found(true)) => (
                CreatePhase::Finished,
                CreateAction::Rejected(RepoError::Duplicate),
            ),
            (CreatePhase::CheckingUserName, CreateEvent::Found(false)) => if self.with_department {
                (CreatePhase::CheckingDepartmentName, CreateAction::LookUpDepartmentName)
            } else {
                (CreatePhase::Inserting, CreateAction::InsertInTransaction)
            },
            (CreatePhase::CheckingDepartmentName, CreateEvent::Found(true)) => (
                CreatePhase::Finished,
                CreateAction::Rejected(RepoError::Duplicate),
            ),
            (CreatePhase::CheckingDepartmentName, CreateEvent::Found(false)) => (
                CreatePhase::Inserting,
                CreateAction::InsertInTransaction,
            ),
            (CreatePhase::Inserting, CreateEvent::Inserted(id)) => (
                CreatePhase::Finished,
                CreateAction::Created(id),
            ),
            _ => (CreatePhase::Finished, CreateAction::Rejected(RepoError::Storage)),
        };
        self.phase = phase;
        action
    }
}

/// Once a lookup finds the proposed name, the create finishes with a
/// duplicate error and asks for no write.
pub proof fn lemma_found_name_stops(phase: CreatePhase, with_department: bool)
    requires
        phase == CreatePhase::CheckingUserName || phase == CreatePhase::CheckingDepartmentName,
    ensures
        transition(phase, with_department, CreateEvent::Found(true)) == (
            CreatePhase::Finished,
            CreateAction::Rejected(RepoError::Duplicate),
        ),
{
}

/// An insert is asked for only once every lookup that applies has found
/// nothing: the user name always, the department name where one was given.
pub proof fn lemma_insert_after_checks(phase: CreatePhase, with_department: bool, event: CreateEvent)
    requires
        transition(phase, with_department, event).1 == CreateAction::InsertInTransaction,
    ensures
        event == CreateEvent::Found(false),
        phase == CreatePhase::CheckingDepartmentName || (phase == CreatePhase::CheckingUserName
            && !with_department),
{
}

} // verus!
