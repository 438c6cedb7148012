use vstd::prelude::*;

verus! {

/// A point in time, in microseconds since 1970-01-01 00:00:00 (UTC, no zone).
#[derive(Clone, Copy, Debug, PartialEq, Eq, Structural)]
pub struct Timestamp {
    pub micros: i64,
}

impl Timestamp {
    /// The epoch, used where a stored time is missing.
    pub fn epoch() -> (r: Timestamp)
        ensures
            r.micros == 0,
    {
        Timestamp { micros: 0 }
    }
}

/// A department owned by exactly one user.
#[derive(Clone, Debug)]
pub struct Department {
    pub id: i64,
    pub user_id: i64,
    pub name: String,
    pub updated_datetime: Timestamp,
    pub created_datetime: Timestamp,
}

/// The aggregate root: a user and the departments it owns.
#[derive(Clone, Debug)]
pub struct UserAggregateRoot {
    pub id: i64,
    pub name: String,
    pub updated_datetime: Timestamp,
    pub created_datetime: Timestamp,
    pub departments: Vec<Department>,
}

pub struct DepartmentView {
    pub id: i64,
    pub user_id: i64,
    pub name: Seq<char>,
    pub updated_datetime: Timestamp,
    pub created_datetime: Timestamp,
}

pub struct UserView {
    pub id: i64,
    pub name: Seq<char>,
    pub updated_datetime: Timestamp,
    pub created_datetime: Timestamp,
    pub departments: Seq<DepartmentView>,
}

impl View for Department {
    type V = DepartmentView;

    open spec fn view(&self) -> DepartmentView {
        DepartmentView {
            id: self.id,
            user_id: self.user_id,
            name: self.name@,
            updated_datetime: self.updated_datetime,
            created_datetime: self.created_datetime,
        }
    }
}

pub open spec fn departments_view(ds: Seq<Department>) -> Seq<DepartmentView> {
    ds.map_values(|d: Department| d@)
}

impl View for UserAggregateRoot {
    type V = UserView;

    open spec fn view(&self) -> UserView {
        UserView {
            id: self.id,
            name: self.name@,
            updated_datetime: self.updated_datetime,
            created_datetime: self.created_datetime,
            departments: departments_view(self.departments@),
        }
    }
}

pub open spec fn users_view(us: Seq<UserAggregateRoot>) -> Seq<UserView> {
    us.map_values(|u: UserAggregateRoot| u@)
}

pub open spec fn opt_view(o: Option<String>) -> Option<Seq<char>> {
    match o {
        Some(s) => Some(s@),
        None => None,
    }
}

/// Why a repository operation failed.
#[derive(Clone, Copy, Debug, PartialEq, Eq, Structural)]
pub enum RepoError {
    /// A user or department with the proposed name already exists.
    Duplicate,
    /// The store could not take the operation; nothing was written.
    Storage,
}

/// Storage of user aggregates: fetch one by identity, create one.
pub trait UserAggregateRepository {
    /// Whether the repository is in a state to serve requests.
    spec fn ready(&self) -> bool;

    /// The aggregates that the repository holds for user `id`.
    spec fn found(&self, id: i64) -> Seq<UserView>;

    /// What a fetch of user `id` returns from this state.
    spec fn fetch_result(&self, id: i64) -> Result<Seq<UserView>, RepoError>;

    /// What a create with these names returns from this state.
    spec fn create_result(&self, user_name: Seq<char>, department_name: Option<Seq<char>>) -> Result<
        i64,
        RepoError,
    >;

    /// Whether a stored user has this name.
    spec fn holds_user_named(&self, name: Seq<char>) -> bool;

    /// Whether a stored department, under any user, has this name.
    spec fn holds_department_named(&self, name: Seq<char>) -> bool;

    /// The aggregates of user `id`: none where no such user exists. A fetch
    /// writes nothing; it fails only with a storage error, never because
    /// nothing was found.
    fn find_user_by_id(&mut self, id: i64) -> (r: Result<Vec<UserAggregateRoot>, RepoError>)
        requires
            old(self).ready(),
        ensures
            final(self).ready(),
            old(self).fetch_result(id) matches Ok(s) ==> r matches Ok(v) && users_view(v@) == s,
            old(self).fetch_result(id) matches Err(e) ==> r == Err::<
                Vec<UserAggregateRoot>,
                RepoError,
            >(e),
            r matches Ok(v) ==> users_view(v@) == old(self).found(id),
            r matches Err(e) ==> e == RepoError::Storage,
            forall|i: i64| #[trigger] final(self).found(i) == old(self).found(i),
            forall|n: Seq<char>|
                #[trigger] final(self).holds_user_named(n) == old(self).holds_user_named(n),
            forall|n: Seq<char>|
                #[trigger] final(self).holds_department_named(n) == old(
                    self,
                ).holds_department_named(n),
    ;

    /// Creates a user, with a department of the given name, and returns the
    /// user's new identity. A taken user name, or a taken department name,
    /// fails with `Duplicate`; a failure changes nothing. After a success the
    /// new identity finds exactly the new user and its one department.
    fn create_user(&mut self, user_name: String, department_name: Option<String>) -> (r: Result<
        i64,
        RepoError,
    >)
        requires
            old(self).ready(),
        ensures
            final(self).ready(),
            r == old(self).create_result(user_name@, opt_view(department_name)),
            r == Err::<i64, RepoError>(RepoError::Duplicate) <==> (old(self).holds_user_named(
                user_name@,
            ) || (department_name is Some && old(self).holds_department_named(
                department_name->0@,
            ))),
            r is Err ==> forall|i: i64| #[trigger] final(self).found(i) == old(self).found(i),
            r is Err ==> forall|n: Seq<char>|
                #[trigger] final(self).holds_user_named(n) == old(self).holds_user_named(n),
            r is Err ==> forall|n: Seq<char>|
                #[trigger] final(self).holds_department_named(n) == old(
                    self,
                ).holds_department_named(n),
            r matches Ok(id) ==> {
                let u = final(self).found(id);
                &&& u.len() == 1
                &&& u[0].id == id
                &&& u[0].name == user_name@
                &&& u[0].departments.len() == 1
                &&& u[0].departments[0].user_id == id
                &&& u[0].departments[0].name == match department_name {
                    Some(n) => n@,
                    None => Seq::<char>::empty(),
                }
            },
    ;
}

} // verus!
