use vstd::prelude::*;
use crate::domain::{RepoError, UserAggregateRepository, opt_view};
use crate::dtos::{User, dtos_view, user_dtos};

verus! {

/// Asks for the user with identity `user_id`.
#[derive(Clone, Debug)]
pub struct FetchUserByIdQuery {
    pub user_id: i64,
}

/// Asks for a new user, with a department where a name is given.
#[derive(Clone, Debug)]
pub struct CreateUser {
    pub user_name: String,
    pub department_name: Option<String>,
}

/// Fetches the user that `payload` names from `repo`, in caller-facing form:
/// the aggregates that the repository holds for it, field for field and in
/// order.
pub fn fetch_user_by_id<R: UserAggregateRepository>(mut repo: R, payload: FetchUserByIdQuery) -> (r:
    Result<Vec<User>, RepoError>)
    requires
        repo.ready(),
    ensures
        repo.fetch_result(payload.user_id) matches Ok(s) ==> r matches Ok(w) && dtos_view(w@) == s,
        repo.fetch_result(payload.user_id) matches Err(e) ==> r == Err::<Vec<User>, RepoError>(e),
        r matches Ok(w) ==> dtos_view(w@) == repo.found(payload.user_id),
        r matches Err(e) ==> e == RepoError::Storage,
{
    match repo.find_user_by_id(payload.user_id) {
        Ok(found) => {
            let v = user_dtos(&found);
            Ok(v)
        },
        Err(e) => Err(e),
    }
}

/// Creates the user that `payload` describes in `repo`, and returns what the
/// repository returned: a taken user or department name fails with
/// `Duplicate`, and a new identity finds exactly the new user and its one
/// department.
pub fn create_user<R: UserAggregateRepository>(mut repo: R, payload: CreateUser) -> (r: Result<
    i64,
    RepoError,
>)
    requires
        repo.ready(),
    ensures
        r == repo.create_result(payload.user_name@, opt_view(payload.department_name)),
        r == Err::<i64, RepoError>(RepoError::Duplicate) <==> (repo.holds_user_named(
            payload.user_name@,
        ) || (payload.department_name is Some && repo.holds_department_named(
            payload.department_name->0@,
        ))),
        r matches Ok(id) ==> exists|s: R|
            {
                let u = #[trigger] s.found(id);
                &&& s.ready()
                &&& u.len() == 1
                &&& u[0].id == id
                &&& u[0].name == payload.user_name@
                &&& u[0].departments.len() == 1
                &&& u[0].departments[0].user_id == id
                &&& u[0].departments[0].name == match payload.department_name {
                    Some(n) => n@,
                    None => Seq::<char>::empty(),
                }
            },
{
    let r = repo.create_user(payload.user_name, payload.department_name);
    proof {
        if r is Ok {
            let id = r->Ok_0;
            assert(repo.found(id).len() == 1);
        }
    }
    r
}

} // verus!
