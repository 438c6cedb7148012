use vstd::prelude::*;
use crate::domain::{DepartmentView, Timestamp, UserAggregateRoot, UserView, users_view};

verus! {

/// A department as handed to callers.
#[derive(Clone, Debug)]
pub struct Department {
    pub id: i64,
    pub user_id: i64,
    pub name: String,
    pub updated_datetime: Timestamp,
    pub created_datetime: Timestamp,
}

/// A user with its departments, as handed to callers.
#[derive(Clone, Debug)]
pub struct User {
    pub id: i64,
    pub name: String,
    pub updated_datetime: Timestamp,
    pub created_datetime: Timestamp,
    pub departments: Vec<Department>,
}

impl View for Department {
    type V = DepartmentView;

    open spec fn view(&self) -> DepartmentView {
        DepartmentView {
            id: self.id,
            user_id: self.user_id,
            name: self.name@,
            updated_datetime: self.updated_datetime,
            created_datetime: self.created_datetime,
        }
    }
}

impl View for User {
    type V = UserView;

    open spec fn view(&self) -> UserView {
        UserView {
            id: self.id,
            name: self.name@,
            updated_datetime: self.updated_datetime,
            created_datetime: self.created_datetime,
            departments: department_dtos_view(self.departments@),
        }
    }
}

pub open spec fn department_dtos_view(ds: Seq<Department>) -> Seq<DepartmentView> {
    ds.map_values(|d: Department| d@)
}

pub open spec fn dtos_view(us: Seq<User>) -> Seq<UserView> {
    us.map_values(|u: User| u@)
}

/// The caller-facing form of an aggregate: the same fields, departments in
/// the same order.
pub fn user_dto(u: &UserAggregateRoot) -> (r: User)
    ensures
        r@ == u@,
{
    let mut departments: Vec<Department> = Vec::new();
    let mut k: usize = 0;
    while k < u.departments.len()
        invariant
            0 <= k <= u.departments.len(),
            departments.len() == k,
            department_dtos_view(departments@) == u@.departments.subrange(0, k as int),
        decreases u.departments.len() - k,
    {
        let d = &u.departments[k];
        assert(u@.departments[k as int] == d@);
        let ghost prev = departments@;
        departments.push(
            Department {
                id: d.id,
                user_id: d.user_id,
                name: d.name.clone(),
                updated_datetime: d.updated_datetime,
                created_datetime: d.created_datetime,
            },
        );
        assert forall|i: int| 0 <= i < k implies #[trigger] department_dtos_view(departments@)[i]
            == department_dtos_view(prev)[i] by {
            assert(departments@[i] == prev[i]);
        }
        assert(department_dtos_view(departments@) =~= u@.departments.subrange(
            0,
            k + 1,
        ));
        k += 1;
    }
    assert(u@.departments.subrange(0, u.departments.len() as int) =~= u@.departments);
    User {
        id: u.id,
        name: u.name.clone(),
        updated_datetime: u.updated_datetime,
        created_datetime: u.created_datetime,
        departments: departments,
    }
}

/// The caller-facing forms of a sequence of aggregates, in order.
pub fn user_dtos(us: &Vec<UserAggregateRoot>) -> (r: Vec<User>)
    ensures
        dtos_view(r@) == users_view(us@),
{
    let mut r: Vec<User> = Vec::new();
    let mut k: usize = 0;
    while k < us.len()
        invariant
            0 <= k <= us.len(),
            r.len() == k,
            dtos_view(r@) == users_view(us@).subrange(0, k as int),
        decreases us.len() - k,
    {
        let u = user_dto(&us[k]);
        assert(users_view(us@)[k as int] == us@[k as int]@);
        let ghost prev = r@;
        r.push(u);
        assert(r@ == prev.push(u));
        assert(dtos_view(r@)[k as int] == u@);
        assert forall|i: int| 0 <= i < k implies #[trigger] dtos_view(r@)[i] == dtos_view(prev)[i] by {
            assert(r@[i] == prev[i]);
        }
        assert(dtos_view(r@) =~= users_view(us@).subrange(0, k + 1));
        k += 1;
    }
    assert(users_view(us@).subrange(0, us.len() as int) =~= users_view(us@));
    r
}

} // verus!
