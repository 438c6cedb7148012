use vstd::prelude::*;
use crate::domain::{
    Department, DepartmentView, Timestamp, UserAggregateRoot, UserView, departments_view, users_view,
};

verus! {

/// One row of the outer join of users to departments: the user's columns, and
/// the department's columns, which are all null where the user has none.
#[derive(Clone, Debug)]
pub struct FetchUserByIdRow {
    pub user_id: i64,
    pub user_name: String,
    pub user_updated_datetime: Timestamp,
    pub user_created_datetime: Timestamp,
    pub department_id: Option<i64>,
    pub department_name: Option<String>,
    pub department_updated_datetime: Option<Timestamp>,
    pub department_created_datetime: Option<Timestamp>,
}

pub struct RowView {
    pub user_id: i64,
    pub user_name: Seq<char>,
    pub user_updated_datetime: Timestamp,
    pub user_created_datetime: Timestamp,
    pub department_id: Option<i64>,
    pub department_name: Option<Seq<char>>,
    pub department_updated_datetime: Option<Timestamp>,
    pub department_created_datetime: Option<Timestamp>,
}

impl View for FetchUserByIdRow {
    type V = RowView;

    open spec fn view(&self) -> RowView {
        RowView {
            user_id: self.user_id,
            user_name: self.user_name@,
            user_updated_datetime: self.user_updated_datetime,
            user_created_datetime: self.user_created_datetime,
            department_id: self.department_id,
            department_name: match self.department_name {
                Some(n) => Some(n@),
                None => None,
            },
            department_updated_datetime: self.department_updated_datetime,
            department_created_datetime: self.department_created_datetime,
        }
    }
}

pub open spec fn rows_view(rows: Seq<FetchUserByIdRow>) -> Seq<RowView> {
    rows.map_values(|r: FetchUserByIdRow| r@)
}

pub open spec fn name_or_empty(o: Option<Seq<char>>) -> Seq<char> {
    match o {
        Some(s) => s,
        None => Seq::empty(),
    }
}

pub open spec fn time_or_epoch(o: Option<Timestamp>) -> Timestamp {
    match o {
        Some(t) => t,
        None => Timestamp { micros: 0 },
    }
}

/// The department that a row with a non-null department identity carries;
/// missing department fields fall back to the empty name and the epoch.
pub open spec fn department_of_row(r: RowView) -> DepartmentView {
    DepartmentView {
        id: r.department_id->0,
        user_id: r.user_id,
        name: name_or_empty(r.department_name),
        updated_datetime: time_or_epoch(r.department_updated_datetime),
        created_datetime: time_or_epoch(r.department_created_datetime),
    }
}

pub open spec fn row_ids(rows: Seq<RowView>) -> Seq<i64> {
    rows.map_values(|r: RowView| r.user_id)
}

/// The distinct identities of `ids`, in the order of their first occurrence.
pub open spec fn first_seen(ids: Seq<i64>) -> Seq<i64>
    decreases ids.len(),
{
    if ids.len() == 0 {
        Seq::empty()
    } else {
        let prev = first_seen(ids.drop_last());
        if prev.contains(ids.last()) {
            prev
        } else {
            prev.push(ids.last())
        }
    }
}

/// The departments of the rows of user `id` whose department identity is
/// not null, in row order.
pub open spec fn departments_for(rows: Seq<RowView>, id: i64) -> Seq<DepartmentView>
    decreases rows.len(),
{
    if rows.len() == 0 {
        Seq::empty()
    } else {
        let prev = departments_for(rows.drop_last(), id);
        let r = rows.last();
        if r.user_id == id && r.department_id is Some {
            prev.push(department_of_row(r))
        } else {
            prev
        }
    }
}

/// The first row of user `id` (meaningful where some row has that identity).
pub open spec fn first_row_for(rows: Seq<RowView>, id: i64) -> RowView
    decreases rows.len(),
{
    if rows.len() == 0 {
        arbitrary()
    } else if row_ids(rows.drop_last()).contains(id) {
        first_row_for(rows.drop_last(), id)
    } else {
        rows.last()
    }
}

/// The aggregate of user `id`: its columns from its first row, its
/// departments from all of its rows.
pub open spec fn aggregate_for(rows: Seq<RowView>, id: i64) -> UserView {
    let r = first_row_for(rows, id);
    UserView {
        id: id,
        name: r.user_name,
        updated_datetime: r.user_updated_datetime,
        created_datetime: r.user_created_datetime,
        departments: departments_for(rows, id),
    }
}

/// The aggregates that a sequence of join rows stands for: one per distinct
/// user identity, in first-seen order.
pub open spec fn reconstruct(rows: Seq<RowView>) -> Seq<UserView> {
    first_seen(row_ids(rows)).map_values(|id: i64| aggregate_for(rows, id))
}

pub proof fn lemma_first_seen_contains(ids: Seq<i64>)
    ensures
        forall|x: i64| first_seen(ids).contains(x) <==> ids.contains(x),
        first_seen(ids).no_duplicates(),
    decreases ids.len(),
{
    if ids.len() > 0 {
        let prev = ids.drop_last();
        lemma_first_seen_contains(prev);
        let fp = first_seen(prev);
        assert forall|x: i64| fp.push(ids.last()).contains(x) <==> (fp.contains(x) || x == ids.last()) by {
            if fp.push(ids.last()).contains(x) {
                let i = choose|i: int| 0 <= i < fp.len() + 1 && fp.push(ids.last())[i] == x;
                if i < fp.len() {
                    assert(fp[i] == x);
                }
            }
            if fp.contains(x) {
                let i = choose|i: int| 0 <= i < fp.len() && fp[i] == x;
                assert(fp.push(ids.last())[i] == x);
            }
            if x == ids.last() {
                assert(fp.push(ids.last())[fp.len() as int] == x);
            }
        }
        assert forall|x: i64| ids.contains(x) <==> (prev.contains(x) || x == ids.last()) by {
            if ids.contains(x) {
                let i = choose|i: int| 0 <= i < ids.len() && ids[i] == x;
                if i < ids.len() - 1 {
                    assert(prev[i] == x);
                }
            }
            if prev.contains(x) {
                let i = choose|i: int| 0 <= i < prev.len() && prev[i] == x;
                assert(ids[i] == x);
            }
            if x == ids.last() {
                assert(ids[ids.len() - 1] == x);
            }
        }
    }
}

pub proof fn lemma_departments_for_absent(rows: Seq<RowView>, id: i64)
    requires
        !row_ids(rows).contains(id),
    ensures
        departments_for(rows, id) == Seq::<DepartmentView>::empty(),
    decreases rows.len(),
{
    if rows.len() > 0 {
        let prev = rows.drop_last();
        assert(row_ids(rows)[rows.len() - 1] == rows.last().user_id);
        assert forall|x: i64| row_ids(prev).contains(x) implies row_ids(rows).contains(x) by {
            let i = choose|i: int| 0 <= i < row_ids(prev).len() && row_ids(prev)[i] == x;
            assert(row_ids(rows)[i] == x);
        }
        lemma_departments_for_absent(prev, id);
    }
}

pub proof fn lemma_row_ids_push(rows: Seq<RowView>, r: RowView)
    ensures
        row_ids(rows.push(r)) == row_ids(rows).push(r.user_id),
        rows.push(r).drop_last() == rows,
        rows.push(r).last() == r,
{
    assert(row_ids(rows.push(r)) =~= row_ids(rows).push(r.user_id));
    assert(rows.push(r).drop_last() =~= rows);
}

/// What one more row does to the reconstruction: it either adds to the
/// aggregate of a user seen before, or appends the aggregate of a new user.
pub proof fn lemma_reconstruct_push(rows: Seq<RowView>, r: RowView)
    ensures
        ({
            let before = reconstruct(rows);
            let after = reconstruct(rows.push(r));
            let ids = first_seen(row_ids(rows));
            if row_ids(rows).contains(r.user_id) {
                &&& after.len() == before.len()
                &&& forall|k: int|
                    0 <= k < before.len() ==> #[trigger] after[k] == if ids[k] == r.user_id {
                        UserView {
                            departments: if r.department_id is Some {
                                before[k].departments.push(department_of_row(r))
                            } else {
                                before[k].departments
                            },
                            ..before[k]
                        }
                    } else {
                        before[k]
                    }
            } else {
                &&& after.len() == before.len() + 1
                &&& forall|k: int| 0 <= k < before.len() ==> #[trigger] after[k] == before[k]
                &&& after[before.len() as int] == UserView {
                    id: r.user_id,
                    name: r.user_name,
                    updated_datetime: r.user_updated_datetime,
                    created_datetime: r.user_created_datetime,
                    departments: if r.department_id is Some {
                        seq![department_of_row(r)]
                    } else {
                        Seq::empty()
                    },
                }
            }
        }),
{
    let rows2 = rows.push(r);
    lemma_row_ids_push(rows, r);
    lemma_first_seen_contains(row_ids(rows));
    let ids = first_seen(row_ids(rows));
    assert(row_ids(rows2).drop_last() == row_ids(rows));
    assert(row_ids(rows2).last() == r.user_id);
    assert forall|k: int| 0 <= k < ids.len() && ids[k] != r.user_id implies aggregate_for(rows2, ids[k])
        == aggregate_for(rows, ids[k]) by {
        assert(ids.contains(ids[k]));
    }
    if !row_ids(rows).contains(r.user_id) {
        lemma_departments_for_absent(rows, r.user_id);
        assert(departments_for(rows2, r.user_id) =~= if r.department_id is Some {
            seq![department_of_row(r)]
        } else {
            Seq::<DepartmentView>::empty()
        });
    }
}

/// The rows of user `id` that carry a department.
pub open spec fn has_department_of(id: i64) -> spec_fn(RowView) -> bool {
    |r: RowView| r.user_id == id && r.department_id is Some
}

pub proof fn lemma_departments_for_filter(rows: Seq<RowView>, id: i64)
    ensures
        departments_for(rows, id) == rows.filter(has_department_of(id)).map_values(
            |r: RowView| department_of_row(r),
        ),
    decreases rows.len(),
{
    reveal(Seq::filter);
    if rows.len() > 0 {
        lemma_departments_for_filter(rows.drop_last(), id);
        let f = rows.drop_last().filter(has_department_of(id));
        assert(f.push(rows.last()).map_values(|r: RowView| department_of_row(r)) =~= f.map_values(
            |r: RowView| department_of_row(r),
        ).push(department_of_row(rows.last())));
    }
}

/// `res` holds exactly one aggregate per distinct user identity of `rows`,
/// in the order in which the identities first occur; each holds the user
/// columns of its first row and exactly the departments of its rows whose
/// department identity is not null, in row order.
pub open spec fn one_per_identity(rows: Seq<RowView>, res: Seq<UserView>) -> bool {
    &&& res.map_values(|u: UserView| u.id) == first_seen(row_ids(rows))
    &&& forall|i: int, j: int| 0 <= i < j < res.len() ==> #[trigger] res[i].id != #[trigger] res[j].id
    &&& forall|id: i64|
        row_ids(rows).contains(id) <==> exists|k: int| 0 <= k < res.len() && #[trigger] res[k].id == id
    &&& forall|k: int|
        0 <= k < res.len() ==> (#[trigger] res[k]).departments == rows.filter(
            has_department_of(res[k].id),
        ).map_values(|r: RowView| department_of_row(r))
    &&& forall|k: int|
        0 <= k < res.len() ==> (#[trigger] res[k]).name == first_row_for(rows, res[k].id).user_name
}

/// No row of user `id` carries a department identity.
pub open spec fn no_department_rows(rows: Seq<RowView>, id: i64) -> bool {
    forall|i: int| 0 <= i < rows.len() && (#[trigger] rows[i]).user_id == id ==> rows[i].department_id is None
}

/// Reconstruction gives exactly one aggregate per distinct user identity of
/// the rows, in the order in which the identities first occur; each holds
/// the user columns of its first row and exactly the departments of its
/// rows whose department identity is not null, in row order.
pub proof fn lemma_one_aggregate_per_identity(rows: Seq<RowView>)
    ensures
        one_per_identity(rows, reconstruct(rows)),
{
    let res = reconstruct(rows);
    let ids = first_seen(row_ids(rows));
    lemma_first_seen_contains(row_ids(rows));
    assert(res.map_values(|u: UserView| u.id) =~= ids);
    assert forall|id: i64| row_ids(rows).contains(id) implies exists|k: int|
        0 <= k < res.len() && #[trigger] res[k].id == id by {
        let k = choose|k: int| 0 <= k < ids.len() && ids[k] == id;
        assert(res[k].id == id);
    }
    assert forall|id: i64| (exists|k: int| 0 <= k < res.len() && #[trigger] res[k].id == id)
        implies row_ids(rows).contains(id) by {
        let k = choose|k: int| 0 <= k < res.len() && #[trigger] res[k].id == id;
        assert(ids[k] == id);
    }
    assert forall|k: int| 0 <= k < res.len() implies (#[trigger] res[k]).departments
        == rows.filter(has_department_of(res[k].id)).map_values(
        |r: RowView| department_of_row(r),
    ) by {
        lemma_departments_for_filter(rows, res[k].id);
    }
}

/// A user whose rows carry no department identity reconstructs to an
/// aggregate with no departments.
pub proof fn lemma_no_department_rows(rows: Seq<RowView>, id: i64)
    requires
        no_department_rows(rows, id),
    ensures
        forall|k: int|
            0 <= k < reconstruct(rows).len() && (#[trigger] reconstruct(rows)[k]).id == id
                ==> reconstruct(rows)[k].departments.len() == 0,
{
    lemma_dept_empty(rows, id);
}

proof fn lemma_dept_empty(rows: Seq<RowView>, id: i64)
    requires
        forall|i: int| 0 <= i < rows.len() && (#[trigger] rows[i]).user_id == id ==> rows[i].department_id is None,
    ensures
        departments_for(rows, id).len() == 0,
    decreases rows.len(),
{
    if rows.len() > 0 {
        let prev = rows.drop_last();
        assert forall|i: int| 0 <= i < prev.len() && (#[trigger] prev[i]).user_id == id implies prev[i].department_id is None by {
            assert(rows[i] == prev[i]);
        }
        lemma_dept_empty(prev, id);
        assert(rows[rows.len() - 1] == rows.last());
    }
}

/// Builds the department that a row with a non-null department identity carries.
fn department_from_row(row: &FetchUserByIdRow) -> (d: Department)
    requires
        row.department_id is Some,
    ensures
        d@ == department_of_row(row@),
{
    let name = match &row.department_name {
        Some(n) => n.clone(),
        None => String::new(),
    };
    let updated = match row.department_updated_datetime {
        Some(t) => t,
        None => Timestamp::epoch(),
    };
    let created = match row.department_created_datetime {
        Some(t) => t,
        None => Timestamp::epoch(),
    };
    let id = match row.department_id {
        Some(id) => id,
        None => 0,
    };
    Department {
        id: id,
        user_id: row.user_id,
        name: name,
        updated_datetime: updated,
        created_datetime: created,
    }
}

/// Folds the rows of an outer join of users to departments into aggregates:
/// one per distinct user identity, in first-seen order, each holding exactly
/// the departments of its rows whose department identity is not null.
pub fn reconstruct_users(rows: &Vec<FetchUserByIdRow>) -> (r: Vec<UserAggregateRoot>)
    ensures
        users_view(r@) == reconstruct(rows_view(rows@)),
        one_per_identity(rows_view(rows@), users_view(r@)),
        forall|id: i64|
            #![trigger no_department_rows(rows_view(rows@), id)]
            no_department_rows(rows_view(rows@), id) ==> forall|k: int|
                0 <= k < r.len() && (#[trigger] users_view(r@)[k]).id == id
                    ==> users_view(r@)[k].departments.len() == 0,
{
    let mut acc: Vec<UserAggregateRoot> = Vec::new();
    let mut i: usize = 0;
    assert(rows_view(rows@.subrange(0, 0)) =~= Seq::<RowView>::empty());
    assert(users_view(acc@) =~= reconstruct(Seq::<RowView>::empty()));
    while i < rows.len()
        invariant
            0 <= i <= rows.len(),
            users_view(acc@) == reconstruct(rows_view(rows@.subrange(0, i as int))),
        decreases rows.len() - i,
    {
        let row = &rows[i];
        let ghost seen = rows_view(rows@.subrange(0, i as int));
        proof {
            lemma_reconstruct_push(seen, row@);
            lemma_first_seen_contains(row_ids(seen));
            assert(rows_view(rows@.subrange(0, i + 1)) =~= seen.push(row@));
        }
        let ghost ids = first_seen(row_ids(seen));
        let mut j: usize = 0;
        let mut found = false;
        while j < acc.len() && !found
            invariant
                0 <= j <= acc.len(),
                users_view(acc@) == reconstruct(seen),
                !found ==> forall|k: int| 0 <= k < j ==> acc@[k].id != row.user_id,
                found ==> j < acc.len() && acc@[j as int].id == row.user_id,
            decreases acc.len() - j + (if found { 0int } else { 1int }),
        {
            if acc[j].id == row.user_id {
                found = true;
            } else {
                j += 1;
            }
        }
        proof {
            assert forall|k: int| 0 <= k < acc.len() implies acc@[k].id == ids[k] by {
                assert(users_view(acc@)[k] == acc@[k]@);
            }
        }
        if found {
            proof {
                assert(ids[j as int] == row.user_id);
                assert(ids.contains(row.user_id));
            }
            if row.department_id.is_some() {
                let d = department_from_row(row);
                let mut user = acc.remove(j);
                let ghost old_user = user;
                user.departments.push(d);
                proof {
                    assert(departments_view(user.departments@) =~= departments_view(
                        old_user.departments@,
                    ).push(d@));
                }
                acc.insert(j, user);
            }
            proof {
                let after = reconstruct(seen.push(row@));
                assert forall|k: int| 0 <= k < acc.len() implies users_view(acc@)[k] == after[k] by {
                    if k != j {
                        assert(ids[k] != row.user_id) by {
                            assert(ids.no_duplicates());
                        }
                    }
                }
                assert(users_view(acc@) =~= after);
            }
        } else {
            proof {
                assert(!ids.contains(row.user_id)) by {
                    if ids.contains(row.user_id) {
                        let k = choose|k: int| 0 <= k < ids.len() && ids[k] == row.user_id;
                        assert(acc@[k].id == ids[k]);
                    }
                }
            }
            let departments = if row.department_id.is_some() {
                let d = department_from_row(row);
                let mut ds: Vec<Department> = Vec::new();
                ds.push(d);
                proof {
                    assert(departments_view(ds@) =~= seq![department_of_row(row@)]);
                }
                ds
            } else {
                let ds: Vec<Department> = Vec::new();
                proof {
                    assert(departments_view(ds@) =~= Seq::<DepartmentView>::empty());
                }
                ds
            };
            let user = UserAggregateRoot {
                id: row.user_id,
                name: row.user_name.clone(),
                updated_datetime: row.user_updated_datetime,
                created_datetime: row.user_created_datetime,
                departments: departments,
            };
            let ghost old_acc = acc@;
            acc.push(user);
            proof {
                let after = reconstruct(seen.push(row@));
                assert(users_view(acc@) =~= after) by {
                    assert forall|k: int| 0 <= k < acc.len() implies users_view(acc@)[k]
                        == after[k] by {
                        if k < old_acc.len() {
                            assert(acc@[k] == old_acc[k]);
                            assert(users_view(old_acc)[k] == old_acc[k]@);
                        }
                    }
                }
            }
        }
        i += 1;
    }
    assert(rows@.subrange(0, rows.len() as int) =~= rows@);
    proof {
        lemma_one_aggregate_per_identity(rows_view(rows@));
        assert forall|id: i64| #![trigger no_department_rows(rows_view(rows@), id)]
            no_department_rows(rows_view(rows@), id) implies forall|k: int|
                0 <= k < acc.len() && (#[trigger] users_view(acc@)[k]).id == id
                    ==> users_view(acc@)[k].departments.len() == 0 by {
            lemma_no_department_rows(rows_view(rows@), id);
        }
    }
    acc
}

} // verus!
