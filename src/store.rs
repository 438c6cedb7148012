use vstd::prelude::*;
use crate::domain::{
    DepartmentView, RepoError, Timestamp, UserAggregateRepository, UserAggregateRoot, UserView,
    opt_view, users_view,
};
use crate::rows::{
    FetchUserByIdRow, RowView, lemma_reconstruct_push, name_or_empty, one_per_identity, reconstruct,
    reconstruct_users, rows_view,
};

verus! {

/// A stored user row.
#[derive(Debug)]
pub struct UserRecord {
    pub id: i64,
    pub name: String,
    pub updated_datetime: Timestamp,
    pub created_datetime: Timestamp,
}

/// A stored department row; its name may be null.
#[derive(Debug)]
pub struct DepartmentRecord {
    pub id: i64,
    pub user_id: i64,
    pub name: Option<String>,
    pub updated_datetime: Timestamp,
    pub created_datetime: Timestamp,
}

pub struct UserRecordView {
    pub id: i64,
    pub name: Seq<char>,
    pub updated_datetime: Timestamp,
    pub created_datetime: Timestamp,
}

pub struct DepartmentRecordView {
    pub id: i64,
    pub user_id: i64,
    pub name: Option<Seq<char>>,
    pub updated_datetime: Timestamp,
    pub created_datetime: Timestamp,
}

pub struct StoreView {
    pub users: Seq<UserRecordView>,
    pub departments: Seq<DepartmentRecordView>,
}

impl View for UserRecord {
    type V = UserRecordView;

    open spec fn view(&self) -> UserRecordView {
        UserRecordView {
            id: self.id,
            name: self.name@,
            updated_datetime: self.updated_datetime,
            created_datetime: self.created_datetime,
        }
    }
}

impl View for DepartmentRecord {
    type V = DepartmentRecordView;

    open spec fn view(&self) -> DepartmentRecordView {
        DepartmentRecordView {
            id: self.id,
            user_id: self.user_id,
            name: opt_view(self.name),
            updated_datetime: self.updated_datetime,
            created_datetime: self.created_datetime,
        }
    }
}

/// The users and departments tables, held in memory. Identities are
/// assigned from 1 upwards in insertion order, as a row id would be. Rows
/// that `create` writes are stamped with the store's clock, which its owner
/// sets.
pub struct MemoryStore {
    users: Vec<UserRecord>,
    departments: Vec<DepartmentRecord>,
    now: Timestamp,
}

impl View for MemoryStore {
    type V = StoreView;

    closed spec fn view(&self) -> StoreView {
        StoreView {
            users: self.users@.map_values(|u: UserRecord| u@),
            departments: self.departments@.map_values(|d: DepartmentRecord| d@),
        }
    }
}

/// Identities follow the row order, every department belongs to a stored
/// user, and no two users, nor two named departments, share a name.
pub open spec fn store_wf(m: StoreView) -> bool {
    &&& forall|k: int| 0 <= k < m.users.len() ==> #[trigger] m.users[k].id == k + 1
    &&& forall|k: int| 0 <= k < m.departments.len() ==> #[trigger] m.departments[k].id == k + 1
    &&& forall|k: int|
        0 <= k < m.departments.len() ==> 1 <= #[trigger] m.departments[k].user_id <= m.users.len()
    &&& forall|i: int, j: int|
        0 <= i < j < m.users.len() ==> #[trigger] m.users[i].name != #[trigger] m.users[j].name
    &&& forall|i: int, j: int|
        0 <= i < j < m.departments.len() && #[trigger] m.departments[i].name is Some
            ==> #[trigger] m.departments[j].name != m.departments[i].name
    &&& m.users.len() < i64::MAX
    &&& m.departments.len() < i64::MAX
}

pub open spec fn user_name_taken(m: StoreView, name: Seq<char>) -> bool {
    exists|k: int| 0 <= k < m.users.len() && #[trigger] m.users[k].name == name
}

pub open spec fn department_name_taken(m: StoreView, name: Seq<char>) -> bool {
    exists|k: int| 0 <= k < m.departments.len() && #[trigger] m.departments[k].name == Some(name)
}

/// Whether the store has room for one more user and one more department.
pub open spec fn has_room(m: StoreView) -> bool {
    m.users.len() + 1 < i64::MAX && m.departments.len() + 1 < i64::MAX
}

/// What a create returns: `Duplicate` where the user name is taken, or a
/// department name is given and taken by any department; else `Storage`
/// where the store is full; else the next user identity.
pub open spec fn create_outcome(
    m: StoreView,
    user_name: Seq<char>,
    department_name: Option<Seq<char>>,
) -> Result<i64, RepoError> {
    if user_name_taken(m, user_name) || (department_name is Some && department_name_taken(
        m,
        department_name->0,
    )) {
        Err(RepoError::Duplicate)
    } else if !has_room(m) {
        Err(RepoError::Storage)
    } else {
        Ok((m.users.len() + 1) as i64)
    }
}

/// The store after a successful create: one user row, and one department
/// row that refers to it and carries the given name, or null.
pub open spec fn store_after_create(
    m: StoreView,
    user_name: Seq<char>,
    department_name: Option<Seq<char>>,
    now: Timestamp,
) -> StoreView {
    StoreView {
        users: m.users.push(
            UserRecordView {
                id: (m.users.len() + 1) as i64,
                name: user_name,
                updated_datetime: now,
                created_datetime: now,
            },
        ),
        departments: m.departments.push(
            DepartmentRecordView {
                id: (m.departments.len() + 1) as i64,
                user_id: (m.users.len() + 1) as i64,
                name: department_name,
                updated_datetime: now,
                created_datetime: now,
            },
        ),
    }
}

/// The join row of user `u` with department `d`.
pub open spec fn joined_row(u: UserRecordView, d: DepartmentRecordView) -> RowView {
    RowView {
        user_id: u.id,
        user_name: u.name,
        user_updated_datetime: u.updated_datetime,
        user_created_datetime: u.created_datetime,
        department_id: Some(d.id),
        department_name: d.name,
        department_updated_datetime: Some(d.updated_datetime),
        department_created_datetime: Some(d.created_datetime),
    }
}

/// The join row of user `u` with no department: null department columns.
pub open spec fn lone_row(u: UserRecordView) -> RowView {
    RowView {
        user_id: u.id,
        user_name: u.name,
        user_updated_datetime: u.updated_datetime,
        user_created_datetime: u.created_datetime,
        department_id: None,
        department_name: None,
        department_updated_datetime: None,
        department_created_datetime: None,
    }
}

/// The rows of user `u` joined with those of `ds` that refer to it, in order.
pub open spec fn matched_rows(u: UserRecordView, ds: Seq<DepartmentRecordView>) -> Seq<RowView>
    decreases ds.len(),
{
    if ds.len() == 0 {
        Seq::empty()
    } else {
        let prev = matched_rows(u, ds.drop_last());
        if ds.last().user_id == u.id {
            prev.push(joined_row(u, ds.last()))
        } else {
            prev
        }
    }
}

/// The outer join of the users to the departments, restricted to user `id`.
pub open spec fn join_rows(m: StoreView, id: i64) -> Seq<RowView> {
    if 1 <= id <= m.users.len() {
        let u = m.users[id - 1];
        let matched = matched_rows(u, m.departments);
        if matched.len() == 0 {
            seq![lone_row(u)]
        } else {
            matched
        }
    } else {
        Seq::empty()
    }
}

/// What fetching user `id` from a store returns.
pub open spec fn fetched(m: StoreView, id: i64) -> Seq<UserView> {
    reconstruct(join_rows(m, id))
}

proof fn lemma_matched_none(u: UserRecordView, ds: Seq<DepartmentRecordView>)
    requires
        forall|k: int| 0 <= k < ds.len() ==> (#[trigger] ds[k]).user_id != u.id,
    ensures
        matched_rows(u, ds) == Seq::<RowView>::empty(),
    decreases ds.len(),
{
    if ds.len() > 0 {
        let prev = ds.drop_last();
        assert forall|k: int| 0 <= k < prev.len() implies (#[trigger] prev[k]).user_id != u.id by {
            assert(prev[k] == ds[k]);
        }
        lemma_matched_none(u, prev);
        assert(ds[ds.len() - 1] == ds.last());
    }
}

/// Fetching right after a successful create, by the identity that it
/// returned, gives exactly one aggregate: the new user, with the given name
/// and the creation time, holding one department that refers to it and
/// carries the given department name, or the empty name where none was given.
pub proof fn lemma_create_then_fetch(
    m: StoreView,
    user_name: Seq<char>,
    department_name: Option<Seq<char>>,
    now: Timestamp,
)
    requires
        store_wf(m),
        has_room(m),
    ensures
        ({
            let id = (m.users.len() + 1) as i64;
            fetched(store_after_create(m, user_name, department_name, now), id) == seq![
                UserView {
                    id: id,
                    name: user_name,
                    updated_datetime: now,
                    created_datetime: now,
                    departments: seq![
                        DepartmentView {
                            id: (m.departments.len() + 1) as i64,
                            user_id: id,
                            name: name_or_empty(department_name),
                            updated_datetime: now,
                            created_datetime: now,
                        },
                    ],
                },
            ]
        }),
{
    let id = (m.users.len() + 1) as i64;
    let m2 = store_after_create(m, user_name, department_name, now);
    let u = m2.users[id - 1];
    let d = m2.departments.last();
    assert forall|k: int| 0 <= k < m.departments.len() implies (#[trigger] m.departments[k]).user_id
        != u.id by {}
    lemma_matched_none(u, m.departments);
    assert(m2.departments.drop_last() =~= m.departments);
    let row = joined_row(u, d);
    assert(matched_rows(u, m2.departments) =~= seq![row]);
    assert(join_rows(m2, id) =~= Seq::<RowView>::empty().push(row));
    lemma_reconstruct_push(Seq::<RowView>::empty(), row);
    assert(reconstruct(Seq::<RowView>::empty()) =~= Seq::<UserView>::empty());
    assert(fetched(m2, id) =~= seq![
        UserView {
            id: id,
            name: user_name,
            updated_datetime: now,
            created_datetime: now,
            departments: seq![
                DepartmentView {
                    id: (m.departments.len() + 1) as i64,
                    user_id: id,
                    name: name_or_empty(department_name),
                    updated_datetime: now,
                    created_datetime: now,
                },
            ],
        },
    ]);
}

/// Fetching an identity that no stored user has gives no aggregate; in
/// particular, every fetch from an empty store does.
pub proof fn lemma_fetch_unknown(m: StoreView, id: i64)
    requires
        store_wf(m),
        !(1 <= id <= m.users.len()),
    ensures
        fetched(m, id) == Seq::<UserView>::empty(),
{
    assert(fetched(m, id) =~= Seq::<UserView>::empty());
}

/// Copies an optional name.
fn copy_name(o: &Option<String>) -> (r: Option<String>)
    ensures
        opt_view(r) == opt_view(*o),
{
    match o {
        Some(s) => Some(s.clone()),
        None => None,
    }
}

impl MemoryStore {
    pub open spec fn wf(&self) -> bool {
        store_wf(self@)
    }

    /// An empty store.
    /// The time that `create` stamps on the rows it writes.
    pub closed spec fn clock(&self) -> Timestamp {
        self.now
    }

    /// An empty store, its clock at the epoch.
    pub fn new() -> (r: MemoryStore)
        ensures
            r.wf(),
            r.clock() == (Timestamp { micros: 0 }),
            r@.users.len() == 0,
            r@.departments.len() == 0,
    {
        let r = MemoryStore { users: Vec::new(), departments: Vec::new(), now: Timestamp { micros: 0 } };
        assert(r@.users =~= Seq::<UserRecordView>::empty());
        assert(r@.departments =~= Seq::<DepartmentRecordView>::empty());
        r
    }

    /// The number of stored users.
    pub fn user_count(&self) -> (r: usize)
        ensures
            r == self@.users.len(),
    {
        self.users.len()
    }

    /// The number of stored departments.
    pub fn department_count(&self) -> (r: usize)
        ensures
            r == self@.departments.len(),
    {
        self.departments.len()
    }

    fn has_user_named(&self, name: &String) -> (r: bool)
        ensures
            r == user_name_taken(self@, name@),
    {
        let mut k: usize = 0;
        while k < self.users.len()
            invariant
                0 <= k <= self.users.len(),
                forall|j: int| 0 <= j < k ==> self@.users[j].name != name@,
            decreases self.users.len() - k,
        {
            assert(self@.users[k as int] == self.users@[k as int]@);
            if self.users[k].name == *name {
                assert(self@.users[k as int].name == name@);
                return true;
            }
            k += 1;
        }
        false
    }

    fn has_department_named(&self, name: &String) -> (r: bool)
        ensures
            r == department_name_taken(self@, name@),
    {
        let mut k: usize = 0;
        while k < self.departments.len()
            invariant
                0 <= k <= self.departments.len(),
                forall|j: int| 0 <= j < k ==> self@.departments[j].name != Some(name@),
            decreases self.departments.len() - k,
        {
            assert(self@.departments[k as int] == self.departments@[k as int]@);
            match &self.departments[k].name {
                Some(n) => {
                    if *n == *name {
                        assert(self@.departments[k as int].name == Some(name@));
                        return true;
                    }
                },
                None => {},
            }
            k += 1;
        }
        false
    }

    /// Creates a user, and a department row that refers to it, stamped with
    /// `now`. Fails with `Duplicate`, writing nothing, where the user name is
    /// taken, or a department name is given and taken by any department.
    /// Where no department name is given, the department row has a null
    /// name. Fails with `Storage`, writing nothing, where the store is full.
    pub fn create_user_at(
        &mut self,
        user_name: String,
        department_name: Option<String>,
        now: Timestamp,
    ) -> (r: Result<i64, RepoError>)
        requires
            old(self).wf(),
        ensures
            final(self).wf(),
            final(self).clock() == old(self).clock(),
            r == create_outcome(old(self)@, user_name@, opt_view(department_name)),
            r is Err ==> final(self)@ == old(self)@,
            r is Ok ==> final(self)@ == store_after_create(
                old(self)@,
                user_name@,
                opt_view(department_name),
                now,
            ),
    {
        if self.has_user_named(&user_name) {
            return Err(RepoError::Duplicate);
        }
        match &department_name {
            Some(n) => {
                if self.has_department_named(n) {
                    return Err(RepoError::Duplicate);
                }
            },
            None => {},
        }
        if self.users.len() as u64 >= 0x7fff_ffff_ffff_fffe || self.departments.len() as u64
            >= 0x7fff_ffff_ffff_fffe {
            return Err(RepoError::Storage);
        }
        let ghost m = self@;
        let user_id: i64 = self.users.len() as i64 + 1;
        let department_id: i64 = self.departments.len() as i64 + 1;
        self.users.push(
            UserRecord {
                id: user_id,
                name: user_name,
                updated_datetime: now,
                created_datetime: now,
            },
        );
        let ghost dname = opt_view(department_name);
        self.departments.push(
            DepartmentRecord {
                id: department_id,
                user_id: user_id,
                name: department_name,
                updated_datetime: now,
                created_datetime: now,
            },
        );
        proof {
            let m2 = store_after_create(m, user_name@, dname, now);
            assert(self@.users =~= m2.users);
            assert(self@.departments =~= m2.departments);
            assert forall|i: int, j: int|
                0 <= i < j < m2.departments.len() && #[trigger] m2.departments[i].name is Some
                    implies #[trigger] m2.departments[j].name != m2.departments[i].name by {
                if j == m2.departments.len() - 1 && dname is Some {
                    assert(m2.departments[i] == m.departments[i]);
                }
            }
        }
        Ok(user_id)
    }

    /// Sets the time that later creates stamp on their rows.
    pub fn set_clock(&mut self, now: Timestamp)
        ensures
            final(self)@ == old(self)@,
            final(self).clock() == now,
    {
        self.now = now;
    }

    /// Creates a user as `create_user_at` does, stamped with the store's
    /// clock. A new identity differs from every stored one.
    pub fn create(&mut self, user_name: String, department_name: Option<String>) -> (r: Result<
        i64,
        RepoError,
    >)
        requires
            old(self).wf(),
        ensures
            final(self).wf(),
            final(self).clock() == old(self).clock(),
            r == create_outcome(old(self)@, user_name@, opt_view(department_name)),
            r is Err ==> final(self)@ == old(self)@,
            r is Ok ==> final(self)@ == store_after_create(
                old(self)@,
                user_name@,
                opt_view(department_name),
                old(self).clock(),
            ),
            r matches Ok(id) ==> forall|k: int|
                0 <= k < old(self)@.users.len() ==> (#[trigger] old(self)@.users[k]).id != id,
    {
        let now = self.now;
        self.create_user_at(user_name, department_name, now)
    }

    /// Fetches user `id` with its departments: the reconstruction of the
    /// outer join of that user to the departments. An unknown identity
    /// gives an empty sequence.
    pub fn find_by_id(&self, id: i64) -> (r: Vec<UserAggregateRoot>)
        requires
            self.wf(),
        ensures
            users_view(r@) == fetched(self@, id),
            one_per_identity(join_rows(self@, id), users_view(r@)),
            1 <= id <= self@.users.len() && (forall|k: int|
                0 <= k < self@.departments.len() ==> (#[trigger] self@.departments[k]).user_id
                    != id) ==> r.len() == 1 && users_view(r@)[0].id == id
                && users_view(r@)[0].departments.len() == 0,
    {
        let mut rows: Vec<FetchUserByIdRow> = Vec::new();
        if 1 <= id && id <= self.users.len() as i64 {
            let u = &self.users[(id - 1) as usize];
            let ghost uv = self@.users[id - 1];
            assert(uv == u@);
            let mut k: usize = 0;
            while k < self.departments.len()
                invariant
                    0 <= k <= self.departments.len(),
                    uv == u@,
                    rows_view(rows@) == matched_rows(uv, self@.departments.subrange(0, k as int)),
                decreases self.departments.len() - k,
            {
                let d = &self.departments[k];
                let ghost before = rows@;
                proof {
                    assert(self@.departments[k as int] == d@);
                    assert(self@.departments.subrange(0, k + 1).drop_last() =~= self@.departments.subrange(0, k as int));
                }
                if d.user_id == u.id {
                    rows.push(
                        FetchUserByIdRow {
                            user_id: u.id,
                            user_name: u.name.clone(),
                            user_updated_datetime: u.updated_datetime,
                            user_created_datetime: u.created_datetime,
                            department_id: Some(d.id),
                            department_name: copy_name(&d.name),
                            department_updated_datetime: Some(d.updated_datetime),
                            department_created_datetime: Some(d.created_datetime),
                        },
                    );
                    assert(rows_view(rows@) =~= rows_view(before).push(joined_row(uv, d@)));
                }
                k += 1;
            }
            assert(self@.departments.subrange(0, self.departments.len() as int) =~= self@.departments);
            if rows.len() == 0 {
                rows.push(
                    FetchUserByIdRow {
                        user_id: u.id,
                        user_name: u.name.clone(),
                        user_updated_datetime: u.updated_datetime,
                        user_created_datetime: u.created_datetime,
                        department_id: None,
                        department_name: None,
                        department_updated_datetime: None,
                        department_created_datetime: None,
                    },
                );
                assert(rows_view(rows@) =~= seq![lone_row(uv)]);
            }
        } else {
            assert(rows_view(rows@) =~= Seq::<RowView>::empty());
        }
        let r = reconstruct_users(&rows);
        proof {
            if 1 <= id <= self@.users.len() && (forall|k: int|
                0 <= k < self@.departments.len() ==> (#[trigger] self@.departments[k]).user_id
                    != id) {
                let u = self@.users[id - 1];
                lemma_matched_none(u, self@.departments);
                assert(join_rows(self@, id) =~= Seq::<RowView>::empty().push(lone_row(u)));
                lemma_reconstruct_push(Seq::<RowView>::empty(), lone_row(u));
                assert(reconstruct(Seq::<RowView>::empty()) =~= Seq::<UserView>::empty());
            }
        }
        r
    }
}

impl UserAggregateRepository for MemoryStore {
    open spec fn ready(&self) -> bool {
        self.wf()
    }

    open spec fn found(&self, id: i64) -> Seq<UserView> {
        fetched(self@, id)
    }

    open spec fn fetch_result(&self, id: i64) -> Result<Seq<UserView>, RepoError> {
        Ok(fetched(self@, id))
    }

    open spec fn create_result(
        &self,
        user_name: Seq<char>,
        department_name: Option<Seq<char>>,
    ) -> Result<i64, RepoError> {
        create_outcome(self@, user_name, department_name)
    }

    open spec fn holds_user_named(&self, name: Seq<char>) -> bool {
        user_name_taken(self@, name)
    }

    open spec fn holds_department_named(&self, name: Seq<char>) -> bool {
        department_name_taken(self@, name)
    }

    fn find_user_by_id(&mut self, id: i64) -> (r: Result<Vec<UserAggregateRoot>, RepoError>)
        ensures
            r matches Ok(v) && users_view(v@) == fetched(old(self)@, id),
            r matches Ok(v) && one_per_identity(join_rows(old(self)@, id), users_view(v@)),
            final(self)@ == old(self)@,
            final(self).clock() == old(self).clock(),
    {
        Ok(self.find_by_id(id))
    }

    fn create_user(&mut self, user_name: String, department_name: Option<String>) -> (r: Result<
        i64,
        RepoError,
    >)
        ensures
            r == create_outcome(old(self)@, user_name@, opt_view(department_name)),
            r is Err ==> final(self)@ == old(self)@,
            r is Ok ==> final(self)@ == store_after_create(
                old(self)@,
                user_name@,
                opt_view(department_name),
                old(self).clock(),
            ),
            final(self).clock() == old(self).clock(),
    {
        let ghost before = self@;
        let ghost now = self.clock();
        let ghost un = user_name@;
        let ghost dn = opt_view(department_name);
        let r = self.create(user_name, department_name);
        proof {
            if r is Ok {
                lemma_create_then_fetch(before, un, dn, now);
            }
        }
        r
    }
}

} // verus!
