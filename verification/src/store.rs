//! The user store: reconciliation of identifiers against a `users` table.
//!
//! The table is modelled as a collection of rows with pairwise distinct ids;
//! its mathematical view is a map from id to record. Creation is
//! insert-or-ignore on the primary key, lookup and update fail with
//! [`StoreError::NotFound`] when the id is absent, and update replaces the
//! full row.

use vstd::prelude::*;

verus! {

/// A row of the `users` table. `id` is the primary key; the other fields are
/// absent for anonymous, session-only users.
#[derive(Debug)]
pub struct User {
    pub id: String,
    pub username: Option<String>,
    pub password: Option<String>,
    pub activated: Option<bool>,
}

/// The mathematical value of a [`User`] row.
pub struct UserView {
    pub id: Seq<char>,
    pub username: Option<Seq<char>>,
    pub password: Option<Seq<char>>,
    pub activated: Option<bool>,
}

impl View for User {
    type V = UserView;

    open spec fn view(&self) -> UserView {
        UserView {
            id: self.id@,
            username: match self.username {
                Some(s) => Some(s@),
                None => None,
            },
            password: match self.password {
                Some(s) => Some(s@),
                None => None,
            },
            activated: self.activated,
        }
    }
}

impl Clone for User {
    fn clone(&self) -> (r: Self)
        ensures
            r == *self,
    {
        User {
            id: self.id.clone(),
            username: match &self.username {
                Some(s) => Some(s.clone()),
                None => None,
            },
            password: match &self.password {
                Some(s) => Some(s.clone()),
                None => None,
            },
            activated: self.activated,
        }
    }
}

/// How a store operation fails. A missing row is the only failure the
/// in-memory table can produce; callers must branch on it.
#[derive(Clone, Copy, Debug, PartialEq, Eq, Structural)]
pub enum StoreError {
    NotFound,
}

/// The `users` table.
pub struct UserStore {
    rows: Vec<User>,
}

/// The map from id to record represented by a sequence of rows.
pub open spec fn map_of(rows: Seq<User>) -> Map<Seq<char>, UserView>
    decreases rows.len(),
{
    if rows.len() == 0 {
        Map::empty()
    } else {
        map_of(rows.drop_last()).insert(rows.last()@.id, rows.last()@)
    }
}

/// Whether the rows carry pairwise distinct ids.
pub open spec fn distinct_ids(rows: Seq<User>) -> bool {
    forall|i: int, j: int|
        0 <= i < j < rows.len() ==> (#[trigger] rows[i])@.id != (#[trigger] rows[j])@.id
}

impl UserStore {
    /// The table as a map from id to record.
    pub closed spec fn view(&self) -> Map<Seq<char>, UserView> {
        map_of(self.rows@)
    }

    /// Internal well-formedness: one row per id.
    pub closed spec fn wf(&self) -> bool {
        distinct_ids(self.rows@)
    }

    /// An empty table.
    pub fn new() -> (s: Self)
        ensures
            s.wf(),
            s@ == Map::<Seq<char>, UserView>::empty(),
    {
        UserStore { rows: Vec::new() }
    }
}

/// A key is in the map of a row sequence exactly when some row carries it.
proof fn lemma_map_of_contains(rows: Seq<User>, k: Seq<char>)
    ensures
        map_of(rows).contains_key(k) <==> exists|i: int|
            0 <= i < rows.len() && (#[trigger] rows[i])@.id == k,
    decreases rows.len(),
{
    if rows.len() > 0 {
        lemma_map_of_contains(rows.drop_last(), k);
        if rows.last()@.id == k {
            assert(rows[rows.len() - 1]@.id == k);
        } else if map_of(rows).contains_key(k) {
            let i = choose|i: int| 0 <= i < rows.drop_last().len()
                && (#[trigger] rows.drop_last()[i])@.id == k;
            assert(rows[i]@.id == k);
        } else {
            assert forall|i: int| 0 <= i < rows.len() implies (#[trigger] rows[i])@.id != k by {
                if i < rows.len() - 1 {
                    assert(rows.drop_last()[i]@.id != k);
                }
            }
        }
    }
}

/// With distinct ids, the map of a row sequence sends each row's id to that
/// row's value.
proof fn lemma_map_of_get(rows: Seq<User>, i: int)
    requires
        distinct_ids(rows),
        0 <= i < rows.len(),
    ensures
        map_of(rows).contains_key(rows[i]@.id),
        map_of(rows)[rows[i]@.id] == rows[i]@,
    decreases rows.len(),
{
    if i < rows.len() - 1 {
        assert(rows.drop_last()[i] == rows[i]);
        lemma_map_of_get(rows.drop_last(), i);
        assert(rows.last()@.id != rows[i]@.id);
    }
}

/// With distinct ids, replacing the row at `i` by one with the same id turns
/// the map into an insertion at that id.
proof fn lemma_map_of_update(rows: Seq<User>, i: int, u: User)
    requires
        distinct_ids(rows),
        0 <= i < rows.len(),
        u@.id == rows[i]@.id,
    ensures
        map_of(rows.update(i, u)) == map_of(rows).insert(u@.id, u@),
    decreases rows.len(),
{
    let k = u@.id;
    if i == rows.len() - 1 {
        assert(rows.update(i, u).drop_last() =~= rows.drop_last());
        assert(map_of(rows.update(i, u)) =~= map_of(rows).insert(k, u@));
    } else {
        assert(rows.update(i, u).drop_last() =~= rows.drop_last().update(i, u));
        assert(rows.drop_last()[i] == rows[i]);
        lemma_map_of_update(rows.drop_last(), i, u);
        assert(rows.last()@.id != k);
        assert(map_of(rows.update(i, u)) =~= map_of(rows).insert(k, u@));
    }
}

/// What creation does to the table: nothing on a duplicate id, an insertion
/// otherwise; paired with the number of rows that were inserted.
pub open spec fn create_effect(m: Map<Seq<char>, UserView>, u: UserView) -> (
    Map<Seq<char>, UserView>,
    int,
) {
    if m.contains_key(u.id) {
        (m, 0)
    } else {
        (m.insert(u.id, u), 1)
    }
}

/// First write wins: creating a record under a fresh id inserts it and counts
/// one row; creating again under the same id, whatever the other fields say,
/// counts zero rows and leaves the persisted record exactly as the first
/// call wrote it.
pub proof fn lemma_create_first_write_wins(
    m: Map<Seq<char>, UserView>,
    u1: UserView,
    u2: UserView,
)
    requires
        u1.id == u2.id,
        !m.contains_key(u1.id),
    ensures
        ({
            let (m1, n1) = create_effect(m, u1);
            let (m2, n2) = create_effect(m1, u2);
            n1 == 1 && n2 == 0 && m2 == m1 && m1[u1.id] == u1
        }),
{
}

/// Insert the row unless its id already exists; the count says whether a row
/// was inserted. A duplicate id is a silent no-op: the existing row wins.
#[verifier::loop_isolation(false)]
pub fn create_user(user: &User, store: &mut UserStore) -> (n: usize)
    requires
        old(store).wf(),
    ensures
        final(store).wf(),
        final(store)@ == create_effect(old(store)@, user@).0,
        n as int == create_effect(old(store)@, user@).1,
{
    proof {
        lemma_map_of_contains(store.rows@, user@.id);
    }
    let mut i: usize = 0;
    while i < store.rows.len()
        invariant
            i <= store.rows.len(),
            forall|j: int| 0 <= j < i ==> (#[trigger] store.rows@[j])@.id != user@.id,
        decreases store.rows.len() - i,
    {
        if store.rows[i].id == user.id {
            return 0;
        }
        i += 1;
    }
    proof {
        assert(store.rows@.push(*user).drop_last() =~= store.rows@);
    }
    store.rows.push(user.clone());
    1
}

/// Look the row with this id up; fail with NotFound when it is absent.
#[verifier::loop_isolation(false)]
pub fn find_user(id: String, store: &UserStore) -> (r: Result<User, StoreError>)
    requires
        store.wf(),
    ensures
        match r {
            Ok(u) => store@.contains_key(id@) && u@ == store@[id@],
            Err(e) => !store@.contains_key(id@) && e == StoreError::NotFound,
        },
{
    let mut i: usize = 0;
    while i < store.rows.len()
        invariant
            i <= store.rows.len(),
            forall|j: int| 0 <= j < i ==> (#[trigger] store.rows@[j])@.id != id@,
        decreases store.rows.len() - i,
    {
        if store.rows[i].id == id {
            proof {
                lemma_map_of_get(store.rows@, i as int);
            }
            return Ok(store.rows[i].clone());
        }
        i += 1;
    }
    proof {
        lemma_map_of_contains(store.rows@, id@);
    }
    Err(StoreError::NotFound)
}

/// Replace the full row matching `user.id` by `user` and return the row as
/// persisted; fail with NotFound when the id was never created.
#[verifier::loop_isolation(false)]
pub fn update_user(user: &User, store: &mut UserStore) -> (r: Result<User, StoreError>)
    requires
        old(store).wf(),
    ensures
        final(store).wf(),
        match r {
            Ok(u) => old(store)@.contains_key(user@.id) && u@ == user@
                && final(store)@ == old(store)@.insert(user@.id, user@),
            Err(e) => !old(store)@.contains_key(user@.id) && e == StoreError::NotFound
                && final(store)@ == old(store)@,
        },
{
    let mut i: usize = 0;
    while i < store.rows.len()
        invariant
            i <= store.rows.len(),
            *store == *old(store),
            forall|j: int| 0 <= j < i ==> (#[trigger] store.rows@[j])@.id != user@.id,
        decreases store.rows.len() - i,
    {
        if store.rows[i].id == user.id {
            proof {
                lemma_map_of_get(store.rows@, i as int);
                lemma_map_of_update(store.rows@, i as int, *user);
            }
            store.rows[i] = user.clone();
            proof {
                assert forall|a: int, b: int| 0 <= a < b < store.rows@.len() implies (
                #[trigger] store.rows@[a])@.id != (#[trigger] store.rows@[b])@.id by {
                    let o = old(store).rows@;
                    assert(o[a]@.id != o[b]@.id);
                }
            }
            return Ok(user.clone());
        }
        i += 1;
    }
    proof {
        lemma_map_of_contains(store.rows@, user@.id);
    }
    Err(StoreError::NotFound)
}

} // verus!
