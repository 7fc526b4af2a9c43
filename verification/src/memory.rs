//! A storage engine that keeps the user table in process memory.
//!
//! The table is a vector of rows held in strictly ascending id order, plus
//! the next identifier to hand out. It implements the full storage port,
//! so the application service can be exercised and tested without any
//! external engine, and it is the witness that the port's contracts are
//! implementable.

use vstd::prelude::*;
use crate::domain::User;
use crate::port::{
    StorageError, UserRepository, has_id, lists_store, map_of_rows, row, sorted_by_id, unique_ids,
};

verus! {

/// An in-memory storage engine: rows sorted by id, plus the next id to
/// assign. Identifiers are never reused, since `next_id` only grows.
pub struct InMemoryUserRepository {
    users: Vec<User>,
    next_id: i32,
}

/// Rows in strictly ascending order never repeat an id.
proof fn lemma_unique_from_sorted(s: Seq<User>)
    requires
        sorted_by_id(s),
    ensures
        unique_ids(s),
{
}

/// How the abstract store of a duplicate-free row sequence behaves: its
/// domain is exactly the ids of the rows, and each row is found intact
/// under its id.
proof fn lemma_map_of_rows(s: Seq<User>)
    requires
        unique_ids(s),
    ensures
        forall|id: int| #[trigger] map_of_rows(s).dom().contains(id) <==> has_id(s, id),
        forall|i: int|
            0 <= i < s.len() ==> map_of_rows(s).dom().contains((#[trigger] s[i]).id as int)
                && map_of_rows(s)[s[i].id as int] == row(s[i]),
    decreases s.len(),
{
    if s.len() == 0 {
        assert(forall|id: int| has_id(s, id) ==> false);
    } else {
        let t = s.drop_last();
        let last = s.last();
        assert(forall|i: int| 0 <= i < t.len() ==> t[i] == s[i]);
        assert(unique_ids(t));
        lemma_map_of_rows(t);
        assert forall|id: int| #[trigger] map_of_rows(s).dom().contains(id) implies has_id(s, id) by {
            if id == last.id as int {
                assert((s[s.len() - 1]).id as int == id);
            } else {
                assert(map_of_rows(t).dom().contains(id));
                let i = choose|i: int| 0 <= i < t.len() && (#[trigger] t[i]).id == id;
                assert((s[i]).id == id);
            }
        }
        assert forall|id: int| has_id(s, id) implies #[trigger] map_of_rows(s).dom().contains(id) by {
            let i = choose|i: int| 0 <= i < s.len() && (#[trigger] s[i]).id == id;
            if i < s.len() - 1 {
                assert((t[i]).id == id);
                assert(map_of_rows(t).dom().contains(id));
            }
        }
        assert forall|i: int| 0 <= i < s.len() implies map_of_rows(s).dom().contains(
            (#[trigger] s[i]).id as int,
        ) && map_of_rows(s)[s[i].id as int] == row(s[i]) by {
            if i < s.len() - 1 {
                assert(t[i] == s[i]);
                assert(s[i].id != last.id);
                assert(map_of_rows(t)[s[i].id as int] == row(s[i]));
            }
        }
    }
}

/// Inserting a row with a fresh id anywhere in the sequence inserts
/// exactly that row into the abstract store.
proof fn lemma_map_of_rows_insert(s: Seq<User>, k: int, u: User)
    requires
        unique_ids(s),
        !has_id(s, u.id as int),
        0 <= k <= s.len(),
    ensures
        map_of_rows(s.insert(k, u)) == map_of_rows(s).insert(u.id as int, row(u)),
    decreases s.len(),
{
    let s2 = s.insert(k, u);
    if k == s.len() {
        assert(s2.drop_last() =~= s);
        assert(s2.last() == u);
    } else {
        let t = s.drop_last();
        let last = s.last();
        assert(forall|i: int| 0 <= i < t.len() ==> t[i] == s[i]);
        assert(s2.drop_last() =~= t.insert(k, u));
        assert(s2.last() == last);
        assert(unique_ids(t));
        assert(!has_id(t, u.id as int)) by {
            if has_id(t, u.id as int) {
                let i = choose|i: int| 0 <= i < t.len() && (#[trigger] t[i]).id == u.id;
                assert((s[i]).id == u.id);
            }
        }
        lemma_map_of_rows_insert(t, k, u);
        assert(u.id != last.id) by {
            assert((s[s.len() - 1]).id == last.id);
        }
        assert(map_of_rows(t).insert(u.id as int, row(u)).insert(last.id as int, row(last))
            =~= map_of_rows(t).insert(last.id as int, row(last)).insert(u.id as int, row(u)));
    }
}

/// Removing the row at index `k` removes exactly its id from the
/// abstract store.
proof fn lemma_map_of_rows_remove(s: Seq<User>, k: int)
    requires
        unique_ids(s),
        0 <= k < s.len(),
    ensures
        map_of_rows(s.remove(k)) == map_of_rows(s).remove(s[k].id as int),
    decreases s.len(),
{
    let s2 = s.remove(k);
    let t = s.drop_last();
    let last = s.last();
    assert(forall|i: int| 0 <= i < t.len() ==> t[i] == s[i]);
    assert(unique_ids(t));
    if k == s.len() - 1 {
        assert(s2 =~= t);
        lemma_map_of_rows(t);
        assert(!has_id(t, last.id as int)) by {
            if has_id(t, last.id as int) {
                let i = choose|i: int| 0 <= i < t.len() && (#[trigger] t[i]).id == last.id;
                assert((s[i]).id == (s[s.len() - 1]).id);
            }
        }
        assert(map_of_rows(t).insert(last.id as int, row(last)).remove(last.id as int)
            =~= map_of_rows(t));
    } else {
        assert(s2.drop_last() =~= t.remove(k));
        assert(s2.last() == last);
        lemma_map_of_rows_remove(t, k);
        assert(t[k] == s[k]);
        assert(s[k].id != last.id) by {
            assert((s[s.len() - 1]).id == last.id);
        }
        assert(map_of_rows(t).remove(s[k].id as int).insert(last.id as int, row(last))
            =~= map_of_rows(t).insert(last.id as int, row(last)).remove(s[k].id as int));
    }
}

impl InMemoryUserRepository {
    /// Rows strictly sorted by id, every id positive and below the next
    /// one to assign.
    pub closed spec fn wf(&self) -> bool {
        &&& sorted_by_id(self.users@)
        &&& forall|i: int|
            0 <= i < self.users@.len() ==> 1 <= (#[trigger] self.users@[i]).id < self.next_id
        &&& 1 <= self.next_id
    }

    /// The engine has no identifier left to assign.
    pub closed spec fn at_capacity(&self) -> bool {
        self.next_id == i32::MAX
    }

    /// An empty store; the first assigned id will be 1.
    pub fn new() -> (r: Self)
        ensures
            r.inv(),
            r.contents() == Map::<int, (Seq<char>, Seq<char>)>::empty(),
    {
        InMemoryUserRepository { users: Vec::new(), next_id: 1 }
    }

    /// An engine over a table that already holds `rows`, in whatever
    /// order they were once inserted. Succeeds exactly when every id is
    /// positive, below `i32::MAX`, and no id repeats; ids assigned later
    /// stay above every seeded one.
    pub fn from_rows(rows: Vec<User>) -> (r: Option<Self>)
        ensures
            match r {
                Some(repo) => repo.inv() && unique_ids(rows@) && (forall|i: int|
                    0 <= i < rows@.len() ==> 1 <= (#[trigger] rows@[i]).id < i32::MAX)
                    && repo.contents() == map_of_rows(rows@),
                None => !(unique_ids(rows@) && (forall|i: int|
                    0 <= i < rows@.len() ==> 1 <= (#[trigger] rows@[i]).id < i32::MAX)),
            },
    {
        let mut repo = InMemoryUserRepository { users: Vec::new(), next_id: 1 };
        let total = rows.len();
        let mut k: usize = 0;
        while k < total
            invariant
                total == rows@.len(),
                0 <= k <= total,
                repo.wf(),
                repo.next_id < i32::MAX || k > 0,
                repo.next_id <= i32::MAX,
                map_of_rows(repo.users@) == map_of_rows(rows@.take(k as int)),
                forall|id: int| has_id(repo.users@, id) <==> has_id(rows@.take(k as int), id),
                forall|i: int| 0 <= i < k ==> 1 <= (#[trigger] rows@[i]).id < i32::MAX,
                unique_ids(rows@.take(k as int)),
            decreases total - k,
        {
            let id = rows[k].id;
            if id < 1 || id == i32::MAX {
                return None;
            }
            let mut pos: usize = 0;
            let n = repo.users.len();
            while pos < n && repo.users[pos].id < id
                invariant
                    repo.wf(),
                    n == repo.users@.len(),
                    0 <= pos <= n,
                    forall|j: int| 0 <= j < pos ==> (#[trigger] repo.users@[j]).id < id,
                decreases n - pos,
            {
                pos += 1;
            }
            if pos < n && repo.users[pos].id == id {
                proof {
                    assert(has_id(repo.users@, id as int));
                    assert(has_id(rows@.take(k as int), id as int));
                    let j = choose|j: int|
                        0 <= j < rows@.take(k as int).len() && (#[trigger] rows@.take(
                            k as int,
                        )[j]).id == id;
                    assert((rows@[j]).id == (rows@[k as int]).id);
                    assert(!unique_ids(rows@));
                }
                return None;
            }
            proof {
                assert forall|j: int| 0 <= j < repo.users@.len() implies (#[trigger] repo.users@[j]).id != id by {
                    if j >= pos {
                        assert(repo.users@[pos as int].id <= repo.users@[j].id);
                    }
                }
                assert(!has_id(repo.users@, id as int));
                lemma_unique_from_sorted(repo.users@);
            }
            let source = &rows[k];
            let u = User { id, name: source.name.clone(), email: source.email.clone() };
            proof {
                assert(u == rows@[k as int]);
                lemma_map_of_rows_insert(repo.users@, pos as int, u);
            }
            let ghost prior = repo.users@;
            repo.users.insert(pos, u);
            if id >= repo.next_id {
                repo.next_id = id + 1;
            }
            proof {
                assert(forall|j: int|
                    0 <= j < repo.users@.len() ==> #[trigger] repo.users@[j] == if j < pos as int {
                        prior[j]
                    } else if j == pos as int {
                        u
                    } else {
                        prior[j - 1]
                    });
                assert(sorted_by_id(repo.users@)) by {
                    assert forall|a: int, b: int|
                        #![trigger repo.users@[a], repo.users@[b]]
                        0 <= a < b < repo.users@.len() implies repo.users@[a].id < repo.users@[b].id by {
                        if a < pos as int && b == pos as int {
                            assert(prior[a].id < id);
                        } else if a == pos as int && b > pos as int {
                            assert(prior[b - 1].id >= prior[pos as int].id);
                        }
                    }
                }
                assert(rows@.take(k as int + 1).drop_last() =~= rows@.take(k as int));
                assert(rows@.take(k as int + 1).last() == rows@[k as int]);
                assert(map_of_rows(repo.users@) == map_of_rows(rows@.take(k as int + 1)));
                assert forall|id2: int| has_id(repo.users@, id2) <==> has_id(
                    rows@.take(k as int + 1),
                    id2,
                ) by {
                    if has_id(repo.users@, id2) {
                        let j = choose|j: int|
                            0 <= j < repo.users@.len() && (#[trigger] repo.users@[j]).id == id2;
                        if j == pos as int {
                            assert((rows@.take(k as int + 1)[k as int]).id == id2);
                        } else {
                            let jp = if j < pos as int { j } else { j - 1 };
                            assert(has_id(prior, id2));
                            let m = choose|m: int|
                                0 <= m < rows@.take(k as int).len() && (#[trigger] rows@.take(
                                    k as int,
                                )[m]).id == id2;
                            assert((rows@.take(k as int + 1)[m]).id == id2);
                        }
                    }
                    if has_id(rows@.take(k as int + 1), id2) {
                        let m = choose|m: int|
                            0 <= m < rows@.take(k as int + 1).len() && (#[trigger] rows@.take(
                                k as int + 1,
                            )[m]).id == id2;
                        if m == k as int {
                            assert(repo.users@[pos as int].id == id2);
                        } else {
                            assert((rows@.take(k as int)[m]).id == id2);
                            assert(has_id(prior, id2));
                            let j = choose|j: int|
                                0 <= j < prior.len() && (#[trigger] prior[j]).id == id2;
                            let jn = if j < pos as int { j } else { j + 1 };
                            assert(repo.users@[jn].id == id2);
                        }
                    }
                }
                assert(unique_ids(rows@.take(k as int + 1))) by {
                    assert forall|a: int, b: int|
                        #![trigger rows@.take(k as int + 1)[a], rows@.take(k as int + 1)[b]]
                        0 <= a < b < rows@.take(k as int + 1).len() implies rows@.take(
                        k as int + 1,
                    )[a].id != rows@.take(k as int + 1)[b].id by {
                        if b == k as int {
                            assert((rows@.take(k as int)[a]).id == rows@[a].id);
                            if rows@[a].id == rows@[b].id {
                                assert(has_id(rows@.take(k as int), id as int));
                                assert(has_id(prior, id as int));
                            }
                        }
                    }
                }
            }
            k += 1;
        }
        proof {
            assert(rows@.take(total as int) =~= rows@);
        }
        Some(repo)
    }
}

impl UserRepository for InMemoryUserRepository {
    open spec fn inv(&self) -> bool {
        self.wf()
    }

    closed spec fn contents(&self) -> Map<int, (Seq<char>, Seq<char>)> {
        map_of_rows(self.users@)
    }

    fn save(&mut self, user: User) -> (r: Result<User, StorageError>)
        ensures
            r is Err ==> old(self).at_capacity(),
    {
        if self.next_id == i32::MAX {
            return Err(StorageError { detail: "identifier space exhausted".to_owned() });
        }
        let id = self.next_id;
        self.next_id = id + 1;
        let stored = User { id, name: user.name.clone(), email: user.email.clone() };
        proof {
            lemma_unique_from_sorted(self.users@);
            lemma_map_of_rows(self.users@);
            assert(!has_id(self.users@, id as int));
        }
        let ghost prior = self.users@;
        self.users.push(stored);
        proof {
            assert(self.users@.drop_last() =~= prior);
            assert(self.users@.last() == stored);
            assert(forall|i: int| 0 <= i < prior.len() ==> self.users@[i] == prior[i]);
        }
        Ok(user.with_id(id))
    }

    fn find_by_id(&self, id: i32) -> (r: Result<Option<User>, StorageError>)
        ensures
            r is Ok,
    {
        let n = self.users.len();
        let mut i: usize = 0;
        while i < n
            invariant
                self.inv(),
                n == self.users@.len(),
                0 <= i <= n,
                forall|j: int| 0 <= j < i ==> (#[trigger] self.users@[j]).id != id,
            decreases n - i,
        {
            let u = &self.users[i];
            if u.id == id {
                let found = User { id: u.id, name: u.name.clone(), email: u.email.clone() };
                proof {
                    lemma_unique_from_sorted(self.users@);
                    lemma_map_of_rows(self.users@);
                    assert(found == self.users@[i as int]);
                }
                return Ok(Some(found));
            }
            i += 1;
        }
        proof {
            lemma_unique_from_sorted(self.users@);
            lemma_map_of_rows(self.users@);
            assert(!has_id(self.users@, id as int));
        }
        Ok(None)
    }

    fn find_all(&self) -> (r: Result<Vec<User>, StorageError>)
        ensures
            r is Ok,
    {
        let n = self.users.len();
        let mut out: Vec<User> = Vec::new();
        let mut i: usize = 0;
        while i < n
            invariant
                self.inv(),
                n == self.users@.len(),
                0 <= i <= n,
                out@.len() == i,
                forall|j: int| 0 <= j < i ==> #[trigger] out@[j] == self.users@[j],
            decreases n - i,
        {
            let u = &self.users[i];
            out.push(User { id: u.id, name: u.name.clone(), email: u.email.clone() });
            i += 1;
        }
        proof {
            assert(out@ =~= self.users@);
            lemma_unique_from_sorted(self.users@);
            lemma_map_of_rows(self.users@);
            assert(lists_store(out@, self.contents()));
        }
        Ok(out)
    }

    fn delete(&mut self, id: i32) -> (r: Result<(), StorageError>)
        ensures
            r is Ok,
    {
        let n = self.users.len();
        let mut i: usize = 0;
        while i < n
            invariant
                self.inv(),
                *self == *old(self),
                n == self.users@.len(),
                0 <= i <= n,
                forall|j: int| 0 <= j < i ==> (#[trigger] self.users@[j]).id != id,
            decreases n - i,
        {
            if self.users[i].id == id {
                proof {
                    lemma_unique_from_sorted(self.users@);
                    lemma_map_of_rows_remove(self.users@, i as int);
                }
                let ghost prior = self.users@;
                self.users.remove(i);
                proof {
                    assert(forall|j: int|
                        0 <= j < self.users@.len() ==> self.users@[j] == if j < i as int {
                            prior[j]
                        } else {
                            prior[j + 1]
                        });
                }
                return Ok(());
            }
            i += 1;
        }
        proof {
            lemma_unique_from_sorted(self.users@);
            lemma_map_of_rows(self.users@);
            assert(!has_id(self.users@, id as int));
            assert(map_of_rows(self.users@).remove(id as int) =~= map_of_rows(self.users@));
        }
        Ok(())
    }
}

} // verus!
