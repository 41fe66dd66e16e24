//! The collection document: a mapping from id to entry, held as a vector of
//! entries with pairwise-distinct ids and viewed as a mathematical map.

use vstd::prelude::*;
use crate::response::{Body, Response};
use crate::todo::{Todo, TodoView};

verus! {

/// The entry the create operation constructs: the given id, task and
/// timestamp, with `completed` false.
pub open spec fn new_entry(id: Seq<char>, task: Seq<char>, created_at: int) -> TodoView {
    TodoView { id: id, task: task, created_at: created_at, completed: false }
}

/// What creating does to the collection: the new entry is written under its
/// id.
pub open spec fn create_t(
    m: Map<Seq<char>, TodoView>,
    id: Seq<char>,
    task: Seq<char>,
    created_at: int,
) -> Map<Seq<char>, TodoView> {
    m.insert(id, new_entry(id, task, created_at))
}

/// What toggling does to the collection: a present entry is rewritten with
/// `completed` flipped; a missing id changes nothing.
pub open spec fn toggle_t(m: Map<Seq<char>, TodoView>, id: Seq<char>) -> Map<
    Seq<char>,
    TodoView,
> {
    if m.contains_key(id) {
        m.insert(id, m[id].flipped())
    } else {
        m
    }
}

/// What deleting does to the collection: the id's entry is removed, whether
/// or not it existed.
pub open spec fn delete_t(m: Map<Seq<char>, TodoView>, id: Seq<char>) -> Map<
    Seq<char>,
    TodoView,
> {
    m.remove(id)
}

/// The mathematical content of a sequence of entries: the map that sends each
/// entry's id to the entry, later entries overriding earlier ones.
pub open spec fn map_of(s: Seq<Todo>) -> Map<Seq<char>, TodoView>
    decreases s.len(),
{
    if s.len() == 0 {
        Map::empty()
    } else {
        map_of(s.drop_last()).insert(s.last()@.id, s.last()@)
    }
}

/// No two entries of the sequence carry the same id.
pub open spec fn unique_ids(s: Seq<Todo>) -> bool {
    forall|i: int, j: int| 0 <= i < j < s.len() ==> s[i]@.id != s[j]@.id
}

/// The collection document: the to-do entries, keyed by id.
pub struct TodoList {
    items: Vec<Todo>,
}

impl TodoList {
    /// The entries in storage order.
    pub closed spec fn seq(&self) -> Seq<Todo> {
        self.items@
    }

    /// Well-formedness: every id present is unique.
    pub open spec fn wf(&self) -> bool {
        unique_ids(self.seq())
    }
}

impl View for TodoList {
    type V = Map<Seq<char>, TodoView>;

    open spec fn view(&self) -> Map<Seq<char>, TodoView> {
        map_of(self.seq())
    }
}

/// A key is in the map exactly when some entry carries it as its id.
pub proof fn lemma_map_of_contains(s: Seq<Todo>, k: Seq<char>)
    ensures
        map_of(s).contains_key(k) <==> exists|i: int| 0 <= i < s.len() && s[i]@.id == k,
    decreases s.len(),
{
    if s.len() > 0 {
        lemma_map_of_contains(s.drop_last(), k);
        if s.last()@.id == k {
            assert(s[s.len() - 1]@.id == k);
        } else {
            if exists|i: int| 0 <= i < s.drop_last().len() && s.drop_last()[i]@.id == k {
                let i = choose|i: int| 0 <= i < s.drop_last().len() && s.drop_last()[i]@.id == k;
                assert(s[i]@.id == k);
            }
            if exists|i: int| 0 <= i < s.len() && s[i]@.id == k {
                let i = choose|i: int| 0 <= i < s.len() && s[i]@.id == k;
                assert(s.drop_last()[i]@.id == k);
            }
        }
    }
}

/// The domain of the map of any sequence is finite.
pub proof fn lemma_map_of_finite(s: Seq<Todo>)
    ensures
        map_of(s).dom().finite(),
    decreases s.len(),
{
    if s.len() > 0 {
        lemma_map_of_finite(s.drop_last());
    }
}

/// Every value of the map carries its own key as its id.
pub proof fn lemma_map_of_key_id(s: Seq<Todo>, k: Seq<char>)
    requires
        map_of(s).contains_key(k),
    ensures
        map_of(s)[k].id == k,
    decreases s.len(),
{
    if s.len() > 0 && s.last()@.id != k {
        lemma_map_of_key_id(s.drop_last(), k);
    }
}

/// With unique ids, the map sends each entry's id to that entry.
pub proof fn lemma_map_of_index(s: Seq<Todo>, i: int)
    requires
        unique_ids(s),
        0 <= i < s.len(),
    ensures
        map_of(s).contains_key(s[i]@.id),
        map_of(s)[s[i]@.id] == s[i]@,
    decreases s.len(),
{
    if i < s.len() - 1 {
        assert(unique_ids(s.drop_last()));
        assert(s.drop_last()[i] == s[i]);
        lemma_map_of_index(s.drop_last(), i);
        assert(s.last()@.id != s[i]@.id);
    }
}

/// Appending an entry inserts it into the map under its id.
pub proof fn lemma_map_of_push(s: Seq<Todo>, t: Todo)
    ensures
        map_of(s.push(t)) == map_of(s).insert(t@.id, t@),
{
    assert(s.push(t).drop_last() =~= s);
    assert(s.push(t).last() == t);
}

/// Removing a key that no entry carries leaves the map unchanged.
pub proof fn lemma_map_of_remove_absent(s: Seq<Todo>, k: Seq<char>)
    requires
        forall|i: int| 0 <= i < s.len() ==> s[i]@.id != k,
    ensures
        map_of(s).remove(k) == map_of(s),
{
    lemma_map_of_contains(s, k);
    assert(map_of(s).remove(k) =~= map_of(s));
}

/// With unique ids, removing the entry at a position removes its id from the
/// map.
pub proof fn lemma_map_of_remove(s: Seq<Todo>, i: int, k: Seq<char>)
    requires
        unique_ids(s),
        0 <= i < s.len(),
        s[i]@.id == k,
    ensures
        map_of(s.remove(i)) == map_of(s).remove(k),
    decreases s.len(),
{
    if i == s.len() - 1 {
        assert(s.remove(i) =~= s.drop_last());
        assert(forall|j: int| 0 <= j < s.drop_last().len() ==> s[j]@.id != k);
        lemma_map_of_remove_absent(s.drop_last(), k);
        assert(map_of(s).remove(k) =~= map_of(s.drop_last()));
    } else {
        let dl = s.drop_last();
        assert(unique_ids(dl));
        assert(dl[i] == s[i]);
        lemma_map_of_remove(dl, i, k);
        assert(s.remove(i).drop_last() =~= dl.remove(i));
        assert(s.remove(i).last() == s.last());
        assert(s.last()@.id != k);
        assert(map_of(s.remove(i)) == map_of(dl.remove(i)).insert(s.last()@.id, s.last()@));
        assert(map_of(dl).remove(k).insert(s.last()@.id, s.last()@)
            =~= map_of(dl).insert(s.last()@.id, s.last()@).remove(k));
    }
}

/// With unique ids, the map has exactly one entry per element.
pub proof fn lemma_map_of_len(s: Seq<Todo>)
    requires
        unique_ids(s),
    ensures
        map_of(s).len() == s.len(),
    decreases s.len(),
{
    if s.len() == 0 {
        assert(map_of(s).dom() =~= Set::<Seq<char>>::empty());
    } else {
        let dl = s.drop_last();
        assert(unique_ids(dl));
        lemma_map_of_len(dl);
        lemma_map_of_finite(dl);
        lemma_map_of_contains(dl, s.last()@.id);
        assert(forall|i: int| 0 <= i < dl.len() ==> dl[i] == s[i]);
        assert(!map_of(dl).contains_key(s.last()@.id));
        assert(map_of(s).dom() =~= map_of(dl).dom().insert(s.last()@.id));
    }
}

/// Removing one position preserves uniqueness, and no remaining entry carries
/// the removed entry's id.
proof fn lemma_unique_remove(s: Seq<Todo>, i: int)
    requires
        unique_ids(s),
        0 <= i < s.len(),
    ensures
        unique_ids(s.remove(i)),
        forall|j: int| 0 <= j < s.remove(i).len() ==> s.remove(i)[j]@.id != s[i]@.id,
{
    assert forall|j: int| 0 <= j < s.remove(i).len() implies s.remove(i)[j]@.id != s[i]@.id by {
        if j < i {
            assert(s.remove(i)[j] == s[j]);
        } else {
            assert(s.remove(i)[j] == s[j + 1]);
        }
    }
    assert forall|a: int, b: int| 0 <= a < b < s.remove(i).len() implies
        s.remove(i)[a]@.id != s.remove(i)[b]@.id by {
        let a0: int = if a < i { a } else { a + 1 };
        let b0: int = if b < i { b } else { b + 1 };
        assert(s.remove(i)[a] == s[a0]);
        assert(s.remove(i)[b] == s[b0]);
    }
}

/// Appending an entry whose id no element carries preserves uniqueness.
proof fn lemma_unique_push(s: Seq<Todo>, t: Todo)
    requires
        unique_ids(s),
        forall|j: int| 0 <= j < s.len() ==> s[j]@.id != t@.id,
    ensures
        unique_ids(s.push(t)),
{
    assert forall|a: int, b: int| 0 <= a < b < s.push(t).len() implies
        s.push(t)[a]@.id != s.push(t)[b]@.id by {
        assert(s.push(t)[a] == s[a]);
        if b < s.len() {
            assert(s.push(t)[b] == s[b]);
        } else {
            assert(s.push(t)[b] == t);
        }
    }
}

impl TodoList {
    /// The empty collection, as the lazy initialization writes it.
    pub fn new() -> (r: TodoList)
        ensures
            r.wf(),
            r@ == Map::<Seq<char>, TodoView>::empty(),
    {
        TodoList { items: Vec::new() }
    }

    /// The position of the entry carrying the given id, if any.
    fn position_of(&self, id: &String) -> (r: Option<usize>)
        ensures
            match r {
                Some(i) => i < self.seq().len() && self.seq()[i as int]@.id == id@,
                None => forall|j: int| 0 <= j < self.seq().len() ==> self.seq()[j]@.id != id@,
            },
    {
        let mut i: usize = 0;
        while i < self.items.len()
            invariant
                i <= self.items@.len(),
                forall|j: int| 0 <= j < i ==> self.items@[j]@.id != id@,
            decreases self.items@.len() - i,
        {
            if self.items[i].id == *id {
                return Some(i);
            }
            i = i + 1;
        }
        None
    }

    /// The entry under the given id, if the collection holds one.
    pub fn get(&self, id: &String) -> (r: Option<&Todo>)
        requires
            self.wf(),
        ensures
            match r {
                Some(t) => self@.contains_key(id@) && t@ == self@[id@],
                None => !self@.contains_key(id@),
            },
    {
        match self.position_of(id) {
            Some(i) => {
                proof {
                    lemma_map_of_index(self.seq(), i as int);
                }
                Some(&self.items[i])
            }
            None => {
                proof {
                    lemma_map_of_contains(self.seq(), id@);
                }
                None
            }
        }
    }

    /// Writes the entry under its id: a fresh id is added, a present one is
    /// overwritten, as a path-addressed set does.
    pub fn upsert(&mut self, t: Todo)
        requires
            old(self).wf(),
        ensures
            final(self).wf(),
            final(self)@ == old(self)@.insert(t@.id, t@),
    {
        let ghost s0 = self.items@;
        match self.position_of(&t.id) {
            Some(i) => {
                proof {
                    lemma_map_of_remove(s0, i as int, t@.id);
                    lemma_unique_remove(s0, i as int);
                }
                self.items.remove(i);
                let ghost s1 = self.items@;
                self.items.push(t);
                proof {
                    lemma_map_of_push(s1, t);
                    lemma_unique_push(s1, t);
                    assert(map_of(s0).remove(t@.id).insert(t@.id, t@)
                        =~= map_of(s0).insert(t@.id, t@));
                }
            }
            None => {
                proof {
                    lemma_map_of_push(s0, t);
                    lemma_unique_push(s0, t);
                }
                self.items.push(t);
            }
        }
    }

    /// Deletes the entry under the given id; a missing id deletes nothing.
    pub fn remove_by_id(&mut self, id: &String)
        requires
            old(self).wf(),
        ensures
            final(self).wf(),
            final(self)@ == old(self)@.remove(id@),
    {
        let ghost s0 = self.items@;
        match self.position_of(id) {
            Some(i) => {
                proof {
                    lemma_map_of_remove(s0, i as int, id@);
                    lemma_unique_remove(s0, i as int);
                }
                self.items.remove(i);
            }
            None => {
                proof {
                    lemma_map_of_remove_absent(s0, id@);
                }
            }
        }
    }

    /// How many entries the collection holds.
    pub fn len(&self) -> (r: usize)
        requires
            self.wf(),
        ensures
            r == self@.len(),
            r == self.seq().len(),
    {
        proof {
            lemma_map_of_len(self.seq());
        }
        self.items.len()
    }

    /// The entries themselves, in storage order.
    pub fn entries(&self) -> (r: &Vec<Todo>)
        ensures
            r@ == self.seq(),
    {
        &self.items
    }

    /// The list operation: 200 with the full mapping.
    pub fn list(&self) -> (r: Response)
        requires
            self.wf(),
        ensures
            r.status == 200,
            r.body matches Body::Listing(v) && map_of(v@) == self@ && v@.len() == self@.len(),
    {
        let mut out: Vec<Todo> = Vec::new();
        let mut i: usize = 0;
        while i < self.items.len()
            invariant
                i <= self.items@.len(),
                out@ == self.items@.subrange(0, i as int),
            decreases self.items@.len() - i,
        {
            out.push(self.items[i].duplicate());
            i = i + 1;
            proof {
                assert(out@ =~= self.items@.subrange(0, i as int));
            }
        }
        proof {
            assert(out@ =~= self.items@);
            lemma_map_of_len(self.items@);
        }
        Response { status: 200, body: Body::Listing(out) }
    }

    /// The create operation on given id and timestamp: the entry is written
    /// with `completed` false, and the response is 201 with the entry.
    pub fn create(&mut self, id: String, task: String, created_at: i64) -> (r: Response)
        requires
            old(self).wf(),
        ensures
            final(self).wf(),
            final(self)@ == create_t(old(self)@, id@, task@, created_at as int),
            r.status == 201,
            r.body matches Body::TodoItem(t) && t@ == new_entry(id@, task@, created_at as int),
    {
        let todo = Todo { id, task, created_at, completed: false };
        let echo = todo.duplicate();
        self.upsert(todo);
        Response { status: 201, body: Body::TodoItem(echo) }
    }

    /// The create operation as a request performs it: a fresh identifier and
    /// the current time are drawn, and the entry is written with `completed`
    /// false. Whatever identifier came back, the response is 201 with the
    /// entry created under it.
    pub fn create_now(&mut self, task: String) -> (r: Response)
        requires
            old(self).wf(),
        ensures
            final(self).wf(),
            r.status == 201,
            r.body matches Body::TodoItem(t) && {
                &&& final(self)@ == create_t(old(self)@, t@.id, task@, t@.created_at)
                &&& t@.task == task@
                &&& !t@.completed
            },
    {
        let id = fresh_id();
        let created_at = now_millis();
        self.create(id, task, created_at)
    }

    /// The toggle (update) operation: a present entry is rewritten with
    /// `completed` flipped and acknowledged with 200; a missing id leaves the
    /// collection unchanged and yields 500 — there is no distinct 404.
    pub fn toggle(&mut self, id: &String) -> (r: Response)
        requires
            old(self).wf(),
        ensures
            final(self).wf(),
            final(self)@ == toggle_t(old(self)@, id@),
            old(self)@.contains_key(id@) ==> r.status == 200 && r.body is OkStatus,
            !old(self)@.contains_key(id@) ==> r.status == 500 && r.body is ErrorMessage,
    {
        let ghost s0 = self.seq();
        let flipped = match self.get(id) {
            Some(t) => Some(t.toggled()),
            None => None,
        };
        match flipped {
            Some(f) => {
                proof {
                    lemma_map_of_key_id(s0, id@);
                }
                self.upsert(f);
                Response { status: 200, body: Body::OkStatus }
            }
            None => Response {
                status: 500,
                body: Body::ErrorMessage("failed to update todo: no such entry".to_owned()),
            },
        }
    }

    /// The delete operation: the id's entry is removed and the response is
    /// 200, whether or not the entry existed.
    pub fn delete(&mut self, id: &String) -> (r: Response)
        requires
            old(self).wf(),
        ensures
            final(self).wf(),
            final(self)@ == delete_t(old(self)@, id@),
            r.status == 200,
            r.body is OkStatus,
    {
        self.remove_by_id(id);
        Response { status: 200, body: Body::OkStatus }
    }
}

/// Relies on ulid::Ulid::new and Ulid::to_string: the canonical text form of
/// a ULID is 26 characters of Crockford base32. The value depends on the
/// clock and on randomness, so nothing more is promised of it.
#[verifier::external_body]
pub(crate) fn fresh_id() -> (r: String)
    ensures
        r@.len() == 26,
{
    ulid::Ulid::new().to_string()
}

/// Relies on chrono::Utc::now and DateTime::timestamp_millis: the current UTC
/// time in milliseconds since the epoch. Nothing is promised of a clock
/// reading.
#[verifier::external_body]
pub(crate) fn now_millis() -> i64 {
    chrono::Utc::now().timestamp_millis()
}

} // verus!
