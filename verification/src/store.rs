//! The Task Store: the authoritative mapping from task identity to task
//! record, exposing insert, point lookup, and in-place mutation of a single
//! record's status. Its mathematical image is a `Map` from identity to
//! record.

use vstd::prelude::*;

use crate::task::{Task, TaskStatus, TaskView};

verus! {

/// Whether some record in `s` carries the identity `id`.
spec fn has_id(s: Seq<Task>, id: u128) -> bool {
    exists|i: int| 0 <= i < s.len() && s[i].id == id
}

/// The position of the record carrying `id` (meaningful only under
/// `ids_unique` and `has_id`).
spec fn idx_of(s: Seq<Task>, id: u128) -> int {
    choose|i: int| 0 <= i < s.len() && s[i].id == id
}

/// No two records carry the same identity.
spec fn ids_unique(s: Seq<Task>) -> bool {
    forall|i: int, j: int|
        0 <= i < s.len() && 0 <= j < s.len() && s[i].id == s[j].id ==> i == j
}

/// The mapping that a sequence of records with unique identities stands for.
spec fn map_of(s: Seq<Task>) -> Map<u128, TaskView> {
    Map::new(|id: u128| has_id(s, id), |id: u128| s[idx_of(s, id)]@)
}

proof fn lemma_idx_of_found(s: Seq<Task>, i: int)
    requires
        ids_unique(s),
        0 <= i < s.len(),
    ensures
        idx_of(s, s[i].id) == i,
{
    let id = s[i].id;
    assert(has_id(s, id));
    let j = idx_of(s, id);
    assert(0 <= j < s.len() && s[j].id == id);
}

/// A concurrent-map abstraction in sequential form: the synchronization
/// wrapper (one mutual-exclusion lock around the whole mapping) is the
/// caller's concern; every operation here is a single short critical
/// section.
pub struct TaskStore {
    tasks: Vec<Task>,
}

impl View for TaskStore {
    type V = Map<u128, TaskView>;

    closed spec fn view(&self) -> Map<u128, TaskView> {
        map_of(self.tasks@)
    }
}

impl TaskStore {
    /// Identities in the backing vector never repeat.
    pub closed spec fn wf(&self) -> bool {
        ids_unique(self.tasks@)
    }

    /// Every stored record carries the identity it is keyed by.
    pub proof fn lemma_key_matches_record(&self, id: u128)
        requires
            self.wf(),
            self@.contains_key(id),
        ensures
            self@[id].id == id,
    {
    }

    pub fn new() -> (s: TaskStore)
        ensures
            s.wf(),
            s@ == Map::<u128, TaskView>::empty(),
    {
        let s = TaskStore { tasks: Vec::new() };
        proof {
            assert(s@ =~= Map::<u128, TaskView>::empty());
        }
        s
    }

    /// The position of the record keyed by `id`, if any.
    fn find(&self, id: u128) -> (r: Option<usize>)
        requires
            self.wf(),
        ensures
            match r {
                Some(i) => i < self.tasks@.len() && self.tasks@[i as int].id == id,
                None => !self@.contains_key(id),
            },
    {
        let mut i: usize = 0;
        while i < self.tasks.len()
            invariant
                i <= self.tasks@.len(),
                forall|k: int| 0 <= k < i ==> self.tasks@[k].id != id,
            decreases self.tasks@.len() - i,
        {
            if self.tasks[i].id == id {
                return Some(i);
            }
            i = i + 1;
        }
        None
    }

    /// Adds the record keyed by its identity. If the identity is already
    /// present the newer write overwrites the older record.
    pub fn insert(&mut self, task: Task)
        requires
            old(self).wf(),
        ensures
            final(self).wf(),
            final(self)@ == old(self)@.insert(task.id, task@),
    {
        let r = self.find(task.id);
        match r {
            Some(i) => {
                proof {
                    lemma_idx_of_found(self.tasks@, i as int);
                }
                let ghost pre = self.tasks@;
                vstd::pervasive::VecAdditionalExecFns::set(&mut self.tasks, i, task);
                proof {
                    self.lemma_map_after_update(pre, i as int);
                }
            },
            None => {
                let ghost pre = self.tasks@;
                self.tasks.push(task);
                proof {
                    self.lemma_map_after_push(pre);
                }
            },
        }
    }

    proof fn lemma_map_after_update(&self, pre: Seq<Task>, i: int)
        requires
            ids_unique(pre),
            0 <= i < pre.len(),
            self.tasks@ == pre.update(i, self.tasks@[i]),
            self.tasks@[i].id == pre[i].id,
        ensures
            self.wf(),
            self@ == map_of(pre).insert(pre[i].id, self.tasks@[i]@),
    {
        let post = self.tasks@;
        let t = post[i];
        assert forall|a: int, b: int|
            0 <= a < post.len() && 0 <= b < post.len() && post[a].id == post[b].id implies a
            == b by {
            assert(post[a].id == pre[a].id);
            assert(post[b].id == pre[b].id);
        }
        assert forall|id: u128| #[trigger] has_id(post, id) implies has_id(pre, id) by {
            let k = choose|k: int| 0 <= k < post.len() && post[k].id == id;
            assert(pre[k].id == id);
        }
        assert forall|id: u128| #[trigger] has_id(pre, id) implies has_id(post, id) by {
            let k = choose|k: int| 0 <= k < pre.len() && pre[k].id == id;
            assert(post[k].id == id);
        }
        assert forall|id: u128| has_id(post, id) && id != t.id implies #[trigger] map_of(
            post,
        )[id] == map_of(pre)[id] by {
            let k = idx_of(post, id);
            assert(0 <= k < post.len() && post[k].id == id);
            assert(pre[k].id == id);
            lemma_idx_of_found(pre, k);
            assert(k != i);
        }
        assert(has_id(post, t.id));
        lemma_idx_of_found(post, i);
        assert(map_of(post)[t.id] == t@);
        assert(self@ =~= map_of(pre).insert(pre[i].id, t@));
    }

    proof fn lemma_map_after_push(&self, pre: Seq<Task>)
        requires
            ids_unique(pre),
            !has_id(pre, self.tasks@.last().id),
            self.tasks@ == pre.push(self.tasks@.last()),
        ensures
            self.wf(),
            self@ == map_of(pre).insert(self.tasks@.last().id, self.tasks@.last()@),
    {
        let post = self.tasks@;
        let t = post.last();
        let n = pre.len() as int;
        assert forall|a: int, b: int|
            0 <= a < post.len() && 0 <= b < post.len() && post[a].id == post[b].id implies a
            == b by {
            if a < n && b < n {
                assert(post[a].id == pre[a].id);
                assert(post[b].id == pre[b].id);
            } else if a < n && b == n {
                assert(has_id(pre, t.id)) by { assert(pre[a].id == t.id); }
            } else if a == n && b < n {
                assert(has_id(pre, t.id)) by { assert(pre[b].id == t.id); }
            }
        }
        assert forall|id: u128| #[trigger] has_id(pre, id) implies has_id(post, id) by {
            let k = choose|k: int| 0 <= k < pre.len() && pre[k].id == id;
            assert(post[k].id == id);
        }
        assert forall|id: u128| has_id(post, id) && id != t.id implies #[trigger] has_id(
            pre,
            id,
        ) by {
            let k = choose|k: int| 0 <= k < post.len() && post[k].id == id;
            assert(k < n);
            assert(pre[k].id == id);
        }
        assert forall|id: u128| has_id(post, id) && id != t.id implies #[trigger] map_of(
            post,
        )[id] == map_of(pre)[id] by {
            let k = idx_of(post, id);
            assert(0 <= k < post.len() && post[k].id == id);
            assert(k < n);
            lemma_idx_of_found(pre, k);
        }
        assert(has_id(post, t.id)) by { assert(post[n].id == t.id); }
        lemma_idx_of_found(post, n);
        assert(map_of(post)[t.id] == t@);
        assert(self@ =~= map_of(pre).insert(t.id, t@));
    }

    /// Returns a copy of the current record keyed by `id`, or absence if the
    /// identity is unknown.
    pub fn get(&self, id: u128) -> (r: Option<Task>)
        requires
            self.wf(),
        ensures
            match r {
                Some(t) => self@.contains_key(id) && t@ == self@[id],
                None => !self@.contains_key(id),
            },
    {
        let r = self.find(id);
        match r {
            Some(i) => {
                proof {
                    lemma_idx_of_found(self.tasks@, i as int);
                    assert(has_id(self.tasks@, id));
                }
                Some(self.tasks[i].clone())
            },
            None => None,
        }
    }

    /// Mutates only the `status` field of the record keyed by `id`; a no-op
    /// reporting `false` if the identity is absent.
    pub fn update_status(&mut self, id: u128, status: TaskStatus) -> (r: bool)
        requires
            old(self).wf(),
        ensures
            final(self).wf(),
            r == old(self)@.contains_key(id),
            r ==> final(self)@ == old(self)@.insert(
                id,
                (TaskView { status: status@, ..old(self)@[id] }),
            ),
            !r ==> *final(self) == *old(self),
    {
        let r = self.find(id);
        match r {
            Some(i) => {
                proof {
                    lemma_idx_of_found(self.tasks@, i as int);
                    assert(has_id(self.tasks@, id));
                }
                let current = &self.tasks[i];
                let updated = Task {
                    id: current.id,
                    name: current.name.clone(),
                    priority: current.priority,
                    status,
                };
                let ghost pre = self.tasks@;
                vstd::pervasive::VecAdditionalExecFns::set(&mut self.tasks, i, updated);
                proof {
                    self.lemma_map_after_update(pre, i as int);
                    assert(map_of(pre)[id].id == id);
                }
                true
            },
            None => false,
        }
    }
}

} // verus!
