//! The build-time map from task names to task indices, and the name
//! remappings the configuration tooling performs with it.

use vstd::prelude::*;

verus! {

/// A memory-mapped peripheral granted to a task: its base address and
/// size.
#[derive(Copy, Clone, Debug, PartialEq, Eq, Structural)]
pub struct Peripheral {
    /// First address of the peripheral's register window.
    pub address: u32,
    /// Size of the register window in bytes.
    pub size: u32,
}

/// Failure to resolve a task name.
#[derive(Clone, Debug, PartialEq, Eq)]
pub enum TaskIdsError {
    /// A name that no task in the application carries; the payload is
    /// that name.
    UnknownTask(String),
}

/// Map of task names to their indices, in application order.
pub struct TaskIds {
    /// Name and index pairs; names are unique and indices are their
    /// positions in the application's task list.
    pub pairs: Vec<(String, usize)>,
}

impl TaskIds {
    /// The index recorded for `name`: the first pair carrying it.
    pub open spec fn spec_get(self, name: Seq<char>) -> Option<usize> {
        if exists|i: int| 0 <= i < self.pairs@.len() && (#[trigger] self.pairs@[i]).0@ == name {
            let i = choose|i: int|
                0 <= i < self.pairs@.len() && (#[trigger] self.pairs@[i]).0@ == name;
            Some(self.pairs@[i].1)
        } else {
            None
        }
    }

    /// Whether no two pairs share a name.
    pub open spec fn names_unique(self) -> bool {
        forall|i: int, j: int|
            0 <= i < j < self.pairs@.len()
                ==> (#[trigger] self.pairs@[i]).0@ != (#[trigger] self.pairs@[j]).0@
    }

    /// Builds the map from the application's task names, in order: the
    /// task named first gets index zero, and so on.
    pub fn from_names(names: Vec<String>) -> (r: TaskIds)
        ensures
            r.pairs@.len() == names@.len(),
            forall|i: int|
                0 <= i < names@.len()
                    ==> (#[trigger] r.pairs@[i]).0 == names@[i] && r.pairs@[i].1 == i,
    {
        let mut pairs: Vec<(String, usize)> = Vec::new();
        let mut names = names;
        let ghost names0 = names@;
        let mut i: usize = 0;
        let n = names.len();
        while i < n
            invariant
                n == names0.len(),
                i <= n,
                pairs@.len() == i,
                names@ == names0.skip(i as int),
                forall|j: int|
                    0 <= j < i ==> (#[trigger] pairs@[j]).0 == names0[j] && pairs@[j].1 == j,
            decreases n - i,
        {
            let name = names.remove(0);
            proof {
                assert(names@ =~= names0.skip(i as int + 1));
            }
            pairs.push((name, i));
            i = i + 1;
        }
        TaskIds { pairs }
    }

    /// Gets the index of the task named `task_name`, or `None` when no
    /// task carries that name.
    pub fn get(&self, task_name: &String) -> (r: Option<usize>)
        requires
            self.names_unique(),
        ensures
            r == self.spec_get(task_name@),
    {
        let mut i: usize = 0;
        while i < self.pairs.len()
            invariant
                self.names_unique(),
                i <= self.pairs@.len(),
                forall|j: int| 0 <= j < i ==> (#[trigger] self.pairs@[j]).0@ != task_name@,
            decreases self.pairs@.len() - i,
        {
            if self.pairs[i].0 == *task_name {
                proof {
                    assert(self.pairs@[i as int].0@ == task_name@);
                    let w = choose|w: int|
                        0 <= w < self.pairs@.len() && (#[trigger] self.pairs@[w]).0@
                            == task_name@;
                    if w != i {
                        assert(self.pairs@[w].0@ == self.pairs@[i as int].0@);
                        assert(false);
                    }
                    assert(self.spec_get(task_name@) == Some(self.pairs@[i as int].1));
                }
                return Some(self.pairs[i].1);
            }
            i = i + 1;
        }
        None
    }

    /// Converts a list of task names into their indices, in the same
    /// order; the first unknown name fails the whole conversion and is
    /// reported in the error.
    pub fn names_to_ids(&self, names: &Vec<String>) -> (r: Result<Vec<usize>, TaskIdsError>)
        requires
            self.names_unique(),
        ensures
            r is Ok <==> (forall|i: int|
                0 <= i < names@.len() ==> self.spec_get((#[trigger] names@[i])@) is Some),
            match r {
                Ok(ids) => {
                    &&& ids@.len() == names@.len()
                    &&& forall|i: int|
                        0 <= i < names@.len()
                            ==> Some((#[trigger] ids@[i])) == self.spec_get(names@[i]@)
                },
                Err(TaskIdsError::UnknownTask(n)) => exists|i: int|
                    0 <= i < names@.len() && self.spec_get((#[trigger] names@[i])@) is None
                        && n@ == names@[i]@ && (forall|j: int|
                        0 <= j < i ==> self.spec_get((#[trigger] names@[j])@) is Some),
            },
    {
        let mut ids: Vec<usize> = Vec::new();
        let mut i: usize = 0;
        while i < names.len()
            invariant
                self.names_unique(),
                i <= names@.len(),
                ids@.len() == i,
                forall|j: int|
                    0 <= j < i ==> Some((#[trigger] ids@[j])) == self.spec_get(names@[j]@),
            decreases names@.len() - i,
        {
            match self.get(&names[i]) {
                Some(id) => {
                    ids.push(id);
                },
                None => {
                    proof {
                        assert(self.spec_get((names@[i as int])@) is None);
                        assert forall|j: int| 0 <= j < i implies self.spec_get(
                            (#[trigger] names@[j])@,
                        ) is Some by {
                            assert(Some(ids@[j]) == self.spec_get(names@[j]@));
                        }
                    }
                    return Err(TaskIdsError::UnknownTask(names[i].clone()));
                },
            }
            i = i + 1;
        }
        proof {
            assert forall|x: int| 0 <= x < names@.len() implies self.spec_get(
                (#[trigger] names@[x])@,
            ) is Some by {
                assert(Some(ids@[x]) == self.spec_get(names@[x]@));
            }
        }
        Ok(ids)
    }

    /// Converts a map of operation names to allowed callers by name into
    /// the same map with callers by index, each caller list resolved as
    /// `names_to_ids` resolves it; an unknown caller name fails the whole
    /// conversion and is reported in the error.
    pub fn remap_allowed_caller_names_to_ids(
        &self,
        allowed_callers: &Vec<(String, Vec<String>)>,
    ) -> (r: Result<Vec<(String, Vec<usize>)>, TaskIdsError>)
        requires
            self.names_unique(),
        ensures
            r is Ok <==> (forall|i: int, j: int|
                0 <= i < allowed_callers@.len() && 0 <= j < allowed_callers@[i].1@.len()
                    ==> self.spec_get((#[trigger] allowed_callers@[i].1@[j])@) is Some),
            match r {
                Ok(remapped) => {
                    &&& remapped@.len() == allowed_callers@.len()
                    &&& forall|i: int|
                        0 <= i < allowed_callers@.len()
                            ==> (#[trigger] remapped@[i]).0 == allowed_callers@[i].0
                                && remapped@[i].1@.len() == allowed_callers@[i].1@.len()
                    &&& forall|i: int, j: int|
                        0 <= i < allowed_callers@.len() && 0 <= j
                            < allowed_callers@[i].1@.len()
                            ==> Some((#[trigger] remapped@[i].1@[j])) == self.spec_get(
                                allowed_callers@[i].1@[j]@,
                            )
                },
                Err(TaskIdsError::UnknownTask(n)) => exists|i: int, j: int|
                    0 <= i < allowed_callers@.len() && 0 <= j < allowed_callers@[i].1@.len()
                        && self.spec_get((#[trigger] allowed_callers@[i].1@[j])@) is None
                        && n@ == allowed_callers@[i].1@[j]@,
            },
    {
        let mut remapped: Vec<(String, Vec<usize>)> = Vec::new();
        let mut i: usize = 0;
        while i < allowed_callers.len()
            invariant
                self.names_unique(),
                i <= allowed_callers@.len(),
                remapped@.len() == i,
                forall|j: int|
                    0 <= j < i ==> (#[trigger] remapped@[j]).0 == allowed_callers@[j].0
                        && remapped@[j].1@.len() == allowed_callers@[j].1@.len(),
                forall|x: int, y: int|
                    0 <= x < i && 0 <= y < allowed_callers@[x].1@.len()
                        ==> Some((#[trigger] remapped@[x].1@[y])) == self.spec_get(
                            allowed_callers@[x].1@[y]@,
                        ),
            decreases allowed_callers@.len() - i,
        {
            let name = allowed_callers[i].0.clone();
            let ids = match self.names_to_ids(&allowed_callers[i].1) {
                Ok(ids) => ids,
                Err(e) => {
                    proof {
                        let list = allowed_callers@[i as int].1;
                        let w = choose|w: int|
                            0 <= w < list@.len() && self.spec_get(
                                (#[trigger] list@[w])@,
                            ) is None;
                        assert(self.spec_get((allowed_callers@[i as int].1@[w])@) is None);
                    }
                    return Err(e);
                },
            };
            remapped.push((name, ids));
            i = i + 1;
        }
        proof {
            assert forall|x: int, y: int|
                0 <= x < allowed_callers@.len() && 0 <= y < allowed_callers@[x].1@.len()
                    implies self.spec_get(
                (#[trigger] allowed_callers@[x].1@[y])@,
            ) is Some by {
                assert(Some(remapped@[x].1@[y]) == self.spec_get(
                    allowed_callers@[x].1@[y]@,
                ));
            }
        }
        Ok(remapped)
    }
}

} // verus!
