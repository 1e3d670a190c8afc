//! Task graph nodes and the readiness rule used when a request is split
//! into dependent sub-tasks.
use vstd::prelude::*;

verus! {

/// Lifecycle state of a sub-task.
#[derive(Debug, Clone, Copy, PartialEq, Eq, Structural)]
pub enum TaskStatus {
    Pending,
    Running,
    Completed,
    Failed,
}

/// A node of the task graph.
#[derive(Debug, Clone)]
pub struct Task {
    pub id: String,
    pub description: String,
    pub status: TaskStatus,
    /// Ids of the tasks that must complete first.
    pub dependencies: Vec<String>,
    pub result: Option<String>,
}

/// Splits a user request into sub-tasks and schedules them.
pub struct TaskDecomposer;

/// Status of the first task in `tasks` whose id is `id`.
pub open spec fn status_of(tasks: Seq<Task>, id: Seq<char>) -> Option<TaskStatus>
    decreases tasks.len(),
{
    if tasks.len() == 0 {
        None
    } else if tasks[0].id@ == id {
        Some(tasks[0].status)
    } else {
        status_of(tasks.drop_first(), id)
    }
}

/// A dependency is satisfied when the first task carrying its id has completed.
pub open spec fn dependency_done(tasks: Seq<Task>, dep: Seq<char>) -> bool {
    status_of(tasks, dep) == Some(TaskStatus::Completed)
}

/// A task can run: it is pending and every dependency is satisfied.
pub open spec fn is_ready(tasks: Seq<Task>, t: Task) -> bool {
    &&& t.status == TaskStatus::Pending
    &&& forall|j: int| 0 <= j < t.dependencies@.len() ==> dependency_done(tasks, #[trigger] t.dependencies@[j]@)
}

/// Ids of the ready tasks among the first `k` tasks, in order.
pub open spec fn ready_ids_upto(tasks: Seq<Task>, k: int) -> Seq<Seq<char>>
    decreases k,
{
    if k <= 0 {
        Seq::empty()
    } else {
        let prev = ready_ids_upto(tasks, k - 1);
        if is_ready(tasks, tasks[k - 1]) {
            prev.push(tasks[k - 1].id@)
        } else {
            prev
        }
    }
}

/// Ids of all ready tasks, in task order.
pub open spec fn ready_ids(tasks: Seq<Task>) -> Seq<Seq<char>> {
    ready_ids_upto(tasks, tasks.len() as int)
}

/// Views of a vector of strings.
pub open spec fn string_views(v: Seq<String>) -> Seq<Seq<char>> {
    v.map_values(|s: String| s@)
}

proof fn lemma_status_of_index(tasks: Seq<Task>, id: Seq<char>, i: int)
    requires
        0 <= i < tasks.len(),
        tasks[i].id@ == id,
        forall|k: int| 0 <= k < i ==> tasks[k].id@ != id,
    ensures
        status_of(tasks, id) == Some(tasks[i].status),
    decreases i,
{
    if i > 0 {
        lemma_status_of_index(tasks.drop_first(), id, i - 1);
    }
}

proof fn lemma_status_of_none(tasks: Seq<Task>, id: Seq<char>)
    requires
        forall|k: int| 0 <= k < tasks.len() ==> tasks[k].id@ != id,
    ensures
        status_of(tasks, id) == None::<TaskStatus>,
    decreases tasks.len(),
{
    if tasks.len() > 0 {
        lemma_status_of_none(tasks.drop_first(), id);
    }
}

/// Task `d` is the first task whose id is `id`.
pub open spec fn first_with_id(tasks: Seq<Task>, id: Seq<char>, d: int) -> bool {
    &&& 0 <= d < tasks.len()
    &&& tasks[d].id@ == id
    &&& forall|m: int| 0 <= m < d ==> tasks[m].id@ != id
}

proof fn lemma_status_of_some(tasks: Seq<Task>, id: Seq<char>)
    requires
        status_of(tasks, id) is Some,
    ensures
        exists|d: int| first_with_id(tasks, id, d) && status_of(tasks, id) == Some(tasks[d].status),
    decreases tasks.len(),
{
    if tasks[0].id@ == id {
        assert(first_with_id(tasks, id, 0));
    } else {
        let rest = tasks.drop_first();
        lemma_status_of_some(rest, id);
        let d = choose|d: int| first_with_id(rest, id, d) && status_of(rest, id) == Some(rest[d].status);
        assert forall|m: int| 0 <= m < d + 1 implies tasks[m].id@ != id by {
            if m > 0 {
                assert(tasks[m] == rest[m - 1]);
            }
        }
        assert(first_with_id(tasks, id, d + 1));
    }
}

proof fn lemma_ready_member(tasks: Seq<Task>, k: int, n: int)
    requires
        0 <= k <= tasks.len(),
        0 <= n < ready_ids_upto(tasks, k).len(),
    ensures
        exists|i: int| 0 <= i < k && tasks[i].id@ == ready_ids_upto(tasks, k)[n] && is_ready(tasks, #[trigger] tasks[i]),
    decreases k,
{
    if k > 0 {
        let prev = ready_ids_upto(tasks, k - 1);
        if is_ready(tasks, tasks[k - 1]) && n == prev.len() {
            assert(tasks[k - 1].id@ == ready_ids_upto(tasks, k)[n]);
        } else {
            lemma_ready_member(tasks, k - 1, n);
            let i = choose|i: int| 0 <= i < k - 1 && tasks[i].id@ == prev[n] && is_ready(tasks, #[trigger] tasks[i]);
            assert(tasks[i].id@ == ready_ids_upto(tasks, k)[n]);
        }
    }
}

/// Every id that `get_ready_tasks` lists belongs to a pending task, and each
/// dependency of that task names a task whose first occurrence in the list
/// has status `Completed`.
pub proof fn law_ready_tasks_wait_for_completed_dependencies(tasks: Seq<Task>, n: int)
    requires
        0 <= n < ready_ids(tasks).len(),
    ensures
        exists|i: int|
            #![trigger tasks[i]]
            0 <= i < tasks.len() && tasks[i].id@ == ready_ids(tasks)[n] && tasks[i].status == TaskStatus::Pending
                && forall|j: int|
                #![trigger tasks[i].dependencies@[j]]
                0 <= j < tasks[i].dependencies@.len() ==> exists|d: int|
                    #![trigger tasks[d]]
                    first_with_id(tasks, tasks[i].dependencies@[j]@, d) && tasks[d].status == TaskStatus::Completed,
{
    lemma_ready_member(tasks, tasks.len() as int, n);
    let i = choose|i: int| 0 <= i < tasks.len() && tasks[i].id@ == ready_ids(tasks)[n] && is_ready(tasks, #[trigger] tasks[i]);
    assert forall|j: int|
        #![trigger tasks[i].dependencies@[j]]
        0 <= j < tasks[i].dependencies@.len() implies exists|d: int|
        #![trigger tasks[d]]
        first_with_id(tasks, tasks[i].dependencies@[j]@, d) && tasks[d].status == TaskStatus::Completed by {
        let dep = tasks[i].dependencies@[j]@;
        assert(dependency_done(tasks, dep));
        lemma_status_of_some(tasks, dep);
        let d = choose|d: int| first_with_id(tasks, dep, d) && status_of(tasks, dep) == Some(tasks[d].status);
        assert(tasks[d].status == TaskStatus::Completed);
    }
}

/// A task with a dependency whose first task has not completed (it is
/// pending, running or failed) is not ready: where no other task shares
/// its id, its id is not in the result of `get_ready_tasks`.
pub proof fn law_unfinished_dependency_blocks(tasks: Seq<Task>, i: int, j: int, d: int)
    requires
        0 <= i < tasks.len(),
        0 <= j < tasks[i].dependencies@.len(),
        first_with_id(tasks, tasks[i].dependencies@[j]@, d),
        tasks[d].status != TaskStatus::Completed,
        forall|m: int| 0 <= m < tasks.len() && m != i ==> tasks[m].id@ != tasks[i].id@,
    ensures
        !ready_ids(tasks).contains(tasks[i].id@),
{
    let dep = tasks[i].dependencies@[j]@;
    lemma_status_of_index(tasks, dep, d);
    if ready_ids(tasks).contains(tasks[i].id@) {
        let n = choose|n: int| 0 <= n < ready_ids(tasks).len() && ready_ids(tasks)[n] == tasks[i].id@;
        lemma_ready_member(tasks, tasks.len() as int, n);
        let k = choose|k: int| 0 <= k < tasks.len() && tasks[k].id@ == ready_ids(tasks)[n] && is_ready(tasks, #[trigger] tasks[k]);
        assert(k == i);
        assert(dependency_done(tasks, tasks[i].dependencies@[j]@));
    }
}

/// Whether the first task whose id equals `dep` has completed.
fn dependency_completed(tasks: &[Task], dep: &String) -> (b: bool)
    ensures
        b == dependency_done(tasks@, dep@),
{
    let mut k: usize = 0;
    while k < tasks.len()
        invariant
            k <= tasks@.len(),
            forall|m: int| 0 <= m < k ==> tasks@[m].id@ != dep@,
        decreases tasks.len() - k,
    {
        if tasks[k].id == *dep {
            proof {
                lemma_status_of_index(tasks@, dep@, k as int);
            }
            return tasks[k].status == TaskStatus::Completed;
        }
        k = k + 1;
    }
    proof {
        lemma_status_of_none(tasks@, dep@);
    }
    false
}

/// Whether a task is ready to run.
fn task_ready(tasks: &[Task], t: &Task) -> (b: bool)
    ensures
        b == is_ready(tasks@, *t),
{
    if t.status != TaskStatus::Pending {
        return false;
    }
    let mut j: usize = 0;
    while j < t.dependencies.len()
        invariant
            j <= t.dependencies@.len(),
            t.status == TaskStatus::Pending,
            forall|m: int| 0 <= m < j ==> dependency_done(tasks@, #[trigger] t.dependencies@[m]@),
        decreases t.dependencies.len() - j,
    {
        if !dependency_completed(tasks, &t.dependencies[j]) {
            return false;
        }
        j = j + 1;
    }
    true
}

impl TaskDecomposer {
    /// Ids of the tasks that can run now: pending tasks whose dependencies
    /// have all completed (a dependency on an unknown id is never satisfied).
    pub fn get_ready_tasks(tasks: &[Task]) -> (r: Vec<String>)
        ensures
            string_views(r@) == ready_ids(tasks@),
    {
        let mut r: Vec<String> = Vec::new();
        let mut i: usize = 0;
        while i < tasks.len()
            invariant
                i <= tasks@.len(),
                string_views(r@) == ready_ids_upto(tasks@, i as int),
            decreases tasks.len() - i,
        {
            let ghost before = r@;
            if task_ready(tasks, &tasks[i]) {
                r.push(tasks[i].id.clone());
                assert(string_views(r@) =~= string_views(before).push(tasks@[i as int].id@));
            }
            i = i + 1;
        }
        r
    }
}

} // verus!
