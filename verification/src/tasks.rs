//! Task store queries: finding a task by identifier and filtering the list
//! by status. Loading and persisting the store is the caller's concern;
//! these functions take the task list as a value.

use vstd::prelude::*;

verus! {

/// One log line attached to a task.
#[derive(Debug)]
pub struct TaskLogEntry {
    pub id: String,
    pub task_id: String,
    pub level: String,
    pub message: String,
    pub timestamp: String,
}

/// A stored task with its history.
#[derive(Debug)]
pub struct Task {
    pub id: String,
    pub title: String,
    pub status: String,
    pub created_at: String,
    pub updated_at: String,
    pub tags: Vec<String>,
    pub logs: Vec<TaskLogEntry>,
}

/// Request naming one task.
#[derive(Debug)]
pub struct TaskIdPayload {
    pub id: String,
}

/// Request filtering the task list.
#[derive(Debug)]
pub struct ListTasksPayload {
    pub status: Option<String>,
}

/// Response naming the task a run created.
#[derive(Debug)]
pub struct RunTaskResponse {
    pub task_id: String,
}

/// The first task in `s` whose id is `id`.
pub open spec fn spec_find_task(s: Seq<Task>, id: Seq<char>) -> Option<Task>
    decreases s.len(),
{
    if s.len() == 0 {
        None
    } else if s[0].id@ == id {
        Some(s[0])
    } else {
        spec_find_task(s.drop_first(), id)
    }
}

/// Scanning past a prefix without `id` does not change the find.
proof fn lemma_find_task_skip(s: Seq<Task>, id: Seq<char>, i: int)
    requires
        0 <= i <= s.len(),
        forall|j: int| 0 <= j < i ==> s[j].id@ != id,
    ensures
        spec_find_task(s, id) == spec_find_task(s.skip(i), id),
    decreases i,
{
    if i > 0 {
        lemma_find_task_skip(s, id, i - 1);
        assert(s.skip(i - 1).drop_first() =~= s.skip(i));
        assert(s.skip(i - 1)[0] == s[i - 1]);
    } else {
        assert(s.skip(0) =~= s);
    }
}

/// Whether `t` passes a status filter.
pub open spec fn keep_task(t: Task, filt: Option<Seq<char>>) -> bool {
    match filt {
        None => true,
        Some(s) => t.status@ == s,
    }
}

/// The status filter a list request asks for.
pub open spec fn spec_status_of(payload: Option<ListTasksPayload>) -> Option<Seq<char>> {
    match payload {
        None => None,
        Some(p) => match p.status {
            None => None,
            Some(s) => Some(s@),
        },
    }
}

/// The tasks that pass the filter, in their stored order.
pub open spec fn spec_list_tasks(s: Seq<Task>, filt: Option<Seq<char>>) -> Seq<Task> {
    s.filter(|t: Task| keep_task(t, filt))
}

/// Appending one element extends a filtered sequence by that element or
/// not, depending only on the predicate.
pub proof fn lemma_filter_push<A>(s: Seq<A>, x: A, pred: spec_fn(A) -> bool)
    ensures
        (s.push(x)).filter(pred) == if pred(x) {
            s.filter(pred).push(x)
        } else {
            s.filter(pred)
        },
{
    let s2 = s.push(x);
    assert(s2.drop_last() =~= s);
    assert(s2.last() == x);
    reveal(Seq::filter);
}

/// Returns the task named by `payload`, taking it out of the list. Succeeds
/// exactly when some task carries that id, and then hands back the first
/// such task.
#[verifier::loop_isolation(false)]
pub fn get_task(tasks: Vec<Task>, payload: TaskIdPayload) -> (r: Result<Task, String>)
    ensures
        spec_find_task(tasks@, payload.id@) is Some ==> r is Ok && r->Ok_0 == spec_find_task(
            tasks@,
            payload.id@,
        )->0,
        spec_find_task(tasks@, payload.id@) is None ==> r is Err && r->Err_0@
            == "task not found"@,
{
    let mut ts = tasks;
    let ghost orig = ts@;
    let mut i: usize = 0;
    while i < ts.len()
        invariant
            ts@ == orig,
            i <= ts@.len(),
            forall|j: int| 0 <= j < i ==> ts@[j].id@ != payload.id@,
        decreases ts@.len() - i,
    {
        if ts[i].id.eq(&payload.id) {
            proof {
                lemma_find_task_skip(orig, payload.id@, i as int);
                assert(orig.skip(i as int)[0] == orig[i as int]);
                assert(spec_find_task(orig, payload.id@) == Some(orig[i as int]));
            }
            return Ok(ts.remove(i));
        }
        i = i + 1;
    }
    proof {
        lemma_find_task_skip(orig, payload.id@, orig.len() as int);
    }
    Err("task not found".to_owned())
}

/// Returns the tasks that pass the request's status filter, in order.
/// Never fails.
#[verifier::loop_isolation(false)]
pub fn list_tasks(tasks: Vec<Task>, payload: Option<ListTasksPayload>) -> (r: Result<
    Vec<Task>,
    String,
>)
    ensures
        r is Ok,
        r->Ok_0@ == spec_list_tasks(tasks@, spec_status_of(payload)),
{
    let ghost orig = tasks@;
    let ghost filt = spec_status_of(payload);
    let mut tasks = tasks;
    let mut out: Vec<Task> = Vec::new();
    let ghost k: int = 0;
    while tasks.len() > 0
        invariant
            0 <= k <= orig.len(),
            tasks@ == orig.skip(k),
            out@ == orig.subrange(0, k).filter(|t: Task| keep_task(t, filt)),
            filt == spec_status_of(payload),
        decreases tasks@.len(),
    {
        let t = tasks.remove(0);
        proof {
            assert(t == orig[k]);
            assert(tasks@ =~= orig.skip(k + 1));
            assert(orig.subrange(0, k + 1) =~= orig.subrange(0, k).push(orig[k]));
            lemma_filter_push(orig.subrange(0, k), orig[k], |t: Task| keep_task(t, filt));
        }
        let keep = match &payload {
            None => true,
            Some(p) => match &p.status {
                None => true,
                Some(s) => t.status.eq(s),
            },
        };
        if keep {
            out.push(t);
        }
        proof {
            k = k + 1;
        }
    }
    proof {
        assert(orig.subrange(0, orig.len() as int) =~= orig);
    }
    Ok(out)
}

} // verus!
