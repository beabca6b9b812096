//! The task store: the owning collection of [`Task`] records.
//!
//! The store appends, removes, finds and mutates tasks.  Identifiers are
//! handed out as the store's size at creation time, so removing a task can
//! let a later `add` reuse an identifier that an older surviving task still
//! holds; lookups resolve to the first match.  The store's view is the
//! sequence of its tasks in insertion order.

use vstd::prelude::*;

use crate::task::{display_line_spec, Priority, Status, Task};
use crate::text::{dec_rep, lemma_filter_none, lemma_filter_push, str_eq, u32_to_string};

verus! {

/// How a task is singled out: by its exact title, or by its identifier.
#[derive(Clone, Copy)]
pub enum TaskSelector<'a> {
    Title(&'a str),
    Id(u32),
}

/// The failure of a lookup: no task matched the selector.
#[derive(Clone, Copy, PartialEq, Eq, Debug, Structural)]
pub struct TaskNotFountError;

/// The orderings `log_tasks` can apply before listing the store.
#[derive(Clone, Copy)]
pub enum SortBy {
    Priority,
    Title,
    Id,
    Status,
    Unsorted,
}

/// Whether `sel` singles out `t`.
pub open spec fn sel_matches(sel: TaskSelector, t: Task) -> bool {
    match sel {
        TaskSelector::Title(s) => t.title@ == s@,
        TaskSelector::Id(id) => t.id == id,
    }
}

/// The position of the first task at or after `i` that `sel` singles out.
pub open spec fn find_from(tasks: Seq<Task>, sel: TaskSelector, i: nat) -> Option<nat>
    decreases tasks.len() - i,
{
    if i >= tasks.len() {
        None
    } else if sel_matches(sel, tasks[i as int]) {
        Some(i)
    } else {
        find_from(tasks, sel, i + 1)
    }
}

/// The position of the first task that `sel` singles out.
pub open spec fn find_sel(tasks: Seq<Task>, sel: TaskSelector) -> Option<nat> {
    find_from(tasks, sel, 0)
}

/// The position of the first task with identifier `id`.
pub open spec fn find_id(tasks: Seq<Task>, id: u32) -> Option<nat> {
    find_sel(tasks, TaskSelector::Id(id))
}

/// The identifier the store hands to the next task: its size, reduced to
/// the identifier's width.
pub open spec fn next_id(tasks: Seq<Task>) -> u32 {
    tasks.len() as u32
}

/// What a found position means: it is the first position at or after `i`
/// whose task the selector singles out; `None` means no task from `i` on
/// matches.
pub proof fn lemma_find_from_props(tasks: Seq<Task>, sel: TaskSelector, i: nat)
    ensures
        match find_from(tasks, sel, i) {
            Some(j) => {
                &&& i <= j < tasks.len()
                &&& sel_matches(sel, tasks[j as int])
                &&& forall|k: int| i <= k < j ==> !sel_matches(sel, #[trigger] tasks[k])
            },
            None => forall|k: int| i <= k < tasks.len() ==> !sel_matches(sel, #[trigger] tasks[k]),
        },
    decreases tasks.len() - i,
{
    if i < tasks.len() && !sel_matches(sel, tasks[i as int]) {
        lemma_find_from_props(tasks, sel, i + 1);
    }
}

/// [`lemma_find_from_props`] for a search of the whole store.
pub proof fn lemma_find_sel_props(tasks: Seq<Task>, sel: TaskSelector)
    ensures
        match find_sel(tasks, sel) {
            Some(j) => {
                &&& j < tasks.len()
                &&& sel_matches(sel, tasks[j as int])
                &&& forall|k: int| 0 <= k < j ==> !sel_matches(sel, #[trigger] tasks[k])
            },
            None => forall|k: int| 0 <= k < tasks.len() ==> !sel_matches(sel, #[trigger] tasks[k]),
        },
{
    lemma_find_from_props(tasks, sel, 0);
}

/// The owning collection of tasks.
pub struct TaskManager {
    tasks: Vec<Task>,
}

impl View for TaskManager {
    type V = Seq<Task>;

    closed spec fn view(&self) -> Seq<Task> {
        self.tasks@
    }
}

impl Default for TaskManager {
    /// An empty store.
    fn default() -> (r: TaskManager)
        ensures
            r@ == Seq::<Task>::empty(),
    {
        TaskManager { tasks: Vec::new() }
    }
}

impl TaskManager {
    /// A store holding exactly the given tasks, as a reload hands them
    /// back.
    pub fn from_tasks(tasks: Vec<Task>) -> (r: TaskManager)
        ensures
            r@ == tasks@,
    {
        TaskManager { tasks }
    }

    /// The tasks, in insertion order.
    pub fn tasks(&self) -> (r: &Vec<Task>)
        ensures
            r@ == self@,
    {
        &self.tasks
    }

    /// How many tasks the store holds.
    pub fn len(&self) -> (r: usize)
        ensures
            r == self@.len(),
    {
        self.tasks.len()
    }

    /// Append a new task built from the given fields; its identifier is
    /// the store's current size.
    pub fn new_task(&mut self, title: &str, description: &str, priority: Priority, status: Status)
        ensures
            final(self)@.len() == old(self)@.len() + 1,
            final(self)@.drop_last() == old(self)@,
            final(self)@.last().id == next_id(old(self)@),
            final(self)@.last().title@ == title@,
            final(self)@.last().description@ == description@,
            final(self)@.last().priority == priority,
            final(self)@.last().status == status,
    {
        let id: u32 = #[verifier::truncate] (self.tasks.len() as u32);
        let t = Task::new(id, title, description, priority, status);
        self.tasks.push(t);
        proof {
            assert(final(self)@.drop_last() =~= old(self)@);
        }
    }

    /// The position of the first task that `sel` singles out, if any.
    #[verifier::loop_isolation(false)]
    fn find_index(&self, sel: &TaskSelector) -> (r: Option<usize>)
        ensures
            match r {
                Some(i) => find_sel(self@, *sel) == Some(i as nat),
                None => find_sel(self@, *sel) is None,
            },
    {
        let mut i: usize = 0;
        while i < self.tasks.len()
            invariant
                i <= self@.len(),
                find_sel(self@, *sel) == find_from(self@, *sel, i as nat),
            decreases self@.len() - i,
        {
            let hit = match sel {
                TaskSelector::Title(title) => str_eq(self.tasks[i].title.as_str(), title),
                TaskSelector::Id(id) => self.tasks[i].id == *id,
            };
            if hit {
                return Some(i);
            }
            i += 1;
        }
        None
    }

    /// The first task whose title is exactly `title`, if any.
    pub fn get_task_by_title(&self, title: &str) -> (r: Option<&Task>)
        ensures
            match r {
                Some(t) => {
                    &&& find_sel(self@, TaskSelector::Title(title)) is Some
                    &&& *t == self@[find_sel(self@, TaskSelector::Title(title)).unwrap() as int]
                },
                None => find_sel(self@, TaskSelector::Title(title)) is None,
            },
    {
        match self.find_index(&TaskSelector::Title(title)) {
            Some(i) => {
                proof {
                    lemma_find_sel_props(self@, TaskSelector::Title(title));
                }
                Some(&self.tasks[i])
            },
            None => None,
        }
    }

    /// The first task with identifier `id`, if any.
    pub fn get_task_by_id(&self, id: u32) -> (r: Option<&Task>)
        ensures
            match r {
                Some(t) => {
                    &&& find_id(self@, id) is Some
                    &&& *t == self@[find_id(self@, id).unwrap() as int]
                },
                None => find_id(self@, id) is None,
            },
    {
        match self.find_index(&TaskSelector::Id(id)) {
            Some(i) => {
                proof {
                    lemma_find_sel_props(self@, TaskSelector::Id(id));
                }
                Some(&self.tasks[i])
            },
            None => None,
        }
    }

    /// Remove every task that `sel` singles out, keeping the rest in
    /// order.  Removing with a selector nothing matches leaves the store
    /// as it was and is not an error.
    #[verifier::loop_isolation(false)]
    pub fn remove_task(&mut self, task_selector: TaskSelector)
        ensures
            final(self)@ == old(self)@.filter(|t: Task| !sel_matches(task_selector, t)),
    {
        let ghost orig = old(self)@;
        let ghost keep = |t: Task| !sel_matches(task_selector, t);
        let mut i: usize = 0;
        let ghost mut j: int = 0;
        proof {
            assert(orig.take(0) =~= Seq::<Task>::empty());
            reveal(Seq::filter);
            assert(self.tasks@ =~= orig.take(0).filter(keep) + orig.skip(0));
        }
        while i < self.tasks.len()
            invariant
                0 <= i as int,
                i as int <= j <= orig.len(),
                self.tasks@ == orig.take(j).filter(keep) + orig.skip(j),
                i as int == orig.take(j).filter(keep).len(),
            decreases orig.len() - j,
        {
            let hit = match task_selector {
                TaskSelector::Title(title) => str_eq(self.tasks[i].title.as_str(), title),
                TaskSelector::Id(id) => self.tasks[i].id == id,
            };
            let ghost pre = self.tasks@;
            let ghost kept = orig.take(j).filter(keep);
            proof {
                assert(pre[i as int] == orig[j]);
                assert(orig.take(j + 1) =~= orig.take(j).push(orig[j]));
                lemma_filter_push(orig.take(j), orig[j], keep);
                assert(orig.skip(j).drop_first() =~= orig.skip(j + 1));
            }
            if hit {
                self.tasks.remove(i);
                proof {
                    assert(orig.take(j + 1).filter(keep) == kept);
                    assert(self.tasks@ == pre.remove(i as int));
                    assert(pre.remove(i as int) =~= kept + orig.skip(j + 1));
                }
            } else {
                i += 1;
                proof {
                    assert(orig.take(j + 1).filter(keep) == kept.push(orig[j]));
                    assert(self.tasks@ =~= kept.push(orig[j]) + orig.skip(j + 1));
                }
            }
            proof {
                j = j + 1;
            }
        }
        proof {
            assert(orig.skip(j).len() == 0);
            assert(orig.take(j) =~= orig);
        }
    }

    /// Replace the task at `i` by the same task with `status` changed.
    fn set_status_at(&mut self, i: usize, status: Status)
        requires
            i < old(self)@.len(),
        ensures
            final(self)@ == old(self)@.update(
                i as int,
                Task { status, ..old(self)@[i as int] },
            ),
    {
        let t = self.tasks.remove(i);
        let t2 = Task { status, ..t };
        self.tasks.insert(i, t2);
        proof {
            assert(final(self)@ =~= old(self)@.update(
                i as int,
                Task { status, ..old(self)@[i as int] },
            ));
        }
    }

    /// Replace the task at `i` by the same task with `priority` changed.
    fn set_priority_at(&mut self, i: usize, priority: Priority)
        requires
            i < old(self)@.len(),
        ensures
            final(self)@ == old(self)@.update(
                i as int,
                Task { priority, ..old(self)@[i as int] },
            ),
    {
        let t = self.tasks.remove(i);
        let t2 = Task { priority, ..t };
        self.tasks.insert(i, t2);
        proof {
            assert(final(self)@ =~= old(self)@.update(
                i as int,
                Task { priority, ..old(self)@[i as int] },
            ));
        }
    }

    /// Change the status of the first task `task_selector` singles out;
    /// fail, leaving the store unchanged, when nothing matches.
    pub fn change_task_status(&mut self, task_selector: TaskSelector, new_status: Status) -> (r:
        Result<(), TaskNotFountError>)
        ensures
            match find_sel(old(self)@, task_selector) {
                Some(i) => {
                    &&& r is Ok
                    &&& final(self)@ == old(self)@.update(
                        i as int,
                        Task { status: new_status, ..old(self)@[i as int] },
                    )
                },
                None => {
                    &&& r == Err::<(), TaskNotFountError>(TaskNotFountError)
                    &&& *final(self) == *old(self)
                },
            },
    {
        match self.find_index(&task_selector) {
            Some(i) => {
                proof {
                    lemma_find_sel_props(self@, task_selector);
                }
                self.set_status_at(i, new_status);
                Ok(())
            },
            None => Err(TaskNotFountError),
        }
    }

    /// Change the priority of the first task `task_selector` singles out;
    /// fail, leaving the store unchanged, when nothing matches.
    pub fn change_task_priority(&mut self, task_selector: TaskSelector, new_priority: Priority)
        -> (r: Result<(), TaskNotFountError>)
        ensures
            match find_sel(old(self)@, task_selector) {
                Some(i) => {
                    &&& r is Ok
                    &&& final(self)@ == old(self)@.update(
                        i as int,
                        Task { priority: new_priority, ..old(self)@[i as int] },
                    )
                },
                None => {
                    &&& r == Err::<(), TaskNotFountError>(TaskNotFountError)
                    &&& *final(self) == *old(self)
                },
            },
    {
        match self.find_index(&task_selector) {
            Some(i) => {
                proof {
                    lemma_find_sel_props(self@, task_selector);
                }
                self.set_priority_at(i, new_priority);
                Ok(())
            },
            None => Err(TaskNotFountError),
        }
    }

    /// The tasks whose status is exactly `status`, in store order.
    #[verifier::loop_isolation(false)]
    pub fn filter_task_status(&self, status: Status) -> (r: Vec<&Task>)
        ensures
            r@.map_values(|t: &Task| *t) == self@.filter(|t: Task| t.status == status),
    {
        let ghost pred = |t: Task| t.status == status;
        let mut r: Vec<&Task> = Vec::new();
        let mut i: usize = 0;
        proof {
            reveal(Seq::filter);
            assert(r@.map_values(|t: &Task| *t) =~= self@.take(0).filter(pred));
        }
        while i < self.tasks.len()
            invariant
                i <= self@.len(),
                r@.map_values(|t: &Task| *t) == self@.take(i as int).filter(pred),
            decreases self@.len() - i,
        {
            proof {
                assert(self@.take(i + 1) =~= self@.take(i as int).push(self@[i as int]));
                lemma_filter_push(self@.take(i as int), self@[i as int], pred);
            }
            let same = match (self.tasks[i].status, status) {
                (Status::ToDo, Status::ToDo) => true,
                (Status::Doing, Status::Doing) => true,
                (Status::Done, Status::Done) => true,
                _ => false,
            };
            if same {
                let t = &self.tasks[i];
                r.push(t);
                proof {
                    assert(r@.map_values(|t: &Task| *t) =~= self@.take(i + 1).filter(pred));
                }
            } else {
                proof {
                    assert(r@.map_values(|t: &Task| *t) =~= self@.take(i + 1).filter(pred));
                }
            }
            i += 1;
        }
        proof {
            assert(self@.take(self@.len() as int) =~= self@);
        }
        r
    }
}

/// Removing with a selector that matches nothing leaves the store exactly
/// as it was: removal of an absent task is a no-op, not an error.
pub proof fn lemma_remove_missing(tasks: Seq<Task>, sel: TaskSelector)
    requires
        forall|i: int| 0 <= i < tasks.len() ==> !sel_matches(sel, #[trigger] tasks[i]),
    ensures
        tasks.filter(|t: Task| !sel_matches(sel, t)) == tasks,
    decreases tasks.len(),
{
    reveal(Seq::filter);
    if tasks.len() > 0 {
        lemma_remove_missing(tasks.drop_last(), sel);
        assert(tasks.drop_last().push(tasks.last()) =~= tasks);
    }
}

/// A task stands in the status list for `s` exactly when it stands in the
/// store and its status is `s` — so each task appears in exactly one of
/// the three status lists.
pub proof fn lemma_status_filter_membership(tasks: Seq<Task>, s: Status, t: Task)
    ensures
        tasks.filter(|x: Task| x.status == s).contains(t) <==> tasks.contains(t) && t.status == s,
    decreases tasks.len(),
{
    reveal(Seq::filter);
    let pred = |x: Task| x.status == s;
    if tasks.len() > 0 {
        lemma_status_filter_membership(tasks.drop_last(), s, t);
        assert(tasks.drop_last().push(tasks.last()) =~= tasks);
        if tasks.filter(pred).contains(t) {
            if pred(tasks.last()) && t == tasks.last() {
                assert(tasks.contains(t)) by {
                    assert(tasks[tasks.len() - 1] == t);
                }
            } else {
                if tasks.drop_last().filter(pred).contains(t) {
                    let k = choose|k: int|
                        0 <= k < tasks.drop_last().len() && tasks.drop_last()[k] == t;
                    assert(tasks[k] == t);
                }
            }
        }
        if tasks.contains(t) && t.status == s {
            let k = choose|k: int| 0 <= k < tasks.len() && tasks[k] == t;
            if k < tasks.len() - 1 {
                assert(tasks.drop_last()[k] == t);
                assert(tasks.drop_last().contains(t));
                let m = choose|m: int|
                    0 <= m < tasks.drop_last().filter(pred).len() && tasks.drop_last().filter(
                        pred,
                    )[m] == t;
                if pred(tasks.last()) {
                    assert(tasks.filter(pred)[m] == t);
                } else {
                    assert(tasks.filter(pred)[m] == t);
                }
            } else {
                assert(tasks.last() == t);
                assert(tasks.filter(pred).last() == t);
            }
        }
    }
}

/// The three status lists split the store completely: their sizes add up
/// to the store's size.
pub proof fn lemma_status_partition(tasks: Seq<Task>)
    ensures
        tasks.filter(|t: Task| t.status == Status::ToDo).len() + tasks.filter(
            |t: Task| t.status == Status::Doing,
        ).len() + tasks.filter(|t: Task| t.status == Status::Done).len() == tasks.len(),
    decreases tasks.len(),
{
    if tasks.len() > 0 {
        lemma_status_partition(tasks.drop_last());
        let prefix = tasks.drop_last();
        let last = tasks.last();
        assert(prefix.push(last) =~= tasks);
        lemma_filter_push(prefix, last, |t: Task| t.status == Status::ToDo);
        lemma_filter_push(prefix, last, |t: Task| t.status == Status::Doing);
        lemma_filter_push(prefix, last, |t: Task| t.status == Status::Done);
    }
}

/// Adding a task and then looking its identifier up finds exactly that
/// task, with the title it was given — provided no surviving task already
/// holds the handed-out identifier.  (After removals an older task can
/// hold it, and the lookup then resolves to the older task.)
pub proof fn lemma_add_then_show(tasks: Seq<Task>, t: Task)
    requires
        t.id == next_id(tasks),
        forall|k: int| 0 <= k < tasks.len() ==> (#[trigger] tasks[k]).id != next_id(tasks),
    ensures
        find_id(tasks.push(t), t.id) == Some(tasks.len()),
        tasks.push(t)[tasks.len() as int] == t,
{
    let pushed = tasks.push(t);
    lemma_find_sel_props(pushed, TaskSelector::Id(t.id));
    match find_sel(pushed, TaskSelector::Id(t.id)) {
        Some(j) => {
            if j < tasks.len() {
                assert(pushed[j as int] == tasks[j as int]);
                assert(false);
            }
        },
        None => {
            assert(sel_matches(TaskSelector::Id(t.id), pushed[tasks.len() as int]));
            assert(false);
        },
    }
}

/// The ordering key `log_tasks` sorts by: the identifier, the title's
/// first character (an empty title first), or the rank of the priority or
/// status.
pub open spec fn sort_key(t: Task, by: SortBy) -> int {
    match by {
        SortBy::Id => t.id as int,
        SortBy::Title => if t.title@.len() == 0 {
            0
        } else {
            t.title@[0] as u32 + 1
        },
        SortBy::Priority => match t.priority {
            Priority::Low => 0,
            Priority::Medium => 1,
            Priority::High => 2,
        },
        SortBy::Status => match t.status {
            Status::ToDo => 0,
            Status::Doing => 1,
            Status::Done => 2,
        },
        SortBy::Unsorted => 0,
    }
}

/// Whether `tasks` is ordered by the key for `by`.
pub open spec fn sorted_by_key(tasks: Seq<Task>, by: SortBy) -> bool {
    forall|i: int, j: int|
        0 <= i < j < tasks.len() ==> sort_key(#[trigger] tasks[i], by) <= sort_key(
            #[trigger] tasks[j],
            by,
        )
}

/// The tasks of `s` whose key for `by` is exactly `k`, in order.  A sort
/// is stable exactly when it preserves every such subsequence.
pub open spec fn key_filter(s: Seq<Task>, by: SortBy, k: int) -> Seq<Task> {
    s.filter(|t: Task| sort_key(t, by) == k)
}

/// Computes [`sort_key`].
fn task_key(t: &Task, by: SortBy) -> (k: u64)
    ensures
        k as int == sort_key(*t, by),
{
    match by {
        SortBy::Id => t.id as u64,
        SortBy::Title => {
            let s = t.title.as_str();
            if s.unicode_len() == 0 {
                0
            } else {
                ((s.get_char(0) as u32) as u64) + 1
            }
        },
        SortBy::Priority => match t.priority {
            Priority::Low => 0,
            Priority::Medium => 1,
            Priority::High => 2,
        },
        SortBy::Status => match t.status {
            Status::ToDo => 0,
            Status::Doing => 1,
            Status::Done => 2,
        },
        SortBy::Unsorted => 0,
    }
}

/// Inserting `t` at the first position whose key exceeds `t`'s keeps the
/// sequence sorted and appends `t` to exactly its own key's subsequence.
proof fn lemma_stable_insert(out: Seq<Task>, t: Task, p: int, by: SortBy)
    requires
        sorted_by_key(out, by),
        0 <= p <= out.len(),
        forall|j: int| 0 <= j < p ==> sort_key(#[trigger] out[j], by) <= sort_key(t, by),
        forall|j: int| p <= j < out.len() ==> sort_key(#[trigger] out[j], by) > sort_key(t, by),
    ensures
        sorted_by_key(out.insert(p, t), by),
        forall|k: int|
            #[trigger] key_filter(out.insert(p, t), by, k) == if k == sort_key(t, by) {
                key_filter(out, by, k).push(t)
            } else {
                key_filter(out, by, k)
            },
{
    let ins = out.insert(p, t);
    let kt = sort_key(t, by);
    assert forall|i: int, j: int|
        0 <= i < j < ins.len() implies sort_key(#[trigger] ins[i], by) <= sort_key(
        #[trigger] ins[j],
        by,
    ) by {
        if i < p {
            assert(ins[i] == out[i]);
        } else if i > p {
            assert(ins[i] == out[i - 1]);
        }
        if j < p {
            assert(ins[j] == out[j]);
        } else if j > p {
            assert(ins[j] == out[j - 1]);
        }
    }
    assert forall|k: int|
        #[trigger] key_filter(ins, by, k) == if k == kt {
            key_filter(out, by, k).push(t)
        } else {
            key_filter(out, by, k)
        } by {
        let pred = |x: Task| sort_key(x, by) == k;
        let front = out.take(p);
        let back = out.skip(p);
        assert(ins =~= front + (seq![t] + back));
        Seq::filter_distributes_over_add(front, seq![t] + back, pred);
        Seq::filter_distributes_over_add(seq![t], back, pred);
        assert(out =~= front + back);
        Seq::filter_distributes_over_add(front, back, pred);
        reveal(Seq::filter);
        assert(seq![t].drop_last() =~= Seq::<Task>::empty());
        assert(seq![t].last() == t);
        assert(Seq::<Task>::empty().filter(pred) == Seq::<Task>::empty());
        assert(seq![t].filter(pred) == if pred(t) {
            Seq::<Task>::empty().push(t)
        } else {
            Seq::<Task>::empty()
        });
        if k == kt {
            assert forall|j: int| 0 <= j < back.len() implies !pred(#[trigger] back[j]) by {
                assert(back[j] == out[p + j]);
            }
            lemma_filter_none(back, pred);
            assert(key_filter(ins, by, k) =~= key_filter(out, by, k).push(t));
        } else {
            assert(key_filter(ins, by, k) =~= key_filter(out, by, k));
        }
    }
}

/// Sort `tasks` by the key for `by` with a stable insertion sort: equal
/// keys keep their order.
#[verifier::loop_isolation(false)]
fn stable_sort_by(tasks: Vec<Task>, by: SortBy) -> (r: Vec<Task>)
    ensures
        sorted_by_key(r@, by),
        forall|k: int| #[trigger] key_filter(r@, by, k) == key_filter(tasks@, by, k),
{
    let ghost orig = tasks@;
    let mut src = tasks;
    let mut out: Vec<Task> = Vec::new();
    let ghost mut j: int = 0;
    proof {
        assert(src@ =~= orig.skip(0));
        assert forall|k: int| #[trigger] key_filter(out@, by, k) == key_filter(
            orig.take(0),
            by,
            k,
        ) by {
            reveal(Seq::filter);
            assert(out@ =~= orig.take(0));
        }
    }
    while src.len() > 0
        invariant
            0 <= j <= orig.len(),
            src@ == orig.skip(j),
            sorted_by_key(out@, by),
            forall|k: int| #[trigger] key_filter(out@, by, k) == key_filter(orig.take(j), by, k),
        decreases src@.len(),
    {
        let t = src.remove(0);
        proof {
            assert(t == orig[j]);
            assert(orig.skip(j).remove(0) =~= orig.skip(j + 1));
        }
        let kt = task_key(&t, by);
        let mut p: usize = 0;
        while p < out.len() && task_key(&out[p], by) <= kt
            invariant
                p <= out@.len(),
                forall|i: int| 0 <= i < p ==> sort_key(#[trigger] out@[i], by) <= sort_key(t, by),
            decreases out@.len() - p,
        {
            p += 1;
        }
        proof {
            assert forall|i: int|
                p <= i < out@.len() implies sort_key(#[trigger] out@[i], by) > sort_key(
                t,
                by,
            ) by {
                if p < out@.len() {
                    assert(sort_key(out@[p as int], by) <= sort_key(out@[i], by));
                }
            }
        }
        let ghost out0 = out@;
        out.insert(p, t);
        proof {
            lemma_stable_insert(out0, t, p as int, by);
            assert forall|k: int| #[trigger] key_filter(out@, by, k) == key_filter(
                orig.take(j + 1),
                by,
                k,
            ) by {
                let pred = |x: Task| sort_key(x, by) == k;
                assert(orig.take(j + 1) =~= orig.take(j).push(t));
                lemma_filter_push(orig.take(j), t, pred);
            }
            j = j + 1;
        }
    }
    proof {
        assert(orig.skip(j).len() == 0);
        assert forall|k: int| #[trigger] key_filter(out@, by, k) == key_filter(orig, by, k) by {
            assert(orig.take(j) =~= orig);
        }
    }
    out
}

/// The line `log_tasks` emits for `t`: the identifier, then the one-line
/// rendering (which repeats the identifier).
pub open spec fn log_line_spec(t: Task) -> Seq<char> {
    dec_rep(t.id as int) + ". "@ + display_line_spec(t)
}

impl TaskManager {
    /// Sort the store by the given key — stably, so equal keys keep their
    /// insertion order — and hand back one log line per task, in the new
    /// order.  `Unsorted` leaves the store as it is.
    #[verifier::loop_isolation(false)]
    pub fn log_tasks(&mut self, sort_by: SortBy) -> (r: Vec<String>)
        ensures
            match sort_by {
                SortBy::Unsorted => *final(self) == *old(self),
                _ => {
                    &&& sorted_by_key(final(self)@, sort_by)
                    &&& forall|k: int|
                        #[trigger] key_filter(final(self)@, sort_by, k) == key_filter(
                            old(self)@,
                            sort_by,
                            k,
                        )
                },
            },
            r.deep_view() == final(self)@.map_values(|t: Task| log_line_spec(t)),
    {
        match sort_by {
            SortBy::Unsorted => {},
            _ => {
                let mut tmp: Vec<Task> = Vec::new();
                core::mem::swap(&mut self.tasks, &mut tmp);
                let sorted = stable_sort_by(tmp, sort_by);
                self.tasks = sorted;
            },
        }
        let ghost lines = self.tasks@.map_values(|t: Task| log_line_spec(t));
        let mut r: Vec<String> = Vec::new();
        let mut i: usize = 0;
        proof {
            assert(r.deep_view() =~= lines.take(0));
        }
        while i < self.tasks.len()
            invariant
                i <= self.tasks@.len(),
                lines == self.tasks@.map_values(|t: Task| log_line_spec(t)),
                r.deep_view() == lines.take(i as int),
            decreases self.tasks@.len() - i,
        {
            let t = &self.tasks[i];
            let mut line = u32_to_string(t.id());
            line.append(". ");
            let shown = t.display_line();
            line.append(shown.as_str());
            r.push(line);
            proof {
                assert(lines[i as int] == log_line_spec(self.tasks@[i as int]));
                assert(r.deep_view() =~= lines.take(i + 1));
            }
            i += 1;
        }
        proof {
            assert(lines.take(self.tasks@.len() as int) =~= lines);
        }
        r
    }
}

} // verus!
