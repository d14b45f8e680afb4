//! The id generator and the task manager.

use vstd::prelude::*;
use vstd::utf8::encode_utf8;
use crate::json_tree::{at, dump, has_long_digit_run, is_array, is_plain_leaf, scan_long_digit_run, is_record_list, json_tree, len, new_array, parse, parsed_json, push, JsonTree};
use crate::models::TaskStatus;
use crate::task::{decode_task, encodes_task, lemma_decode_encoded, lemma_record_is_plain, Task, TaskView};
use crate::timestamp::{current_time, Timestamp};

verus! {

/// Mints task ids: each one is the counter after an increment.
#[derive(Debug)]
pub struct IdGenerator {
    current_id: u32,
}

impl View for IdGenerator {
    type V = u32;

    closed spec fn view(&self) -> u32 {
        self.current_id
    }
}

impl IdGenerator {
    /// A generator whose counter starts at `start_value`, or at 0.
    pub fn new(start_value: Option<u32>) -> (r: IdGenerator)
        ensures
            r@ == (match start_value {
                Some(v) => v,
                None => 0,
            }),
    {
        IdGenerator {
            current_id: match start_value {
                Some(v) => v,
                None => 0,
            },
        }
    }

    /// Increments the counter and returns it.
    pub fn generate(&mut self) -> (r: u32)
        requires
            old(self)@ < u32::MAX,
        ensures
            r == old(self)@ + 1,
            final(self)@ == r,
            is_generation(old(self)@, r, final(self)@),
    {
        self.current_id = self.current_id + 1;
        self.current_id
    }

    /// The counter: the last id minted, or the seed where none was.
    pub fn current(&self) -> (r: u32)
        ensures
            r == self@,
    {
        self.current_id
    }
}

/// One call of `generate`: from counter `before` it returns `result` and
/// leaves the counter at `after`.
pub open spec fn is_generation(before: u32, result: u32, after: u32) -> bool {
    result == before + 1 && after == result
}

proof fn lemma_counter_run(counters: Seq<u32>, results: Seq<u32>, k: int)
    requires
        counters.len() == results.len() + 1,
        0 <= k < counters.len(),
        forall|j: int| 0 <= j < results.len() ==> is_generation(counters[j], #[trigger] results[j], counters[j + 1]),
    ensures
        counters[k] == counters[0] + k,
    decreases k,
{
    if k > 0 {
        lemma_counter_run(counters, results, k - 1);
        assert(is_generation(counters[k - 1], results[k - 1], counters[k]));
    }
}

/// Over any run of `generate` calls from a seed, the ids returned are the
/// seed plus one, plus two, and so on: they increase strictly and all exceed
/// the seed.
pub proof fn lemma_generated_ids_increase(counters: Seq<u32>, results: Seq<u32>)
    requires
        counters.len() == results.len() + 1,
        forall|j: int| 0 <= j < results.len() ==> is_generation(counters[j], #[trigger] results[j], counters[j + 1]),
    ensures
        forall|k: int| 0 <= k < results.len() ==> #[trigger] results[k] == counters[0] + k + 1,
        forall|a: int, b: int| 0 <= a < b < results.len() ==> #[trigger] results[a] < #[trigger] results[b],
        forall|k: int| 0 <= k < results.len() ==> #[trigger] results[k] > counters[0],
{
    assert forall|k: int| 0 <= k < results.len() implies #[trigger] results[k] == counters[0] + k + 1 by {
        lemma_counter_run(counters, results, k);
        assert(is_generation(counters[k], results[k], counters[k + 1]));
    }
}

/// `i` is the position of the first task with id `id`.
pub open spec fn is_first_with_id(ts: Seq<TaskView>, id: u32, i: int) -> bool {
    &&& 0 <= i < ts.len()
    &&& ts[i].id == id
    &&& forall|j: int| 0 <= j < i ==> ts[j].id != id
}

/// Some task has id `id`.
pub open spec fn has_id(ts: Seq<TaskView>, id: u32) -> bool {
    exists|i: int| 0 <= i < ts.len() && ts[i].id == id
}

/// The position of the first task with id `id`, where there is one.
pub open spec fn first_with_id(ts: Seq<TaskView>, id: u32) -> int {
    choose|i: int| is_first_with_id(ts, id, i)
}

/// The tasks that remain once those with id `id` are taken out, in order.
pub open spec fn without_id(ts: Seq<TaskView>, id: u32) -> Seq<TaskView> {
    ts.filter(|t: TaskView| t.id != id)
}

/// The tasks that a list of JSON items denotes: each item that reads as a
/// task, in order; the others are dropped.
pub open spec fn decode_items(items: Seq<JsonTree>) -> Seq<TaskView> {
    items.filter_map(|t: JsonTree| decode_task(t))
}

/// The tasks that a parsed JSON document denotes: the items of an array that
/// read as tasks; nothing for any other value.
pub open spec fn decode_all(t: JsonTree) -> Seq<TaskView> {
    match t {
        JsonTree::Array(items) => decode_items(items),
        _ => Seq::empty(),
    }
}

/// `t` is a JSON array of the records of `ts`, in order.
pub open spec fn encodes_tasks(t: JsonTree, ts: Seq<TaskView>) -> bool {
    &&& t is Array
    &&& t->Array_0.len() == ts.len()
    &&& forall|i: int| 0 <= i < ts.len() ==> encodes_task(#[trigger] t->Array_0[i], ts[i])
}

/// `s` is a text that parses to a JSON array of the records of `ts`.
pub open spec fn serializes(s: Seq<char>, ts: Seq<TaskView>) -> bool {
    &&& parsed_json(s) matches Some(t) && encodes_tasks(t, ts)
    &&& !has_long_digit_run(encode_utf8(s))
}

/// The task list that a text reads as: none where it is not a JSON array,
/// or holds a run of digits longer than the JSON reader takes.
pub open spec fn deserialized(s: Seq<char>) -> Option<Seq<TaskView>> {
    if has_long_digit_run(encode_utf8(s)) {
        None
    } else {
        match parsed_json(s) {
            Some(t) => if t is Array {
                Some(decode_all(t))
            } else {
                None
            },
            None => None,
        }
    }
}

proof fn lemma_first_unique(ts: Seq<TaskView>, id: u32, i: int)
    requires
        is_first_with_id(ts, id, i),
    ensures
        first_with_id(ts, id) == i,
{
    let k = first_with_id(ts, id);
    assert(is_first_with_id(ts, id, k));
    if k < i {
        assert(ts[k].id != id);
    } else if i < k {
        assert(ts[i].id != id);
    }
}

/// Taking out an id that no task has leaves the list as it was.
pub proof fn lemma_without_absent(ts: Seq<TaskView>, id: u32)
    requires
        !has_id(ts, id),
    ensures
        without_id(ts, id) == ts,
    decreases ts.len(),
{
    if ts.len() > 0 {
        let init = ts.drop_last();
        assert(!has_id(init, id)) by {
            if has_id(init, id) {
                let i = choose|i: int| 0 <= i < init.len() && init[i].id == id;
                assert(ts[i].id == id);
            }
        }
        lemma_without_absent(init, id);
        assert(ts == init.push(ts.last()));
        init.lemma_filter_push(ts.last(), |t: TaskView| t.id != id);
        assert(ts[ts.len() - 1].id != id);
    }
}

/// Reading a list of records back gives the tasks they were written from.
proof fn lemma_decode_items_encoded(items: Seq<JsonTree>, ts: Seq<TaskView>)
    requires
        items.len() == ts.len(),
        forall|i: int| 0 <= i < ts.len() ==> encodes_task(#[trigger] items[i], ts[i]),
        forall|i: int| 0 <= i < ts.len() ==> (#[trigger] ts[i]).wf(),
    ensures
        decode_items(items) == ts,
    decreases ts.len(),
{
    if ts.len() > 0 {
        let k = ts.len() - 1;
        lemma_decode_items_encoded(items.drop_last(), ts.drop_last());
        lemma_decode_encoded(items[k], ts[k]);
        assert(ts == ts.drop_last() + seq![ts[k]]);
    }
}

/// Round trip: the text that a manager's tasks are written as reads back as
/// the same tasks, in the same order, with the same ids, descriptions,
/// statuses and timestamps.
pub proof fn lemma_round_trip(m: TaskManager, s: Seq<char>)
    requires
        m.wf(),
        serializes(s, m.tasks_view()),
    ensures
        deserialized(s) == Some(m.tasks_view()),
{
    let t = parsed_json(s)->Some_0;
    let ts = m.tasks_view();
    assert forall|i: int| 0 <= i < ts.len() implies (#[trigger] ts[i]).wf() by {
        assert(m.tasks@[i].wf());
    }
    lemma_decode_items_encoded(t->Array_0, ts);
}

/// `after` is `before` with one task appended under the next id: the
/// counter goes up by one and the new task carries it.
pub open spec fn is_addition(before: (Seq<TaskView>, u32), after: (Seq<TaskView>, u32)) -> bool {
    &&& after.1 == before.1 + 1
    &&& after.0.len() == before.0.len() + 1
    &&& after.0.drop_last() == before.0
    &&& after.0.last().id == after.1
}

proof fn lemma_counter_after(states: Seq<(Seq<TaskView>, u32)>, k: int)
    requires
        0 <= k < states.len(),
        forall|j: int| 0 <= j < states.len() - 1 ==> is_addition(#[trigger] states[j], states[j + 1]),
    ensures
        states[k].1 == states[0].1 + k,
    decreases k,
{
    if k > 0 {
        lemma_counter_after(states, k - 1);
        assert(is_addition(states[k - 1], states[k]));
    }
}

/// Over any run of additions, the ids minted are the seed plus one, plus two,
/// and so on: they increase strictly and all exceed the seed.
pub proof fn lemma_ids_increase(states: Seq<(Seq<TaskView>, u32)>)
    requires
        states.len() >= 1,
        forall|k: int| 0 <= k < states.len() - 1 ==> is_addition(#[trigger] states[k], states[k + 1]),
    ensures
        forall|k: int| 0 <= k < states.len() - 1 ==> (#[trigger] states[k + 1]).0.last().id == states[0].1 + k + 1,
        forall|a: int, b: int| 0 <= a < b < states.len() - 1 ==> (#[trigger] states[a + 1]).0.last().id < (#[trigger] states[b + 1]).0.last().id,
        forall|k: int| 0 <= k < states.len() - 1 ==> (#[trigger] states[k + 1]).0.last().id > states[0].1,
{
    assert forall|k: int| 0 <= k < states.len() - 1 implies (#[trigger] states[k + 1]).0.last().id == states[0].1 + k + 1 by {
        lemma_counter_after(states, k + 1);
        assert(is_addition(states[k], states[k + 1]));
    }
}

/// Taking out an id leaves no task with it.
pub proof fn lemma_without_has_none(ts: Seq<TaskView>, id: u32)
    ensures
        !has_id(without_id(ts, id), id),
{
    let p = |t: TaskView| t.id != id;
    ts.filter_lemma(p);
    if has_id(without_id(ts, id), id) {
        let i = choose|i: int| 0 <= i < without_id(ts, id).len() && without_id(ts, id)[i].id == id;
        assert(p(without_id(ts, id)[i]));
    }
}

/// Where some task has the id, a first one has it.
pub proof fn lemma_first_exists(ts: Seq<TaskView>, id: u32, k: int)
    requires
        0 <= k < ts.len(),
        ts[k].id == id,
    ensures
        is_first_with_id(ts, id, first_with_id(ts, id)),
    decreases k,
{
    if exists|j: int| 0 <= j < k && ts[j].id == id {
        let j = choose|j: int| 0 <= j < k && ts[j].id == id;
        lemma_first_exists(ts, id, j);
    } else {
        assert(is_first_with_id(ts, id, k));
    }
}

/// An ordered list of tasks and the generator of their ids.
#[derive(Debug)]
pub struct TaskManager {
    pub tasks: Vec<Task>,
    pub id_generator: IdGenerator,
}

impl TaskManager {
    /// The tasks, in order.
    pub open spec fn tasks_view(&self) -> Seq<TaskView> {
        self.tasks@.map_values(|t: Task| t@)
    }

    /// The id counter.
    pub open spec fn counter(&self) -> u32 {
        self.id_generator@
    }

    /// Every task's timestamps can be written and read back.
    pub open spec fn wf(&self) -> bool {
        forall|i: int| 0 <= i < self.tasks@.len() ==> (#[trigger] self.tasks@[i]).wf()
    }

    /// An empty manager whose counter is 0.
    pub fn new() -> (r: TaskManager)
        ensures
            r.tasks_view() == Seq::<TaskView>::empty(),
            r.counter() == 0,
            r.wf(),
    {
        TaskManager { tasks: Vec::new(), id_generator: IdGenerator::new(None) }
    }

    /// Appends a task created at `now` under the next id.
    pub fn add_task_at(&mut self, desc: String, now: Timestamp)
        requires
            old(self).counter() < u32::MAX,
        ensures
            final(self).counter() == old(self).counter() + 1,
            final(self).tasks_view() == old(self).tasks_view().push(
                TaskView {
                    id: final(self).counter(),
                    description: desc@,
                    status: TaskStatus::ToDo,
                    created_at: now,
                    updated_at: now,
                },
            ),
            old(self).wf() && now.wf() ==> final(self).wf(),
            is_addition(
                (old(self).tasks_view(), old(self).counter()),
                (final(self).tasks_view(), final(self).counter()),
            ),
    {
        let id = self.id_generator.generate();
        let task = Task::new_at(id, desc, now);
        self.tasks.push(task);
        assert(self.tasks_view() =~= old(self).tasks_view().push(task@));
        assert(self.tasks_view().drop_last() =~= old(self).tasks_view());
    }

    /// Appends a task created now under the next id.
    pub fn add_task(&mut self, desc: String)
        requires
            old(self).counter() < u32::MAX,
        ensures
            final(self).counter() == old(self).counter() + 1,
            final(self).tasks_view().drop_last() == old(self).tasks_view(),
            final(self).tasks_view().len() == old(self).tasks_view().len() + 1,
            final(self).tasks_view().last().id == final(self).counter(),
            final(self).tasks_view().last().description == desc@,
            final(self).tasks_view().last().status == TaskStatus::ToDo,
            final(self).tasks_view().last().created_at == final(self).tasks_view().last().updated_at,
            old(self).wf() ==> final(self).wf(),
            is_addition(
                (old(self).tasks_view(), old(self).counter()),
                (final(self).tasks_view(), final(self).counter()),
            ),
    {
        self.add_task_at(desc, current_time());
    }

    /// The position of the first task with id `id`.
    pub fn find_index(&self, id: u32) -> (r: Option<usize>)
        ensures
            match r {
                Some(i) => is_first_with_id(self.tasks_view(), id, i as int),
                None => !has_id(self.tasks_view(), id),
            },
    {
        let mut i: usize = 0;
        while i < self.tasks.len()
            invariant
                i <= self.tasks@.len(),
                forall|j: int| 0 <= j < i ==> self.tasks_view()[j].id != id,
            decreases self.tasks@.len() - i,
        {
            if self.tasks[i].id == id {
                return Some(i);
            }
            i = i + 1;
        }
        None
    }

    /// The first task with id `id`, or `None` where there is none.
    pub fn get_task(&self, id: u32) -> (r: Option<&Task>)
        ensures
            match r {
                Some(t) => has_id(self.tasks_view(), id) && is_first_with_id(
                    self.tasks_view(),
                    id,
                    first_with_id(self.tasks_view(), id),
                ) && t@ == self.tasks_view()[first_with_id(
                    self.tasks_view(),
                    id,
                )],
                None => !has_id(self.tasks_view(), id),
            },
    {
        match self.find_index(id) {
            Some(i) => {
                proof {
                    lemma_first_unique(self.tasks_view(), id, i as int);
                }
                Some(&self.tasks[i])
            },
            None => None,
        }
    }

    /// The first task with id `id`, to change in place, or `None` where there
    /// is none.
    pub fn get_task_mut(&mut self, id: u32) -> (r: Option<&mut Task>)
        ensures
            final(self).counter() == old(self).counter(),
            match r {
                Some(t) => {
                    let i = first_with_id(old(self).tasks_view(), id);
                    &&& has_id(old(self).tasks_view(), id)
                    &&& is_first_with_id(old(self).tasks_view(), id, i)
                    &&& *t == old(self).tasks@[i]
                    &&& final(self).tasks@ == old(self).tasks@.update(i, *final(t))
                },
                None => !has_id(old(self).tasks_view(), id) && final(self).tasks@ == old(self).tasks@,
            },
    {
        match self.find_index(id) {
            Some(i) => {
                proof {
                    lemma_first_unique(self.tasks_view(), id, i as int);
                }
                Some(&mut self.tasks[i])
            },
            None => None,
        }
    }

    /// Takes out every task with id `id`, keeping the others in order; an id
    /// that no task has changes nothing.
    pub fn remove_task(&mut self, id: u32)
        ensures
            final(self).tasks_view() == without_id(old(self).tasks_view(), id),
            final(self).counter() == old(self).counter(),
            !has_id(old(self).tasks_view(), id) ==> final(self).tasks_view() == old(self).tasks_view(),
            old(self).wf() ==> final(self).wf(),
    {
        let ghost old_view = self.tasks_view();
        let mut kept: Vec<Task> = Vec::new();
        let mut i: usize = 0;
        let n = self.tasks.len();
        while i < n
            invariant
                n == self.tasks@.len(),
                i <= n,
                self.tasks_view() == old_view,
                kept@.map_values(|t: Task| t@) == without_id(old_view.take(i as int), id),
                self.wf() ==> forall|j: int| 0 <= j < kept@.len() ==> (#[trigger] kept@[j]).wf(),
            decreases n - i,
        {
            proof {
                assert(old_view.take(i + 1) == old_view.take(i as int).push(old_view[i as int]));
                old_view.take(i as int).lemma_filter_push(old_view[i as int], |t: TaskView| t.id != id);
            }
            if self.tasks[i].id != id {
                let ghost before = kept@;
                kept.push(self.tasks[i].clone());
                assert(kept@.map_values(|t: Task| t@) =~= before.map_values(|t: Task| t@).push(
                    old_view[i as int],
                ));
            }
            i = i + 1;
        }
        self.tasks = kept;
        proof {
            assert(old_view.take(n as int) == old_view);
            if !has_id(old_view, id) {
                lemma_without_absent(old_view, id);
            }
        }
    }

    /// The task list as JSON text, an array of the tasks' records in order,
    /// and the counter, which is stored apart.
    pub fn to_json_string(&self) -> (r: (String, u32))
        requires
            self.wf(),
        ensures
            serializes(r.0@, self.tasks_view()),
            r.1 == self.counter(),
    {
        let mut arr = new_array();
        let mut i: usize = 0;
        while i < self.tasks.len()
            invariant
                i <= self.tasks@.len(),
                self.wf(),
                encodes_tasks(json_tree(arr), self.tasks_view().take(i as int)),
            decreases self.tasks@.len() - i,
        {
            let rec = self.tasks[i].to_json();
            let _ = push(&mut arr, rec);
            assert(self.tasks_view().take(i + 1) =~= self.tasks_view().take(i as int).push(
                self.tasks_view()[i as int],
            ));
            i = i + 1;
        }
        proof {
            let items = json_tree(arr)->Array_0;
            let ts = self.tasks_view();
            assert(ts.take(ts.len() as int) =~= ts);
            assert forall|k: int| 0 <= k < items.len() implies (#[trigger] items[k] matches JsonTree::Object(m)
                && forall|key: Seq<char>| #[trigger] m.contains_key(key) ==> is_plain_leaf(m[key])) by {
                lemma_record_is_plain(items[k], ts[k]);
            }
            assert(is_record_list(json_tree(arr)));
        }
        (dump(&arr), self.id_generator.current())
    }

    /// The manager that a JSON text denotes, with its counter seeded at
    /// `current_id`: the items of a top-level array that read as tasks, in
    /// order, the others dropped. `None` where the text is not a JSON array,
    /// or where it holds, outside string literals, a run of digits longer
    /// than the JSON reader takes.
    pub fn from_json_string(json_str: &str, current_id: u32) -> (r: Option<TaskManager>)
        ensures
            match deserialized(json_str@) {
                Some(ts) => r matches Some(m) && m.tasks_view() == ts && m.counter() == current_id && m.wf(),
                None => r is None,
            },
    {
        if scan_long_digit_run(json_str) {
            return None;
        }
        let parsed = match parse(json_str) {
            Ok(v) => v,
            Err(_) => return None,
        };
        if !is_array(&parsed) {
            return None;
        }
        let n = len(&parsed);
        let ghost tree = json_tree(parsed);
        let mut tasks: Vec<Task> = Vec::new();
        let mut i: usize = 0;
        while i < n
            invariant
                tree == json_tree(parsed),
                i <= n,
                tree is Array ==> n == tree->Array_0.len() && tasks@.map_values(|t: Task| t@)
                    == decode_items(tree->Array_0.take(i as int)),
                !(tree is Array) ==> tasks@.len() == 0,
                forall|j: int| 0 <= j < tasks@.len() ==> (#[trigger] tasks@[j]).wf(),
            decreases n - i,
        {
            let item = at(&parsed, i);
            let ghost before = tasks@;
            proof {
                if tree is Array {
                    tree->Array_0.lemma_filter_map_take_succ(|t: JsonTree| decode_task(t), i as int);
                }
            }
            match Task::from_json(item) {
                Some(t) => {
                    tasks.push(t);
                    assert(tasks@.map_values(|t: Task| t@) =~= before.map_values(|t: Task| t@) + seq![t@]);
                },
                None => {},
            }
            i = i + 1;
        }
        proof {
            if tree is Array {
                assert(tree->Array_0.take(n as int) =~= tree->Array_0);
            }
            assert(tasks@.map_values(|t: Task| t@) =~= decode_all(tree));
        }
        Some(TaskManager { tasks, id_generator: IdGenerator::new(Some(current_id)) })
    }
}

impl Default for TaskManager {

    fn default() -> (r: TaskManager)
        ensures
            r.tasks_view() == Seq::<TaskView>::empty(),
            r.counter() == 0,
            r.wf(),
    {
        TaskManager::new()
    }
}

} // verus!
