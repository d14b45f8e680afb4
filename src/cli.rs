//! Commands on the task list: what each one does to the manager, and one
//! whole load, apply and save cycle.

use vstd::prelude::*;
use crate::manager::{
    deserialized, serializes, first_with_id, has_id, is_first_with_id, lemma_first_exists, lemma_without_has_none,
    without_id, TaskManager,
};
use crate::models::TaskStatus;
use crate::storage::Storage;
use crate::task::{refreshed, with_status, Task, TaskView};
use crate::text::{decimal_text, parse_u32, u32_of_text, u32_text};
use crate::timestamp::{current_time, Timestamp};

verus! {

/// The operations a command can ask for.
#[derive(Debug, Clone, Copy, PartialEq, Eq, Structural)]
pub enum TaskOperation {
    Add,
    Delete,
    MarkInProgress,
    MarkDone,
    UpdateDesc,
    Get,
    List,
}

/// An operation with the arguments it was given.
#[derive(Debug)]
pub struct TaskCommand {
    pub operation: TaskOperation,
    pub task_id: Option<u32>,
    pub description: Option<String>,
}

/// What became of a command.
#[derive(Debug)]
pub enum CommandOutcome {
    /// A task was added under this id.
    Added(u32),
    /// The tasks with this id, if any, were removed.
    Deleted(u32),
    MarkedInProgress(u32),
    MarkedDone(u32),
    /// The description of the task with this id was replaced.
    Updated(u32),
    /// The task asked for.
    Found(Task),
    /// The whole list was asked for.
    Listed,
    /// No task has this id.
    NotFound(u32),
    /// The operation needs an id and none was given.
    MissingId,
    /// The operation needs a description and none was given.
    MissingDescription,
    /// The counter is at its largest value, so no new id can be minted.
    IdsExhausted,
}

/// Whether the operation needs a task id.
pub open spec fn needs_id(op: TaskOperation) -> bool {
    !(op is Add || op is List)
}

/// The list after the first task with id `id` is replaced by `v`.
pub open spec fn replace_first(ts: Seq<TaskView>, id: u32, v: TaskView) -> Seq<TaskView> {
    ts.update(first_with_id(ts, id), v)
}

/// The manager holds the same tasks and counter as before.
pub open spec fn same_state(a: TaskManager, b: TaskManager) -> bool {
    a.tasks_view() == b.tasks_view() && a.counter() == b.counter()
}

/// What one command does to a manager with tasks `ts` and counter `c`, at
/// time `now`: `r` is its outcome, `fs` and `fc` the tasks and counter after.
pub open spec fn command_effect(
    ts: Seq<TaskView>,
    c: u32,
    command: TaskCommand,
    now: Timestamp,
    r: CommandOutcome,
    fs: Seq<TaskView>,
    fc: u32,
) -> bool {
    match command.operation {
        TaskOperation::Add => match command.description {
            None => r is MissingDescription && fs == ts && fc == c,
            Some(d) => if c < u32::MAX {
                &&& r == CommandOutcome::Added((c + 1) as u32)
                &&& fc == c + 1
                &&& fs == ts.push(TaskView { id: fc, description: d@, status: TaskStatus::ToDo, created_at: now, updated_at: now })
            } else {
                r is IdsExhausted && fs == ts && fc == c
            },
        },
        TaskOperation::List => r is Listed && fs == ts && fc == c,
        _ => match command.task_id {
            None => r is MissingId && fs == ts && fc == c,
            Some(id) => fc == c && match command.operation {
            TaskOperation::Delete => r == CommandOutcome::Deleted(id) && fs == without_id(ts, id),
            TaskOperation::Get => fs == ts && if has_id(ts, id) {
                r matches CommandOutcome::Found(t) && t@ == ts[first_with_id(ts, id)]
            } else {
                r == CommandOutcome::NotFound(id)
            },
            TaskOperation::MarkInProgress => if has_id(ts, id) {
                &&& r == CommandOutcome::MarkedInProgress(id)
                &&& fs == replace_first(ts, id, with_status(ts[first_with_id(ts, id)], TaskStatus::InProgress, now))
            } else {
                r == CommandOutcome::NotFound(id) && fs == ts
            },
            TaskOperation::MarkDone => if has_id(ts, id) {
                &&& r == CommandOutcome::MarkedDone(id)
                &&& fs == replace_first(ts, id, with_status(ts[first_with_id(ts, id)], TaskStatus::Done, now))
            } else {
                r == CommandOutcome::NotFound(id) && fs == ts
            },
            _ => match command.description {
                None => r is MissingDescription && fs == ts,
                Some(d) => if has_id(ts, id) {
                    let old_task = ts[first_with_id(ts, id)];
                    &&& r == CommandOutcome::Updated(id)
                    &&& fs == replace_first(ts, id, TaskView { description: d@, updated_at: refreshed(old_task, now), ..old_task })
                } else {
                    r == CommandOutcome::NotFound(id) && fs == ts
                },
            },
        },
        },
    }
}

/// The command looks a task up by its id, with all the arguments it needs.
pub open spec fn finds_task(command: TaskCommand) -> bool {
    &&& command.task_id is Some
    &&& (command.operation is Get || command.operation is MarkInProgress || command.operation is MarkDone
        || (command.operation is UpdateDesc && command.description is Some))
}

/// What any run of a command shows in its outcome and the tasks after it: a
/// deletion leaves no task with the id, an addition appends the task it
/// reports, and a lookup fails exactly where no task has the id.
pub proof fn lemma_effect_facts(
    ts: Seq<TaskView>,
    c: u32,
    command: TaskCommand,
    now: Timestamp,
    r: CommandOutcome,
    fs: Seq<TaskView>,
    fc: u32,
)
    requires
        command_effect(ts, c, command, now, r, fs, fc),
    ensures
        command.operation is Delete && command.task_id is Some ==> r == CommandOutcome::Deleted(
            command.task_id->Some_0,
        ) && !has_id(fs, command.task_id->Some_0),
        command.operation is Add && command.description is Some ==> (r is IdsExhausted || (r is Added
            && fs.len() > 0 && fs.last().id == r->Added_0 && fs.last().description
            == command.description->Some_0@ && fs.last().status == TaskStatus::ToDo)),
        finds_task(command) ==> (r is NotFound <==> !has_id(fs, command.task_id->Some_0)),
{
    if command.task_id is Some {
        let id = command.task_id->Some_0;
        if command.operation is Delete {
            lemma_without_has_none(ts, id);
        }
        if finds_task(command) && has_id(ts, id) {
            let i = first_with_id(ts, id);
            assert(is_first_with_id(ts, id, i)) by {
                let k = choose|k: int| 0 <= k < ts.len() && ts[k].id == id;
                lemma_first_exists(ts, id, k);
            }
            assert(fs[i].id == id);
        }
    }
}

/// Applies one command to the manager, with `now` as the time of any change.
pub fn apply_command(manager: &mut TaskManager, command: TaskCommand, now: Timestamp) -> (r: CommandOutcome)
    requires
        old(manager).wf(),
        now.wf(),
    ensures
        final(manager).wf(),
        needs_id(command.operation) && command.task_id is None ==> r is MissingId && same_state(*final(manager), *old(manager)),
        command_effect(
            old(manager).tasks_view(),
            old(manager).counter(),
            command,
            now,
            r,
            final(manager).tasks_view(),
            final(manager).counter(),
        ),
{
    let ghost ts = manager.tasks_view();
    match command.operation {
        TaskOperation::Add => match command.description {
            None => CommandOutcome::MissingDescription,
            Some(d) => {
                if manager.id_generator.current() < u32::MAX {
                    manager.add_task_at(d, now);
                    CommandOutcome::Added(manager.id_generator.current())
                } else {
                    CommandOutcome::IdsExhausted
                }
            },
        },
        TaskOperation::List => CommandOutcome::Listed,
        TaskOperation::Delete => match command.task_id {
            None => CommandOutcome::MissingId,
            Some(id) => {
                manager.remove_task(id);
                CommandOutcome::Deleted(id)
            },
        },
        TaskOperation::Get => match command.task_id {
            None => CommandOutcome::MissingId,
            Some(id) => match manager.get_task(id) {
                Some(t) => CommandOutcome::Found(t.clone()),
                None => CommandOutcome::NotFound(id),
            },
        },
        TaskOperation::MarkInProgress => match command.task_id {
            None => CommandOutcome::MissingId,
            Some(id) => match manager.get_task_mut(id) {
                Some(t) => {
                    t.mark_in_progress_at(now);
                    proof {
                        assert(manager.tasks_view() =~= replace_first(ts, id, with_status(ts[first_with_id(ts, id)], TaskStatus::InProgress, now)));
                    }
                    CommandOutcome::MarkedInProgress(id)
                },
                None => CommandOutcome::NotFound(id),
            },
        },
        TaskOperation::MarkDone => match command.task_id {
            None => CommandOutcome::MissingId,
            Some(id) => match manager.get_task_mut(id) {
                Some(t) => {
                    t.mark_done_at(now);
                    proof {
                        assert(manager.tasks_view() =~= replace_first(ts, id, with_status(ts[first_with_id(ts, id)], TaskStatus::Done, now)));
                    }
                    CommandOutcome::MarkedDone(id)
                },
                None => CommandOutcome::NotFound(id),
            },
        },
        TaskOperation::UpdateDesc => match command.task_id {
            None => CommandOutcome::MissingId,
            Some(id) => match command.description {
                None => CommandOutcome::MissingDescription,
                Some(d) => match manager.get_task_mut(id) {
                    Some(t) => {
                        t.update_at(d, now);
                        proof {
                            let old_task = ts[first_with_id(ts, id)];
                            assert(manager.tasks_view() =~= replace_first(ts, id, TaskView { description: d@, updated_at: refreshed(old_task, now), ..old_task }));
                        }
                        CommandOutcome::Updated(id)
                    },
                    None => CommandOutcome::NotFound(id),
                },
            },
        },
    }
}

/// The task list text to read: the loaded blob, or an empty array where it
/// could not be loaded.
pub open spec fn tasks_text(blob: Result<String, String>) -> Seq<char> {
    match blob {
        Ok(s) => s@,
        Err(_) => "[]"@,
    }
}

/// The counter to seed with: the loaded blob read as a `u32`, or 0 where it
/// could not be loaded or read.
pub open spec fn seed_of(blob: Result<String, String>) -> u32 {
    match blob {
        Ok(s) => match u32_of_text(s@) {
            Some(n) => n,
            None => 0,
        },
        Err(_) => 0,
    }
}

/// `ts` and `c` are the tasks and counter that the two loaded blobs give: the
/// tasks of the list text with the counter of its own blob, or no task and
/// counter 0 where the list text is not a JSON array.
pub open spec fn restored(
    tasks_blob: Result<String, String>,
    id_blob: Result<String, String>,
    ts: Seq<TaskView>,
    c: u32,
) -> bool {
    match deserialized(tasks_text(tasks_blob)) {
        Some(loaded) => ts == loaded && c == seed_of(id_blob),
        None => ts == Seq::<TaskView>::empty() && c == 0,
    }
}

/// Rebuilds the manager from the two loaded blobs: the tasks that the list
/// text holds with the counter seeded from its own blob, or an empty manager
/// with counter 0 where the list text is not JSON.
pub fn restore(tasks_blob: Result<String, String>, id_blob: Result<String, String>) -> (r: TaskManager)
    ensures
        r.wf(),
        restored(tasks_blob, id_blob, r.tasks_view(), r.counter()),
{
    let seed = match &id_blob {
        Ok(s) => match parse_u32(s.as_str()) {
            Some(n) => n,
            None => 0,
        },
        Err(_) => 0,
    };
    let manager = match &tasks_blob {
        Ok(s) => TaskManager::from_json_string(s.as_str(), seed),
        Err(_) => TaskManager::from_json_string("[]", seed),
    };
    match manager {
        Some(m) => m,
        None => TaskManager::new(),
    }
}

/// What a load, apply and save cycle hands back: what became of the command,
/// the tasks as they were saved, and the two texts handed to the stores.
#[derive(Debug)]
pub struct CommandReport {
    pub outcome: CommandOutcome,
    pub tasks: Vec<Task>,
    /// The counter text handed to the id store.
    pub id_text: String,
    /// The task list text handed to the task store.
    pub tasks_text: String,
}

impl CommandReport {
    /// The tasks as saved, in order.
    pub open spec fn tasks_view(&self) -> Seq<TaskView> {
        self.tasks@.map_values(|t: Task| t@)
    }
}

/// Runs one command against the two stores: loads the task list and the
/// counter, applies the command at the current time, and saves both back as
/// two separate writes, the counter first and then the list, whatever became
/// of the command; a failed write is not reported.
pub fn execute_command<S: Storage>(command: TaskCommand, id_storage: &S, task_storage: &S) -> (r: CommandReport)
    ensures
        exists|tb: Result<String, String>, ib: Result<String, String>, ts: Seq<TaskView>, c: u32, now: Timestamp, fc: u32|
            #![trigger restored(tb, ib, ts, c), command_effect(ts, c, command, now, r.outcome, r.tasks_view(), fc)]
            restored(tb, ib, ts, c) && command_effect(ts, c, command, now, r.outcome, r.tasks_view(), fc)
                && r.id_text@ == decimal_text(fc as int),
        serializes(r.tasks_text@, r.tasks_view()),
        command.operation is Delete && command.task_id is Some ==> r.outcome == CommandOutcome::Deleted(
            command.task_id->Some_0,
        ) && !has_id(r.tasks_view(), command.task_id->Some_0),
        command.operation is Add && command.description is Some ==> (r.outcome is IdsExhausted || (
        r.outcome is Added && r.tasks_view().len() > 0 && r.tasks_view().last().id == r.outcome->Added_0
            && r.tasks_view().last().description == command.description->Some_0@
            && r.tasks_view().last().status == TaskStatus::ToDo)),
        finds_task(command) ==> (r.outcome is NotFound <==> !has_id(r.tasks_view(), command.task_id->Some_0)),
        needs_id(command.operation) && command.task_id is None ==> r.outcome is MissingId,
        command.operation is Add && command.description is None ==> r.outcome is MissingDescription,
        command.operation is List ==> r.outcome is Listed,
        forall|i: int| 0 <= i < r.tasks@.len() ==> (#[trigger] r.tasks@[i]).wf(),
{
    let tasks_blob = task_storage.load();
    let id_blob = id_storage.load();
    let ghost tb = tasks_blob;
    let ghost ib = id_blob;
    let mut manager = restore(tasks_blob, id_blob);
    let ghost ts = manager.tasks_view();
    let ghost c = manager.counter();
    let now = current_time();
    let outcome = apply_command(&mut manager, command, now);
    let (data, id) = manager.to_json_string();
    let id_text = u32_text(id);
    let _ = id_storage.save(id_text.clone());
    let _ = task_storage.save(data.clone());
    let r = CommandReport { outcome, tasks: manager.tasks, id_text, tasks_text: data };
    assert(restored(tb, ib, ts, c));
    assert(command_effect(ts, c, command, now, r.outcome, r.tasks_view(), id));
    proof {
        lemma_effect_facts(ts, c, command, now, r.outcome, r.tasks_view(), id);
    }
    r
}

} // verus!
