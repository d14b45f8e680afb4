//! A single task and its JSON record.

use vstd::prelude::*;
use crate::json_tree::{
    as_str, as_u32, field, from_string, from_u32, insert, is_plain_leaf, json_tree, new_object,
    JsonTree,
};
use crate::models::{canonical_text, status_of_text, Identifiable, Serializable, TaskStatus};
use crate::timestamp::{
    before, current_time, is_last_instant, lemma_next_after, next_after, parse_rfc3339, parsed_rfc3339,
    rfc3339_text, to_rfc3339, Timestamp,
};

verus! {

/// A unit of work: an identity, a description, a status and two timestamps.
#[derive(Debug)]
pub struct Task {
    pub id: u32,
    pub description: String,
    pub status: TaskStatus,
    pub created_at: Timestamp,
    pub updated_at: Timestamp,
}

/// What a task holds, with its description as characters.
pub struct TaskView {
    pub id: u32,
    pub description: Seq<char>,
    pub status: TaskStatus,
    pub created_at: Timestamp,
    pub updated_at: Timestamp,
}

impl View for Task {
    type V = TaskView;

    open spec fn view(&self) -> TaskView {
        TaskView {
            id: self.id,
            description: self.description@,
            status: self.status,
            created_at: self.created_at,
            updated_at: self.updated_at,
        }
    }
}

impl TaskView {
    /// Both timestamps can be written as RFC 3339 text and read back.
    pub open spec fn wf(&self) -> bool {
        self.created_at.wf() && self.updated_at.wf()
    }

    /// The last change comes no earlier than the creation.
    pub open spec fn in_order(&self) -> bool {
        !before(self.updated_at, self.created_at)
    }
}

/// The last change recorded for a change made at `now`: `now` where the
/// clock reads later than the last change, else the nanosecond after the last
/// change; and never earlier than the creation.
pub open spec fn refreshed(v: TaskView, now: Timestamp) -> Timestamp {
    let next = if before(v.updated_at, now) {
        now
    } else {
        next_after(v.updated_at)
    };
    if before(next, v.created_at) {
        v.created_at
    } else {
        next
    }
}

/// A refresh never goes back, moves strictly forward unless the last change is
/// the last writable instant, keeps the creation first, and stays writable.
pub proof fn lemma_refreshed(v: TaskView, now: Timestamp)
    ensures
        !before(refreshed(v, now), v.updated_at),
        !is_last_instant(v.updated_at) ==> before(v.updated_at, refreshed(v, now)),
        !before(refreshed(v, now), v.created_at),
        v.wf() && now.wf() ==> refreshed(v, now).wf(),
{
    lemma_next_after(v.updated_at);
}

/// The task after its status is set to `st` by a change made at `now`.
pub open spec fn with_status(v: TaskView, st: TaskStatus, now: Timestamp) -> TaskView {
    TaskView { status: st, updated_at: refreshed(v, now), ..v }
}

/// Marking a task done and then in progress, at any two clock readings,
/// leaves it in progress with its creation time unchanged, and moves its last
/// change strictly forward at each step, unless it already stands at the last
/// instant that RFC 3339 text can write.
pub proof fn lemma_done_then_in_progress(v: TaskView, t1: Timestamp, t2: Timestamp)
    ensures
        ({
            let done = with_status(v, TaskStatus::Done, t1);
            let again = with_status(done, TaskStatus::InProgress, t2);
            &&& again.status == TaskStatus::InProgress
            &&& !is_last_instant(done.updated_at) ==> before(done.updated_at, again.updated_at)
            &&& !is_last_instant(v.updated_at) ==> before(v.updated_at, done.updated_at)
            &&& again.created_at == v.created_at
            &&& done.created_at == v.created_at
        }),
{
    lemma_refreshed(v, t1);
    lemma_refreshed(with_status(v, TaskStatus::Done, t1), t2);
}

/// The entry of a JSON object under `key`; null where there is none.
pub open spec fn entry(t: JsonTree, key: Seq<char>) -> JsonTree {
    match t {
        JsonTree::Object(m) => if m.contains_key(key) {
            m[key]
        } else {
            JsonTree::Null
        },
        _ => JsonTree::Null,
    }
}

/// The timestamp that a JSON string in RFC 3339 form denotes, where it can
/// be written back exactly.
pub open spec fn time_of(t: JsonTree) -> Option<Timestamp> {
    match t {
        JsonTree::Text(s) => match parsed_rfc3339(s) {
            Some(ts) => if ts.wf() {
                Some(ts)
            } else {
                None
            },
            None => None,
        },
        _ => None,
    }
}

/// The task that a JSON record denotes: all five fields present and of the
/// right kind, a canonical status and two RFC 3339 timestamps; otherwise none.
pub open spec fn decode_task(t: JsonTree) -> Option<TaskView> {
    let id = entry(t, "id"@);
    let desc = entry(t, "description"@);
    let status = entry(t, "status"@);
    let created = time_of(entry(t, "created_at"@));
    let updated = time_of(entry(t, "updated_at"@));
    if id is Number && id->Number_0 is Some && desc is Text && status is Text && status_of_text(
        status->Text_0,
    ) is Some && created is Some && updated is Some {
        Some(
            TaskView {
                id: id->Number_0->Some_0,
                description: desc->Text_0,
                status: status_of_text(status->Text_0)->Some_0,
                created_at: created->Some_0,
                updated_at: updated->Some_0,
            },
        )
    } else {
        None
    }
}

/// `t` is a JSON record of the task `v`: an object with exactly the five
/// fields, the status in its canonical spelling and each timestamp as text
/// that reads back to it.
pub open spec fn encodes_task(t: JsonTree, v: TaskView) -> bool {
    &&& t matches JsonTree::Object(m)
    &&& m.dom() == set!["id"@, "description"@, "status"@, "created_at"@, "updated_at"@]
    &&& m["id"@] == JsonTree::Number(Some(v.id))
    &&& m["description"@] == JsonTree::Text(v.description)
    &&& m["status"@] == JsonTree::Text(canonical_text(v.status))
    &&& m["created_at"@] == JsonTree::Text(rfc3339_text(v.created_at))
    &&& m["updated_at"@] == JsonTree::Text(rfc3339_text(v.updated_at))
    &&& parsed_rfc3339(rfc3339_text(v.created_at)) == Some(v.created_at)
    &&& parsed_rfc3339(rfc3339_text(v.updated_at)) == Some(v.updated_at)
}

/// The five keys of a record are distinct.
proof fn lemma_keys_distinct()
    ensures
        "id"@ != "description"@,
        "id"@ != "status"@,
        "id"@ != "created_at"@,
        "id"@ != "updated_at"@,
        "description"@ != "status"@,
        "description"@ != "created_at"@,
        "description"@ != "updated_at"@,
        "status"@ != "created_at"@,
        "status"@ != "updated_at"@,
        "created_at"@ != "updated_at"@,
{
    reveal_strlit("id");
    reveal_strlit("description");
    reveal_strlit("status");
    reveal_strlit("created_at");
    reveal_strlit("updated_at");
    assert("id"@.len() == 2 && "description"@.len() == 11 && "status"@.len() == 6);
    assert("created_at"@.len() == 10 && "updated_at"@.len() == 10);
    assert("created_at"@[0] == 'c' && "updated_at"@[0] == 'u');
}

/// Every entry of a task's record is a plain leaf.
pub proof fn lemma_record_is_plain(t: JsonTree, v: TaskView)
    requires
        encodes_task(t, v),
    ensures
        t matches JsonTree::Object(m) && forall|k: Seq<char>| #[trigger] m.contains_key(k) ==> is_plain_leaf(m[k]),
{
}

/// Reading a task's record gives the task back.
pub proof fn lemma_decode_encoded(t: JsonTree, v: TaskView)
    requires
        encodes_task(t, v),
        v.wf(),
    ensures
        decode_task(t) == Some(v),
{
    crate::models::lemma_canonical_round_trip(v.status);
    let m = t->Object_0;
    assert(m.contains_key("id"@) && m.contains_key("description"@) && m.contains_key("status"@));
    assert(m.contains_key("created_at"@) && m.contains_key("updated_at"@));
}

impl Task {
    /// The timestamps can be written and read back exactly.
    pub open spec fn wf(&self) -> bool {
        self@.wf()
    }

    /// A task created at `now`: status to-do, both timestamps `now`.
    pub fn new_at(id: u32, desc: String, now: Timestamp) -> (r: Task)
        ensures
            r@ == (TaskView {
                id,
                description: desc@,
                status: TaskStatus::ToDo,
                created_at: now,
                updated_at: now,
            }),
    {
        Task { id, description: desc, status: TaskStatus::ToDo, created_at: now, updated_at: now }
    }

    /// A task created now: status to-do, both timestamps the current time.
    pub fn new(id: u32, desc: String) -> (r: Task)
        ensures
            r.id == id,
            r.description@ == desc@,
            r.status == TaskStatus::ToDo,
            r.created_at == r.updated_at,
            r.wf(),
    {
        Task::new_at(id, desc, current_time())
    }

    /// Records a change at `now`: the last change becomes `now` where the
    /// clock reads later than it, else the nanosecond after it; never earlier
    /// than the creation.
    pub fn touch_at(&mut self, now: Timestamp)
        ensures
            final(self).id == old(self).id,
            final(self).description == old(self).description,
            final(self).status == old(self).status,
            final(self).created_at == old(self).created_at,
            final(self).updated_at == refreshed(old(self)@, now),
    {
        let next = if self.updated_at.precedes(&now) {
            now
        } else {
            self.updated_at.next_nanosecond()
        };
        if next.precedes(&self.created_at) {
            self.updated_at = self.created_at;
        } else {
            self.updated_at = next;
        }
    }

    /// Replaces the description, as a change made at `now`.
    pub fn update_at(&mut self, desc: String, now: Timestamp)
        ensures
            final(self)@ == (TaskView { description: desc@, updated_at: refreshed(old(self)@, now), ..old(self)@ }),
    {
        self.description = desc;
        self.touch_at(now);
    }

    /// Sets the status to in progress, from any status, as a change made at `now`.
    pub fn mark_in_progress_at(&mut self, now: Timestamp)
        ensures
            final(self)@ == with_status(old(self)@, TaskStatus::InProgress, now),
    {
        self.status = TaskStatus::InProgress;
        self.touch_at(now);
    }

    /// Sets the status to done, from any status, as a change made at `now`.
    pub fn mark_done_at(&mut self, now: Timestamp)
        ensures
            final(self)@ == with_status(old(self)@, TaskStatus::Done, now),
    {
        self.status = TaskStatus::Done;
        self.touch_at(now);
    }

    /// Replaces the description and refreshes the last change: to now, or to
    /// just after the previous change where the clock has not moved past it.
    pub fn update(&mut self, desc: String)
        requires
            old(self).wf(),
        ensures
            final(self)@ == (TaskView { description: desc@, updated_at: final(self).updated_at, ..old(self)@ }),
            final(self).wf(),
            final(self)@.in_order(),
            !before(final(self).updated_at, old(self).updated_at),
            !is_last_instant(old(self).updated_at) ==> before(old(self).updated_at, final(self).updated_at),
    {
        let now = current_time();
        proof {
            lemma_refreshed(self@, now);
        }
        self.update_at(desc, now);
    }

    /// Sets the status to in progress and refreshes the last change: to now,
    /// or to just after the previous change where the clock has not moved past it.
    pub fn mark_in_progress(&mut self)
        requires
            old(self).wf(),
        ensures
            final(self)@ == (TaskView { status: TaskStatus::InProgress, updated_at: final(self).updated_at, ..old(self)@ }),
            final(self).wf(),
            final(self)@.in_order(),
            !before(final(self).updated_at, old(self).updated_at),
            !is_last_instant(old(self).updated_at) ==> before(old(self).updated_at, final(self).updated_at),
    {
        let now = current_time();
        proof {
            lemma_refreshed(self@, now);
        }
        self.mark_in_progress_at(now);
    }

    /// Sets the status to done and refreshes the last change: to now, or to
    /// just after the previous change where the clock has not moved past it.
    pub fn mark_done(&mut self)
        requires
            old(self).wf(),
        ensures
            final(self)@ == (TaskView { status: TaskStatus::Done, updated_at: final(self).updated_at, ..old(self)@ }),
            final(self).wf(),
            final(self)@.in_order(),
            !before(final(self).updated_at, old(self).updated_at),
            !is_last_instant(old(self).updated_at) ==> before(old(self).updated_at, final(self).updated_at),
    {
        let now = current_time();
        proof {
            lemma_refreshed(self@, now);
        }
        self.mark_done_at(now);
    }

    /// The task's JSON record.
    pub fn to_json(&self) -> (r: json::JsonValue)
        requires
            self.wf(),
        ensures
            encodes_task(json_tree(r), self@),
    {
        proof {
            lemma_keys_distinct();
        }
        let mut o = new_object();
        let _ = insert(&mut o, "id", from_u32(self.id));
        let _ = insert(&mut o, "description", from_string(self.description.clone()));
        let _ = insert(&mut o, "status", from_string(self.status.as_canonical_str().to_owned()));
        let _ = insert(&mut o, "created_at", from_string(to_rfc3339(&self.created_at)));
        let _ = insert(&mut o, "updated_at", from_string(to_rfc3339(&self.updated_at)));
        proof {
            let m = json_tree(o)->Object_0;
            assert(m.dom() =~= set!["id"@, "description"@, "status"@, "created_at"@, "updated_at"@]);
        }
        o
    }

    /// The task that a JSON record denotes, or `None` where a field is
    /// missing or malformed.
    pub fn from_json(json: &json::JsonValue) -> (r: Option<Task>)
        ensures
            match r {
                Some(t) => decode_task(json_tree(*json)) == Some(t@) && t.wf(),
                None => decode_task(json_tree(*json)) is None,
            },
    {
        let id = match as_u32(field(json, "id")) {
            Some(n) => n,
            None => return None,
        };
        let description = match as_str(field(json, "description")) {
            Some(d) => d.to_owned(),
            None => return None,
        };
        let status = match as_str(field(json, "status")) {
            Some(s) => match TaskStatus::from_str(s) {
                Some(st) => st,
                None => return None,
            },
            None => return None,
        };
        let created_at = match as_str(field(json, "created_at")) {
            Some(s) => match parse_rfc3339(s) {
                Some(ts) => if ts.is_writable() {
                    ts
                } else {
                    return None;
                },
                None => return None,
            },
            None => return None,
        };
        let updated_at = match as_str(field(json, "updated_at")) {
            Some(s) => match parse_rfc3339(s) {
                Some(ts) => if ts.is_writable() {
                    ts
                } else {
                    return None;
                },
                None => return None,
            },
            None => return None,
        };
        Some(Task { id, description, status, created_at, updated_at })
    }
}

impl Clone for Task {
    fn clone(&self) -> (r: Task)
        ensures
            r == *self,
    {
        Task {
            id: self.id,
            description: self.description.clone(),
            status: self.status,
            created_at: self.created_at,
            updated_at: self.updated_at,
        }
    }
}

impl Serializable for Task {
    /// The task's record. A timestamp outside what RFC 3339 text can
    /// hold is clamped into that range in the record.
    fn to_json(&self) -> json::JsonValue {
        let writable = Task {
            id: self.id,
            description: self.description.clone(),
            status: self.status,
            created_at: self.created_at.clamped(),
            updated_at: self.updated_at.clamped(),
        };
        Task::to_json(&writable)
    }

    fn from_json(json: &json::JsonValue) -> Option<Task> {
        Task::from_json(json)
    }
}

impl Identifiable for Task {
    fn get_id(&self) -> u32 {
        self.id
    }
}

} // verus!
