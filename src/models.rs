//! The status of a task and the traits shared by the task model.

use vstd::prelude::*;

verus! {

/// Where a task stands.
#[derive(Debug, Clone, Copy, PartialEq, Eq, Structural)]
pub enum TaskStatus {
    ToDo,
    InProgress,
    Done,
}

/// The spelling under which a status is persisted.
pub open spec fn canonical_text(s: TaskStatus) -> Seq<char> {
    match s {
        TaskStatus::ToDo => "ToDo"@,
        TaskStatus::InProgress => "InProgress"@,
        TaskStatus::Done => "Done"@,
    }
}

/// The spelling under which a status is shown to a person.
pub open spec fn display_text(s: TaskStatus) -> Seq<char> {
    match s {
        TaskStatus::ToDo => "ToDo"@,
        TaskStatus::InProgress => "In Progress"@,
        TaskStatus::Done => "Done"@,
    }
}

/// The status that a persisted spelling stands for: exact, case-sensitive
/// matches of the three canonical spellings, and nothing else.
pub open spec fn status_of_text(t: Seq<char>) -> Option<TaskStatus> {
    if t == "ToDo"@ {
        Some(TaskStatus::ToDo)
    } else if t == "InProgress"@ {
        Some(TaskStatus::InProgress)
    } else if t == "Done"@ {
        Some(TaskStatus::Done)
    } else {
        None
    }
}

/// Whether two string slices hold the same characters.
pub fn str_eq(a: &str, b: &str) -> (r: bool)
    ensures
        r == (a@ == b@),
{
    let n = a.unicode_len();
    if n != b.unicode_len() {
        return false;
    }
    let mut i: usize = 0;
    while i < n
        invariant
            n == a@.len(),
            n == b@.len(),
            i <= n,
            a@.subrange(0, i as int) == b@.subrange(0, i as int),
        decreases n - i,
    {
        if a.get_char(i) != b.get_char(i) {
            return false;
        }
        assert(a@.subrange(0, i + 1) == a@.subrange(0, i as int).push(a@[i as int]));
        assert(b@.subrange(0, i + 1) == b@.subrange(0, i as int).push(b@[i as int]));
        i = i + 1;
    }
    assert(a@ == a@.subrange(0, n as int));
    assert(b@ == b@.subrange(0, n as int));
    true
}

/// Parsing the persisted spelling gives back the status, for every status.
pub proof fn lemma_canonical_round_trip(s: TaskStatus)
    ensures
        status_of_text(canonical_text(s)) == Some(s),
{
    reveal_strlit("ToDo");
    reveal_strlit("InProgress");
    reveal_strlit("Done");
    assert("ToDo"@.len() == 4 && "Done"@.len() == 4 && "InProgress"@.len() == 10);
    assert("ToDo"@[0] == 'T' && "Done"@[0] == 'D');
}

impl TaskStatus {
    /// Parses the persisted spelling of a status.
    pub fn from_str(s: &str) -> (r: Option<TaskStatus>)
        ensures
            r == status_of_text(s@),
    {
        if str_eq(s, "ToDo") {
            Some(TaskStatus::ToDo)
        } else if str_eq(s, "InProgress") {
            Some(TaskStatus::InProgress)
        } else if str_eq(s, "Done") {
            Some(TaskStatus::Done)
        } else {
            None
        }
    }

    /// The persisted spelling of this status.
    pub fn as_canonical_str(&self) -> (r: &'static str)
        ensures
            r@ == canonical_text(*self),
    {
        match self {
            TaskStatus::ToDo => "ToDo",
            TaskStatus::InProgress => "InProgress",
            TaskStatus::Done => "Done",
        }
    }

    /// The spelling of this status shown to a person.
    pub fn to_display_string(&self) -> (r: String)
        ensures
            r@ == display_text(*self),
    {
        match self {
            TaskStatus::ToDo => "ToDo".to_owned(),
            TaskStatus::InProgress => "In Progress".to_owned(),
            TaskStatus::Done => "Done".to_owned(),
        }
    }
}

/// A value with a JSON record.
pub trait Serializable {
    fn to_json(&self) -> json::JsonValue;

    fn from_json(json: &json::JsonValue) -> Option<Self> where Self: Sized;
}

/// A value that carries a numeric identity.
pub trait Identifiable {
    fn get_id(&self) -> u32;
}

} // verus!
