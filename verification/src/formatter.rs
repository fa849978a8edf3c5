//! What the supervisor answers, and how the answers read for a person.

use crate::status::Status;
use crate::task::Task;
use crate::text::same_text;
use vstd::prelude::*;
use vstd::string::*;

verus! {

/// The form in which answers are written.
#[derive(Clone, Copy, Debug, PartialEq, Eq, Structural)]
pub enum MessageFormat {
    Human,
    Yaml,
    Json,
}

impl MessageFormat {
    /// The format that `s` names, or the complaint about `s`.
    pub open spec fn spec_from_str(s: Seq<char>) -> Result<MessageFormat, Seq<char>> {
        if s == "human"@ {
            Ok(MessageFormat::Human)
        } else if s == "yaml"@ {
            Ok(MessageFormat::Yaml)
        } else if s == "json"@ {
            Ok(MessageFormat::Json)
        } else {
            Err("Unknown Message format "@ + s)
        }
    }

    pub fn from_str(s: &str) -> (r: Result<MessageFormat, String>)
        ensures
            match Self::spec_from_str(s@) {
                Ok(format) => r == Ok::<MessageFormat, String>(format),
                Err(message) => r.is_err() && r.unwrap_err()@ == message,
            },
    {
        if same_text(s, "human") {
            Ok(MessageFormat::Human)
        } else if same_text(s, "yaml") {
            Ok(MessageFormat::Yaml)
        } else if same_text(s, "json") {
            Ok(MessageFormat::Json)
        } else {
            Err(String::from_str("Unknown Message format ").concat(s))
        }
    }
}

/// An answer to a client's request.
#[derive(Debug)]
pub enum Reply {
    /// The request could not be served.
    Error { message: String },
    /// The state of one task.
    Status { taskid: String, status: Status },
    /// Every task known, by name.
    Tasks { tasks: Vec<(String, Task)> },
    /// The settings of one task.
    Task { taskid: String, task: Task },
}

/// The complaint about a task name that no monitor has.
pub open spec fn unknown_taskid_message(taskid: Seq<char>) -> Seq<char> {
    "unknown taskid "@ + taskid
}

/// Whether `reply` is the error that says `taskid` is not known.
pub open spec fn is_unknown_taskid(reply: Reply, taskid: Seq<char>) -> bool {
    match reply {
        Reply::Error { message } => message@ == unknown_taskid_message(taskid),
        _ => false,
    }
}

/// The answer to a request that names a task no monitor has.
pub fn unknown_taskid(taskid: &str) -> (r: Reply)
    ensures
        is_unknown_taskid(r, taskid@),
{
    Reply::Error { message: String::from_str("unknown taskid ").concat(taskid) }
}

/// The formatter that writes for a person.
pub struct Human;

/// The line that states the state `status` of the task `name`.
pub open spec fn status_line(name: Seq<char>, status: Status) -> Seq<char> {
    "status of "@ + name + ": "@ + status.spec_name()
}

/// The line that lists the task `name`.
pub open spec fn job_line(name: Seq<char>) -> Seq<char> {
    "    - "@ + name + "\n"@
}

/// The line that heads the settings of the task `name`.
pub open spec fn info_line(name: Seq<char>) -> Seq<char> {
    "Info "@ + name + ":\n"@
}

/// The chunks that list the tasks `names`: a heading, then a line for
/// each in order.
pub open spec fn job_lines(names: Seq<Seq<char>>) -> Seq<Seq<char>> {
    seq!["Available jobs:\n"@] + Seq::new(names.len(), |i: int| job_line(names[i]))
}

impl Human {
    /// The chunks that list the tasks `names`.
    pub fn send_tasks(names: &Vec<String>) -> (r: Vec<String>)
        ensures
            crate::text::views(r@) == job_lines(crate::text::views(names@)),
    {
        let mut chunks: Vec<String> = Vec::new();
        chunks.push(String::from_str("Available jobs:\n"));
        let mut i: usize = 0;
        while i < names.len()
            invariant
                i <= names.len(),
                chunks@.len() == i + 1,
                chunks@[0]@ == "Available jobs:\n"@,
                forall|j: int| 0 <= j < i ==> (#[trigger] chunks@[j + 1])@ == job_line(names@[j]@),
            decreases names.len() - i,
        {
            let line = String::from_str("    - ").concat(names[i].as_str()).concat("\n");
            chunks.push(line);
            i += 1;
        }
        proof {
            let got = crate::text::views(chunks@);
            let want = job_lines(crate::text::views(names@));
            assert(got.len() == want.len());
            assert forall|k: int| 0 <= k < got.len() implies got[k] == want[k] by {
                if k > 0 {
                    assert(chunks@[(k - 1) + 1]@ == job_line(names@[k - 1]@));
                }
            }
            assert(got =~= want);
        }
        chunks
    }

    /// The chunk that states the state of a task.
    pub fn send_status(name: &str, status: Status) -> (r: String)
        ensures
            r@ == status_line(name@, status),
    {
        String::from_str("status of ").concat(name).concat(": ").concat(status.name())
    }

    /// The chunks that state the settings of a task: a heading, then the
    /// settings written out.
    pub fn send_task(name: &str, task: &Task) -> (r: (String, String))
        ensures
            r.0@ == info_line(name@),
            r.1@ == crate::task::task_text(task@),
    {
        (String::from_str("Info ").concat(name).concat(":\n"), task.to_string())
    }

    /// The chunk that states an error.
    pub fn send_error(message: String) -> (r: String)
        ensures
            r == message,
    {
        message
    }
}

} // verus!
