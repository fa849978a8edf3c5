//! What a managed job is: its command, how many copies run, how they are
//! stopped and when an exit counts as a failure.

use crate::nix_utils::{Gid, SerdeOptionnalUidGid, Uid};
use crate::relaunch::Relaunch;
use crate::nix_utils::SerdeSignal;
use crate::signal::{nix_signal_name, StopSignal};
use crate::text::{
    debug_text, decimal, each_replaced, filled, octal, pad_zeros, pieces, replace, replace_all, rust_debug, signed_decimal, split,
    split_on, text_is_less, text_less, to_decimal, to_octal, to_signed_decimal, views, zero_padded,
};
use vstd::prelude::*;
use vstd::string::*;

verus! {

/// The views of the pairs of `v`, in order.
pub open spec fn env_views(v: Seq<(String, String)>) -> Seq<(Seq<char>, Seq<char>)> {
    Seq::new(v.len(), |i: int| (v[i].0@, v[i].1@))
}

/// Whether the names of an environment rise: each variable's name comes
/// before the next one's, so that no name occurs twice.
pub open spec fn env_ordered(env: Seq<(Seq<char>, Seq<char>)>) -> bool {
    forall|i: int| 0 <= i < env.len() - 1 ==> text_less((#[trigger] env[i]).0, env[i + 1].0)
}

/// An environment in which the names rise, with `entry` in its place; where
/// the name was there already, `entry` takes the place of that variable.
pub open spec fn env_insert(sorted: Seq<(Seq<char>, Seq<char>)>, entry: (Seq<char>, Seq<char>)) -> Seq<
    (Seq<char>, Seq<char>),
>
    decreases sorted.len(),
{
    if sorted.len() == 0 {
        seq![entry]
    } else if sorted.last().0 == entry.0 {
        sorted.drop_last().push(entry)
    } else if text_less(sorted.last().0, entry.0) {
        sorted.push(entry)
    } else {
        env_insert(sorted.drop_last(), entry).push(sorted.last())
    }
}

/// The map that a list of variables stands for, as the list of its
/// variables by rising name: of two variables with one name the later in
/// the list counts.
pub open spec fn canonical_env(env: Seq<(Seq<char>, Seq<char>)>) -> Seq<(Seq<char>, Seq<char>)>
    decreases env.len(),
{
    if env.len() == 0 {
        Seq::empty()
    } else {
        env_insert(canonical_env(env.drop_last()), env.last())
    }
}

/// Putting a variable into an environment whose names rise leaves the
/// names rising, and the last variable is the new one or the old last.
pub proof fn lemma_env_insert_ordered(sorted: Seq<(Seq<char>, Seq<char>)>, entry: (Seq<char>, Seq<char>))
    requires
        env_ordered(sorted),
    ensures
        env_ordered(env_insert(sorted, entry)),
        env_insert(sorted, entry).len() >= 1,
        env_insert(sorted, entry).last().0 == entry.0 || (sorted.len() > 0 && env_insert(
            sorted,
            entry,
        ).last() == sorted.last()),
    decreases sorted.len(),
{
    let after = env_insert(sorted, entry);
    if sorted.len() == 0 {
    } else if sorted.last().0 == entry.0 {
        assert forall|i: int| 0 <= i < after.len() - 1 implies text_less(
            (#[trigger] after[i]).0,
            after[i + 1].0,
        ) by {
            assert(after[i] == sorted[i]);
            assert(text_less(sorted[i].0, sorted[i + 1].0));
        }
    } else if text_less(sorted.last().0, entry.0) {
        assert forall|i: int| 0 <= i < after.len() - 1 implies text_less(
            (#[trigger] after[i]).0,
            after[i + 1].0,
        ) by {
            assert(after[i] == sorted[i]);
            if i < sorted.len() - 1 {
                assert(text_less(sorted[i].0, sorted[i + 1].0));
            }
        }
    } else {
        let front = sorted.drop_last();
        assert forall|i: int| 0 <= i < front.len() - 1 implies text_less(
            (#[trigger] front[i]).0,
            front[i + 1].0,
        ) by {
            assert(front[i] == sorted[i]);
            assert(text_less(sorted[i].0, sorted[i + 1].0));
        }
        lemma_env_insert_ordered(front, entry);
        let placed = env_insert(front, entry);
        crate::text::lemma_text_less_total(sorted.last().0, entry.0);
        if placed.last().0 != entry.0 {
            assert(placed.last() == front.last());
            assert(front.last() == sorted[sorted.len() - 2]);
            assert(text_less(sorted[sorted.len() - 2].0, sorted[sorted.len() - 2 + 1].0));
        }
        assert(text_less(placed.last().0, sorted.last().0));
        assert forall|i: int| 0 <= i < after.len() - 1 implies text_less(
            (#[trigger] after[i]).0,
            after[i + 1].0,
        ) by {
            if i < placed.len() - 1 {
                assert(after[i] == placed[i]);
                assert(text_less(placed[i].0, placed[i + 1].0));
            } else {
                assert(after[i] == placed.last());
            }
        }
    }
}

/// The names of the map that a list stands for rise.
pub proof fn lemma_canonical_ordered(env: Seq<(Seq<char>, Seq<char>)>)
    ensures
        env_ordered(canonical_env(env)),
    decreases env.len(),
{
    if env.len() > 0 {
        lemma_canonical_ordered(env.drop_last());
        lemma_env_insert_ordered(canonical_env(env.drop_last()), env.last());
    }
}

/// A list whose names rise stands for itself.
pub proof fn lemma_canonical_of_ordered(env: Seq<(Seq<char>, Seq<char>)>)
    requires
        env_ordered(env),
    ensures
        canonical_env(env) == env,
    decreases env.len(),
{
    if env.len() > 0 {
        let front = env.drop_last();
        assert forall|i: int| 0 <= i < front.len() - 1 implies text_less(
            (#[trigger] front[i]).0,
            front[i + 1].0,
        ) by {
            assert(front[i] == env[i]);
            assert(text_less(env[i].0, env[i + 1].0));
        }
        lemma_canonical_of_ordered(front);
        if front.len() > 0 {
            assert(front.last() == env[env.len() - 2]);
            assert(text_less(env[env.len() - 2].0, env[env.len() - 2 + 1].0));
            crate::text::lemma_text_less_irreflexive(env.last().0);
        }
        assert(front.push(env.last()) =~= env);
    }
}

/// Where the names rise, a name that comes earlier comes before every
/// later one, so no name occurs twice.
pub proof fn lemma_ordered_names_differ(env: Seq<(Seq<char>, Seq<char>)>, i: int, j: int)
    requires
        env_ordered(env),
        0 <= i < j < env.len(),
    ensures
        text_less(env[i].0, env[j].0),
        env[i].0 != env[j].0,
    decreases j - i,
{
    if j > i + 1 {
        lemma_ordered_names_differ(env, i, j - 1);
        assert(text_less(env[j - 1].0, env[j - 1 + 1].0));
        crate::text::lemma_text_less_transitive(env[i].0, env[j - 1].0, env[j].0);
    } else {
        assert(text_less(env[i].0, env[i + 1].0));
    }
    crate::text::lemma_text_less_irreflexive(env[i].0);
}

/// Puts a variable in its place in an environment whose names rise.
pub fn insert_variable(sorted: Vec<(String, String)>, entry: (String, String)) -> (r: Vec<(String, String)>)
    ensures
        env_views(r@) == env_insert(env_views(sorted@), (entry.0@, entry.1@)),
    decreases sorted@.len(),
{
    let mut sorted = sorted;
    let ghost before = env_views(sorted@);
    let ghost new = (entry.0@, entry.1@);
    match sorted.pop() {
        None => {
            sorted.push(entry);
            assert(env_views(sorted@) =~= seq![new]);
            sorted
        },
        Some(last) => {
            proof {
                assert(before.last() == (last.0@, last.1@));
                assert(env_views(sorted@) =~= before.drop_last());
            }
            if last.0 == entry.0 {
                sorted.push(entry);
                assert(env_views(sorted@) =~= before.drop_last().push(new));
                sorted
            } else if text_is_less(last.0.as_str(), entry.0.as_str()) {
                sorted.push(last);
                sorted.push(entry);
                assert(env_views(sorted@) =~= before.push(new));
                sorted
            } else {
                let mut placed = insert_variable(sorted, entry);
                let ghost inner = env_views(placed@);
                placed.push(last);
                assert(env_views(placed@) =~= inner.push(before.last()));
                placed
            }
        },
    }
}

/// Puts the variables of a list in the order of their names; of two with
/// one name the later stays.
pub fn sort_env(env: Vec<(String, String)>) -> (r: Vec<(String, String)>)
    ensures
        env_views(r@) == canonical_env(env_views(env@)),
{
    let ghost all = env_views(env@);
    let mut env = env;
    let mut sorted: Vec<(String, String)> = Vec::new();
    let ghost mut done: int = 0;
    proof {
        assert(all.take(0) =~= Seq::<(Seq<char>, Seq<char>)>::empty());
        assert(env_views(sorted@) =~= canonical_env(all.take(0)));
        assert(env_views(env@) =~= all.skip(0));
    }
    while env.len() > 0
        invariant
            0 <= done <= all.len(),
            env@.len() + done == all.len(),
            env_views(env@) == all.skip(done),
            env_views(sorted@) == canonical_env(all.take(done)),
        decreases env.len(),
    {
        let ghost left = env_views(env@);
        let ghost held = env@;
        let entry = env.remove(0);
        proof {
            assert(entry == held[0]);
            assert(left[0] == (held[0].0@, held[0].1@));
            assert(left[0] == all.skip(done)[0]);
            assert forall|k: int| 0 <= k < env@.len() implies env_views(env@)[k] == all.skip(
                done + 1,
            )[k] by {
                assert(env@[k] == held[k + 1]);
                assert(left[k + 1] == all.skip(done)[k + 1]);
            }
            assert((entry.0@, entry.1@) == all[done]);
            assert(env_views(env@) =~= all.skip(done + 1));
            assert(all.take(done + 1).drop_last() =~= all.take(done));
            assert(all.take(done + 1).last() == all[done]);
        }
        sorted = insert_variable(sorted, entry);
        proof {
            done = done + 1;
        }
    }
    proof {
        assert(all.take(all.len() as int) =~= all);
    }
    sorted
}

/// Whether two lists of strings hold the same texts in the same order.
pub fn same_strings(a: &Vec<String>, b: &Vec<String>) -> (r: bool)
    ensures
        r == (views(a@) == views(b@)),
{
    if a.len() != b.len() {
        assert(views(a@).len() != views(b@).len());
        return false;
    }
    let mut i: usize = 0;
    while i < a.len()
        invariant
            i <= a.len(),
            a.len() == b.len(),
            forall|j: int| 0 <= j < i ==> a@[j]@ == b@[j]@,
        decreases a.len() - i,
    {
        if a[i] != b[i] {
            assert(views(a@)[i as int] != views(b@)[i as int]);
            return false;
        }
        i += 1;
    }
    assert(views(a@) =~= views(b@));
    true
}

/// Whether two lists of exit codes are the same.
pub fn same_codes(a: &Vec<i32>, b: &Vec<i32>) -> (r: bool)
    ensures
        r == (a@ == b@),
{
    if a.len() != b.len() {
        return false;
    }
    let mut i: usize = 0;
    while i < a.len()
        invariant
            i <= a.len(),
            a.len() == b.len(),
            forall|j: int| 0 <= j < i ==> a@[j] == b@[j],
        decreases a.len() - i,
    {
        if a[i] != b[i] {
            return false;
        }
        i += 1;
    }
    assert(a@ =~= b@);
    true
}

/// Whether two environments set the same variables to the same values in
/// the same order.
pub fn same_env(a: &Vec<(String, String)>, b: &Vec<(String, String)>) -> (r: bool)
    ensures
        r == (env_views(a@) == env_views(b@)),
{
    if a.len() != b.len() {
        assert(env_views(a@).len() != env_views(b@).len());
        return false;
    }
    let mut i: usize = 0;
    while i < a.len()
        invariant
            i <= a.len(),
            a.len() == b.len(),
            forall|j: int| 0 <= j < i ==> a@[j].0@ == b@[j].0@ && a@[j].1@ == b@[j].1@,
        decreases a.len() - i,
    {
        if a[i].0 != b[i].0 || a[i].1 != b[i].1 {
            assert(env_views(a@)[i as int] != env_views(b@)[i as int]);
            return false;
        }
        i += 1;
    }
    assert(env_views(a@) =~= env_views(b@));
    true
}

/// Whether two optional numbers are the same.
pub fn same_id(a: Option<u32>, b: Option<u32>) -> (r: bool)
    ensures
        r == (a == b),
{
    match (a, b) {
        (None, None) => true,
        (Some(x), Some(y)) => x == y,
        _ => false,
    }
}

/// A copy of a list of strings.
pub fn copy_strings(v: &Vec<String>) -> (r: Vec<String>)
    ensures
        views(r@) == views(v@),
{
    let mut out: Vec<String> = Vec::new();
    let mut i: usize = 0;
    while i < v.len()
        invariant
            i <= v.len(),
            out@.len() == i,
            forall|j: int| 0 <= j < i ==> out@[j]@ == v@[j]@,
        decreases v.len() - i,
    {
        out.push(v[i].clone());
        i += 1;
    }
    assert(views(out@) =~= views(v@));
    out
}

/// A copy of a list of exit codes.
pub fn copy_codes(v: &Vec<i32>) -> (r: Vec<i32>)
    ensures
        r@ == v@,
{
    let mut out: Vec<i32> = Vec::new();
    let mut i: usize = 0;
    while i < v.len()
        invariant
            i <= v.len(),
            out@.len() == i,
            forall|j: int| 0 <= j < i ==> out@[j] == v@[j],
        decreases v.len() - i,
    {
        out.push(v[i]);
        i += 1;
    }
    assert(out@ =~= v@);
    out
}

/// A copy of an environment.
pub fn copy_env(v: &Vec<(String, String)>) -> (r: Vec<(String, String)>)
    ensures
        env_views(r@) == env_views(v@),
{
    let mut out: Vec<(String, String)> = Vec::new();
    let mut i: usize = 0;
    while i < v.len()
        invariant
            i <= v.len(),
            out@.len() == i,
            forall|j: int| 0 <= j < i ==> out@[j].0@ == v@[j].0@ && out@[j].1@ == v@[j].1@,
        decreases v.len() - i,
    {
        out.push((v[i].0.clone(), v[i].1.clone()));
        i += 1;
    }
    assert(env_views(out@) =~= env_views(v@));
    out
}

/// What a task is, as a mathematical value.
pub struct TaskView {
    pub cmd: Seq<char>,
    pub args: Seq<Seq<char>>,
    pub autostart: bool,
    pub numprocess: u32,
    pub umask: u32,
    pub workingdir: Seq<char>,
    pub stopsignal: StopSignal,
    pub stopdelay: u32,
    pub stdout: Seq<char>,
    pub stderr: Seq<char>,
    pub retry: u32,
    pub successdelay: u32,
    pub exitcodes: Seq<i32>,
    pub restart: Relaunch,
    pub env: Seq<(Seq<char>, Seq<char>)>,
    pub uid: Option<Uid>,
    pub gid: Option<Gid>,
}

/// A task as a configuration states it, every setting filled in.
#[derive(Debug)]
pub struct TaskPartial {
    pub cmd: String,
    pub autostart: bool,
    pub numprocess: u32,
    pub umask: u32,
    pub workingdir: String,
    pub stopsignal: StopSignal,
    pub stopdelay: u32,
    pub stdout: String,
    pub stderr: String,
    pub retry: u32,
    pub successdelay: u32,
    pub exitcodes: Vec<i32>,
    pub restart: Relaunch,
    pub env: Vec<(String, String)>,
    pub uid: Option<Uid>,
    pub gid: Option<Gid>,
}

impl View for TaskPartial {
    type V = TaskView;

    /// The task that the configuration describes: its argument list is the
    /// command split at each space, and its environment is the map that
    /// the list of variables stands for.
    open spec fn view(&self) -> TaskView {
        TaskView {
            cmd: self.cmd@,
            args: split(self.cmd@, ' '),
            autostart: self.autostart,
            numprocess: self.numprocess,
            umask: self.umask,
            workingdir: self.workingdir@,
            stopsignal: self.stopsignal,
            stopdelay: self.stopdelay,
            stdout: self.stdout@,
            stderr: self.stderr@,
            retry: self.retry,
            successdelay: self.successdelay,
            exitcodes: self.exitcodes@,
            restart: self.restart,
            env: canonical_env(env_views(self.env@)),
            uid: self.uid,
            gid: self.gid,
        }
    }
}

impl TaskPartial {
    /// The configuration that runs `cmd` with every other setting at its
    /// default.
    pub fn new(cmd: String) -> (r: TaskPartial)
        ensures
            r.cmd == cmd,
            r.autostart == false,
            r.numprocess == 1,
            r.umask == 0,
            r.workingdir@ == "."@,
            r.stopsignal.number == crate::signal::SIGTERM,
            r.stopdelay == 2,
            r.stdout@ == "/dev/null"@,
            r.stderr@ == "/dev/null"@,
            r.retry == 0,
            r.successdelay == 0,
            r.exitcodes@ == seq![0i32],
            r.restart == Relaunch::Never,
            r.env@.len() == 0,
            r.uid.is_none(),
            r.gid.is_none(),
    {
        TaskPartial {
            cmd,
            autostart: crate::default::autostart(),
            numprocess: crate::default::numprocess(),
            umask: crate::default::umask(),
            workingdir: crate::default::workdir(),
            stopsignal: crate::default::stop_signal(),
            stopdelay: crate::default::stop_delay(),
            stdout: crate::default::stdout(),
            stderr: crate::default::stderr(),
            retry: crate::default::retry(),
            successdelay: crate::default::success_delay(),
            exitcodes: crate::default::exit_codes(),
            restart: crate::default::relaunch_mode(),
            env: crate::default::env(),
            uid: None,
            gid: None,
        }
    }

    /// The configuration that describes `task`.
    pub fn from(task: Task) -> (r: TaskPartial)
        ensures
            r@ == task@,
    {
        proof {
            use_type_invariant(&task);
            lemma_canonical_of_ordered(task@.env);
        }
        TaskPartial {
            cmd: task.cmd,
            autostart: task.autostart,
            numprocess: task.numprocess,
            umask: task.umask,
            workingdir: task.workingdir,
            stopsignal: task.stopsignal,
            stopdelay: task.stopdelay,
            stdout: task.stdout,
            stderr: task.stderr,
            retry: task.retry,
            successdelay: task.successdelay,
            exitcodes: task.exitcodes,
            restart: task.restart,
            env: task.env,
            uid: task.uid,
            gid: task.gid,
        }
    }
}

/// One managed job.
#[derive(Debug)]
pub struct Task {
    cmd: String,
    args: Vec<String>,
    autostart: bool,
    numprocess: u32,
    umask: u32,
    workingdir: String,
    stopsignal: StopSignal,
    stopdelay: u32,
    stdout: String,
    stderr: String,
    retry: u32,
    successdelay: u32,
    exitcodes: Vec<i32>,
    restart: Relaunch,
    env: Vec<(String, String)>,
    uid: Option<Uid>,
    gid: Option<Gid>,
}

impl View for Task {
    type V = TaskView;

    closed spec fn view(&self) -> TaskView {
        TaskView {
            cmd: self.cmd@,
            args: views(self.args@),
            autostart: self.autostart,
            numprocess: self.numprocess,
            umask: self.umask,
            workingdir: self.workingdir@,
            stopsignal: self.stopsignal,
            stopdelay: self.stopdelay,
            stdout: self.stdout@,
            stderr: self.stderr@,
            retry: self.retry,
            successdelay: self.successdelay,
            exitcodes: self.exitcodes@,
            restart: self.restart,
            env: env_views(self.env@),
            uid: self.uid,
            gid: self.gid,
        }
    }
}

/// What the supervisor needs to launch one child: the program and its
/// arguments, where its output goes, and the process settings to apply
/// before it runs.
#[derive(Debug)]
pub struct Command {
    pub program: String,
    pub args: Vec<String>,
    pub workingdir: String,
    pub stdout: String,
    pub stderr: String,
    pub env: Vec<(String, String)>,
    pub uid: Option<u32>,
    pub gid: Option<u32>,
    /// The mask to set in the child, `None` to leave the inherited one.
    pub umask: Option<u32>,
}

/// The name of the file that the template `format` stands for, for the
/// child numbered `id` spawned at `timestamp` seconds after the epoch:
/// `{.Id}` gives way to `id`, then `{.Time}` to `timestamp`.
pub open spec fn spec_format_filename(format: Seq<char>, id: u32, timestamp: u64) -> Seq<char> {
    replace(replace(format, "{.Id}"@, decimal(id as nat)), "{.Time}"@, decimal(timestamp as nat))
}

pub fn format_filename(format: &str, id: u32, timestamp: u64) -> (r: String)
    ensures
        r@ == spec_format_filename(format@, id, timestamp),
{
    let id_text = to_decimal(id as u64);
    let replaced_id = replace_all(format, "{.Id}", id_text.as_str());
    let time_text = to_decimal(timestamp);
    replace_all(replaced_id.as_str(), "{.Time}", time_text.as_str())
}

/// The template that numbers its files between the texts `before` and
/// `after`.
pub open spec fn numbered_template(before: Seq<char>, after: Seq<char>) -> Seq<char> {
    before + "{.Id}"@ + after
}

/// A template with one `{.Id}` and no other brace stands for the text
/// around the child's number.
pub proof fn lemma_numbered_name(before: Seq<char>, after: Seq<char>, id: u32, timestamp: u64)
    requires
        !before.contains('{'),
        !after.contains('{'),
    ensures
        spec_format_filename(numbered_template(before, after), id, timestamp) == before + decimal(
            id as nat,
        ) + after,
{
    reveal_strlit("{.Id}");
    reveal_strlit("{.Time}");
    let id_mark = "{.Id}"@;
    let time_mark = "{.Time}"@;
    let digits = decimal(id as nat);
    let template = numbered_template(before, after);
    assert(id_mark[0] == '{' && time_mark[0] == '{');
    assert(template =~= before + (id_mark + after));
    crate::text::lemma_replace_behind(before, id_mark + after, id_mark, digits);
    let marked = id_mark + after;
    assert(marked.subrange(0, id_mark.len() as int) =~= id_mark);
    assert(marked.subrange(id_mark.len() as int, marked.len() as int) =~= after);
    crate::text::lemma_replace_absent(after, id_mark, digits);
    assert(replace(marked, id_mark, digits) == digits + after);
    let numbered = before + digits + after;
    assert(replace(template, id_mark, digits) =~= numbered);
    crate::text::lemma_decimal_digits(id as nat, '{');
    if numbered.contains('{') {
        let k = choose|k: int| 0 <= k < numbered.len() && numbered[k] == '{';
        if k < before.len() {
            assert(before[k] == '{');
        } else if k < before.len() + digits.len() {
            assert(digits[k - before.len()] == '{');
        } else {
            assert(after[k - before.len() - digits.len()] == '{');
        }
    }
    crate::text::lemma_replace_absent(numbered, time_mark, decimal(timestamp as nat));
}

/// Under a template with one `{.Id}` and no other brace, two children with
/// different numbers write to different files.
pub proof fn lemma_numbered_names_differ(
    before: Seq<char>,
    after: Seq<char>,
    a: u32,
    b: u32,
    at: u64,
    later: u64,
)
    requires
        !before.contains('{'),
        !after.contains('{'),
        a != b,
    ensures
        spec_format_filename(numbered_template(before, after), a, at) != spec_format_filename(
            numbered_template(before, after),
            b,
            later,
        ),
{
    lemma_numbered_name(before, after, a, at);
    lemma_numbered_name(before, after, b, later);
    let one = before + decimal(a as nat) + after;
    let other = before + decimal(b as nat) + after;
    if one == other {
        assert(one.len() == before.len() + decimal(a as nat).len() + after.len());
        assert(other.len() == before.len() + decimal(b as nat).len() + after.len());
        assert(decimal(a as nat).len() == decimal(b as nat).len());
        assert(one.subrange(before.len() as int, (before.len() + decimal(a as nat).len()) as int) =~= decimal(
            a as nat,
        ));
        assert(other.subrange(before.len() as int, (before.len() + decimal(b as nat).len()) as int)
            =~= decimal(b as nat));
        crate::text::lemma_decimal_injective(a as nat, b as nat);
    }
}

/// A numeral shares no character with the placeholder for the time.
pub proof fn lemma_numeral_apart(n: nat)
    ensures
        decimal(n).len() > 0,
        forall|i: int| 0 <= i < decimal(n).len() ==> !"{.Time}"@.contains(#[trigger] decimal(n)[i]),
{
    reveal_strlit("{.Time}");
    let mark = "{.Time}"@;
    let digits = decimal(n);
    crate::text::lemma_decimal_len(n);
    crate::text::lemma_decimal_digits(n, '{');
    crate::text::lemma_decimal_digits(n, '.');
    crate::text::lemma_decimal_digits(n, 'T');
    crate::text::lemma_decimal_digits(n, 'i');
    crate::text::lemma_decimal_digits(n, 'm');
    crate::text::lemma_decimal_digits(n, 'e');
    crate::text::lemma_decimal_digits(n, '}');
    assert forall|i: int| 0 <= i < digits.len() implies !mark.contains(#[trigger] digits[i]) by {
        if mark.contains(digits[i]) {
            let k = choose|k: int| 0 <= k < mark.len() && mark[k] == digits[i];
            assert(digits.contains(mark[k]));
        }
    }
}

/// The file name is the template's pieces around `{.Id}`, each with the
/// time filled in, set in a row with the child's number between them.
pub proof fn lemma_name_in_pieces(format: Seq<char>, id: u32, timestamp: u64)
    ensures
        spec_format_filename(format, id, timestamp) == filled(
            each_replaced(pieces(format, "{.Id}"@), "{.Time}"@, decimal(timestamp as nat)),
            decimal(id as nat),
        ),
{
    reveal_strlit("{.Time}");
    let parts = pieces(format, "{.Id}"@);
    let digits = decimal(id as nat);
    crate::text::lemma_replace_fills(format, "{.Id}"@, digits);
    lemma_numeral_apart(id as nat);
    crate::text::lemma_replace_in_filled(parts, digits, "{.Time}"@, decimal(timestamp as nat));
}

/// Under a template that holds `{.Id}`, two children with different
/// numbers that are spawned at one time write to different files.
pub proof fn lemma_names_differ(format: Seq<char>, at: int, a: u32, b: u32, timestamp: u64)
    requires
        crate::text::occurs_at(format, "{.Id}"@, at),
        a != b,
    ensures
        spec_format_filename(format, a, timestamp) != spec_format_filename(format, b, timestamp),
{
    reveal_strlit("{.Id}");
    let parts = each_replaced(pieces(format, "{.Id}"@), "{.Time}"@, decimal(timestamp as nat));
    crate::text::lemma_pieces_of_occurrence(format, "{.Id}"@, at);
    lemma_name_in_pieces(format, a, timestamp);
    lemma_name_in_pieces(format, b, timestamp);
    if filled(parts, decimal(a as nat)) == filled(parts, decimal(b as nat)) {
        crate::text::lemma_filled_injective(parts, decimal(a as nat), decimal(b as nat));
        crate::text::lemma_decimal_injective(a as nat, b as nat);
    }
}

/// The number of an optional user.
pub open spec fn raw_uid(uid: Option<Uid>) -> Option<u32> {
    match uid {
        Some(known) => Some(known.raw),
        None => None,
    }
}

/// The number of an optional group.
pub open spec fn raw_gid(gid: Option<Gid>) -> Option<u32> {
    match gid {
        Some(known) => Some(known.raw),
        None => None,
    }
}

/// The command that launches the child numbered `id` of `task` at
/// `timestamp`.
pub open spec fn spec_command(task: TaskView, id: u32, timestamp: u64, c: Command) -> bool {
    &&& c.program@ == task.args[0]
    &&& views(c.args@) == task.args.skip(1)
    &&& c.workingdir@ == task.workingdir
    &&& c.stdout@ == spec_format_filename(task.stdout, id, timestamp)
    &&& c.stderr@ == spec_format_filename(task.stderr, id, timestamp)
    &&& env_views(c.env@) == task.env
    &&& c.uid == raw_uid(task.uid)
    &&& c.gid == raw_gid(task.gid)
    &&& c.umask == (if task.umask != 0 {
        Some(task.umask)
    } else {
        None
    })
}

/// Whether an exit with `status` is a failure by the exit code alone: a
/// signal ended the child, so that it returned no code, or the code is none
/// of the expected ones.
pub open spec fn spec_check_exit_status(codes: Seq<i32>, status: Option<i32>) -> bool {
    match status {
        Some(exitcode) => !codes.contains(exitcode),
        None => true,
    }
}

/// How a yes or no is written.
pub open spec fn bool_text(b: bool) -> Seq<char> {
    if b {
        "true"@
    } else {
        "false"@
    }
}

/// How a file-mode mask is written: in octal after `0o`, with three digits
/// at least.
pub open spec fn mode_text(mode: u32) -> Seq<char> {
    "0o"@ + zero_padded(octal(mode as nat), 3)
}

/// The exit codes in decimal, a comma and a space between each two.
pub open spec fn codes_list(codes: Seq<i32>) -> Seq<char>
    decreases codes.len(),
{
    if codes.len() == 0 {
        Seq::empty()
    } else if codes.len() == 1 {
        signed_decimal(codes[0] as int)
    } else {
        codes_list(codes.drop_last()) + ", "@ + signed_decimal(codes.last() as int)
    }
}

/// How a list of exit codes is written: in square brackets.
pub open spec fn codes_text(codes: Seq<i32>) -> Seq<char> {
    "["@ + codes_list(codes) + "]"@
}

/// How one variable of an environment is written: name and value as
/// quoted texts, a colon between them.
pub open spec fn env_entry(entry: (Seq<char>, Seq<char>)) -> Seq<char> {
    rust_debug(entry.0) + ": "@ + rust_debug(entry.1)
}

/// The variables of an environment, a comma and a space between each two.
pub open spec fn env_list(env: Seq<(Seq<char>, Seq<char>)>) -> Seq<char>
    decreases env.len(),
{
    if env.len() == 0 {
        Seq::empty()
    } else if env.len() == 1 {
        env_entry(env[0])
    } else {
        env_list(env.drop_last()) + ", "@ + env_entry(env.last())
    }
}

/// How an environment is written: in braces.
pub open spec fn env_text(env: Seq<(Seq<char>, Seq<char>)>) -> Seq<char> {
    "{"@ + env_list(env) + "}"@
}

/// How an optional user is written.
pub open spec fn uid_text(uid: Option<Uid>) -> Seq<char> {
    match uid {
        Some(known) => "Some(Uid("@ + decimal(known.raw as nat) + "))"@,
        None => "None"@,
    }
}

/// How an optional group is written.
pub open spec fn gid_text(gid: Option<Gid>) -> Seq<char> {
    match gid {
        Some(known) => "Some(Gid("@ + decimal(known.raw as nat) + "))"@,
        None => "None"@,
    }
}

/// How a stop signal is written: by its full name, and by its number
/// where the platform has no name for it.
pub open spec fn signal_text(signal: StopSignal) -> Seq<char> {
    match nix_signal_name(signal.number) {
        Some(name) => name,
        None => signed_decimal(signal.number as int),
    }
}

/// The settings of a task written out for a person, one to a line.
pub open spec fn task_text(task: TaskView) -> Seq<char> {
    "Command: "@ + task.cmd + "\nNumber of processes: "@ + decimal(task.numprocess as nat)
        + "\nAutostart: "@ + bool_text(task.autostart) + "\nUmask: "@ + mode_text(task.umask)
        + "\nWorking Directory: "@ + rust_debug(task.workingdir) + "\nStdout: "@ + rust_debug(
        task.stdout,
    ) + "\nStderr: "@ + rust_debug(task.stderr) + "\nStop signal: "@ + signal_text(task.stopsignal)
        + "\nStop delay: "@ + decimal(task.stopdelay as nat) + "\nretry: "@ + decimal(
        task.retry as nat,
    ) + "\nSuccess Delay: "@ + decimal(task.successdelay as nat) + "\nExit Codes: "@ + codes_text(
        task.exitcodes,
    ) + "\nRestart: "@ + task.restart.spec_name() + "\nEnv: "@ + env_text(task.env)
        + "\nPermission: uid: "@ + uid_text(task.uid) + ", gid: "@ + gid_text(task.gid)
}

/// Writes a file-mode mask.
pub fn mode_to_text(mode: u32) -> (r: String)
    ensures
        r@ == mode_text(mode),
{
    let digits = pad_zeros(to_octal(mode as u64), 3);
    String::from_str("0o").concat(digits.as_str())
}

/// Writes a list of exit codes.
pub fn codes_to_text(codes: &Vec<i32>) -> (r: String)
    ensures
        r@ == codes_text(codes@),
{
    let mut list = String::new();
    let mut i: usize = 0;
    proof {
        assert(codes@.take(0) =~= Seq::<i32>::empty());
        assert(list@ =~= codes_list(codes@.take(0)));
    }
    while i < codes.len()
        invariant
            i <= codes.len(),
            list@ == codes_list(codes@.take(i as int)),
        decreases codes.len() - i,
    {
        proof {
            let upto = codes@.take(i + 1);
            assert(upto.drop_last() =~= codes@.take(i as int));
            assert(upto.last() == codes@[i as int]);
            if i == 0 {
                assert(list@ + signed_decimal(codes@[0] as int) =~= signed_decimal(upto[0] as int));
            }
        }
        if i > 0 {
            list.append(", ");
        }
        let code = to_signed_decimal(codes[i]);
        list.append(code.as_str());
        i += 1;
    }
    assert(codes@.take(codes.len() as int) =~= codes@);
    String::from_str("[").concat(list.as_str()).concat("]")
}

/// Writes an environment.
pub fn env_to_text(env: &Vec<(String, String)>) -> (r: String)
    ensures
        r@ == env_text(env_views(env@)),
{
    let mut list = String::new();
    let mut i: usize = 0;
    let ghost all = env_views(env@);
    proof {
        assert(all.take(0) =~= Seq::<(Seq<char>, Seq<char>)>::empty());
        assert(list@ =~= env_list(all.take(0)));
    }
    while i < env.len()
        invariant
            i <= env.len(),
            all == env_views(env@),
            list@ == env_list(all.take(i as int)),
        decreases env.len() - i,
    {
        let name = debug_text(env[i].0.as_str());
        let value = debug_text(env[i].1.as_str());
        let entry = name.concat(": ").concat(value.as_str());
        proof {
            let upto = all.take(i + 1);
            assert(upto.drop_last() =~= all.take(i as int));
            assert(upto.last() == all[i as int]);
            assert(entry@ == env_entry(all[i as int]));
            if i == 0 {
                assert(list@ + entry@ =~= env_entry(upto[0]));
            }
        }
        if i > 0 {
            list.append(", ");
        }
        list.append(entry.as_str());
        i += 1;
    }
    assert(all.take(env.len() as int) =~= all);
    String::from_str("{").concat(list.as_str()).concat("}")
}

/// Writes an optional user.
pub fn uid_to_text(uid: Option<Uid>) -> (r: String)
    ensures
        r@ == uid_text(uid),
{
    match uid {
        Some(known) => String::from_str("Some(Uid(").concat(to_decimal(known.raw as u64).as_str()).concat(
            "))",
        ),
        None => String::from_str("None"),
    }
}

/// Writes an optional group.
pub fn gid_to_text(gid: Option<Gid>) -> (r: String)
    ensures
        r@ == gid_text(gid),
{
    match gid {
        Some(known) => String::from_str("Some(Gid(").concat(to_decimal(known.raw as u64).as_str()).concat(
            "))",
        ),
        None => String::from_str("None"),
    }
}

/// Writes a stop signal.
pub fn signal_to_text(signal: StopSignal) -> (r: String)
    ensures
        r@ == signal_text(signal),
{
    match SerdeSignal::serialize(&signal) {
        Some(name) => name,
        None => to_signed_decimal(signal.number),
    }
}

impl TaskView {
    /// A task's arguments are its command split at each space, and the
    /// names of its environment rise, so that none occurs twice.
    pub open spec fn wf(self) -> bool {
        &&& self.args == split(self.cmd, ' ')
        &&& env_ordered(self.env)
    }
}

impl Task {
    /// Whether the task's arguments are its command split at each space,
    /// which holds of every task that a program has in hand.
    #[verifier::type_invariant]
    pub open spec fn wf(&self) -> bool {
        self@.wf()
    }

    /// The task that a configuration describes.
    pub fn from(partial: TaskPartial) -> (task: Task)
        ensures
            task.wf(),
            task@ == partial@,
    {
        let args = split_on(partial.cmd.as_str(), ' ');
        proof {
            lemma_canonical_ordered(env_views(partial.env@));
        }
        Task {
            cmd: partial.cmd,
            args,
            autostart: partial.autostart,
            numprocess: partial.numprocess,
            umask: partial.umask,
            workingdir: partial.workingdir,
            stopsignal: partial.stopsignal,
            stopdelay: partial.stopdelay,
            stdout: partial.stdout,
            stderr: partial.stderr,
            retry: partial.retry,
            successdelay: partial.successdelay,
            exitcodes: partial.exitcodes,
            restart: partial.restart,
            env: sort_env(partial.env),
            uid: partial.uid,
            gid: partial.gid,
        }
    }

    /// A well-formed task has at least one argument.
    pub proof fn lemma_args(&self)
        requires
            self.wf(),
        ensures
            self@.args.len() >= 1,
    {
        crate::text::lemma_split_nonempty(self.cmd@, ' ');
    }

    /// A copy of the task.
    pub fn duplicate(&self) -> (r: Task)
        ensures
            r@ == self@,
            r.wf(),
    {
        proof {
            use_type_invariant(self);
        }
        Task {
            cmd: self.cmd.clone(),
            args: copy_strings(&self.args),
            autostart: self.autostart,
            numprocess: self.numprocess,
            umask: self.umask,
            workingdir: self.workingdir.clone(),
            stopsignal: self.stopsignal,
            stopdelay: self.stopdelay,
            stdout: self.stdout.clone(),
            stderr: self.stderr.clone(),
            retry: self.retry,
            successdelay: self.successdelay,
            exitcodes: copy_codes(&self.exitcodes),
            restart: self.restart,
            env: copy_env(&self.env),
            uid: self.uid,
            gid: self.gid,
        }
    }

    /// Writes the task's settings out for a person.
    pub fn to_string(&self) -> (r: String)
        ensures
            r@ == task_text(self@),
    {
        let mut out = String::from_str("Command: ");
        out.append(self.cmd.as_str());
        out.append("\nNumber of processes: ");
        out.append(to_decimal(self.numprocess as u64).as_str());
        out.append("\nAutostart: ");
        out.append(if self.autostart {
            "true"
        } else {
            "false"
        });
        out.append("\nUmask: ");
        out.append(mode_to_text(self.umask).as_str());
        out.append("\nWorking Directory: ");
        out.append(debug_text(self.workingdir.as_str()).as_str());
        out.append("\nStdout: ");
        out.append(debug_text(self.stdout.as_str()).as_str());
        out.append("\nStderr: ");
        out.append(debug_text(self.stderr.as_str()).as_str());
        out.append("\nStop signal: ");
        out.append(signal_to_text(self.stopsignal).as_str());
        out.append("\nStop delay: ");
        out.append(to_decimal(self.stopdelay as u64).as_str());
        out.append("\nretry: ");
        out.append(to_decimal(self.retry as u64).as_str());
        out.append("\nSuccess Delay: ");
        out.append(to_decimal(self.successdelay as u64).as_str());
        out.append("\nExit Codes: ");
        out.append(codes_to_text(&self.exitcodes).as_str());
        out.append("\nRestart: ");
        out.append(self.restart.name());
        out.append("\nEnv: ");
        out.append(env_to_text(&self.env).as_str());
        out.append("\nPermission: uid: ");
        out.append(uid_to_text(self.uid).as_str());
        out.append(", gid: ");
        out.append(gid_to_text(self.gid).as_str());
        out
    }

    /// Whether two tasks agree in every setting.
    pub fn same(&self, other: &Task) -> (r: bool)
        ensures
            r == (self@ == other@),
    {
        self.cmd == other.cmd && same_strings(&self.args, &other.args) && self.autostart
            == other.autostart && self.numprocess == other.numprocess && self.umask == other.umask
            && self.workingdir == other.workingdir && self.stopsignal == other.stopsignal
            && self.stopdelay == other.stopdelay && self.stdout == other.stdout && self.stderr
            == other.stderr && self.retry == other.retry && self.successdelay == other.successdelay
            && same_codes(&self.exitcodes, &other.exitcodes) && self.restart == other.restart
            && same_env(&self.env, &other.env) && same_id(
            SerdeOptionnalUidGid::<Uid>::serialize(&self.uid),
            SerdeOptionnalUidGid::<Uid>::serialize(&other.uid),
        ) && same_id(
            SerdeOptionnalUidGid::<Gid>::serialize(&self.gid),
            SerdeOptionnalUidGid::<Gid>::serialize(&other.gid),
        )
    }

    pub fn cmd(&self) -> (r: &String)
        ensures
            r@ == self@.cmd,
    {
        &self.cmd
    }

    pub fn args(&self) -> (r: &Vec<String>)
        ensures
            views(r@) == self@.args,
    {
        &self.args
    }

    pub fn autostart(&self) -> (r: bool)
        ensures
            r == self@.autostart,
    {
        self.autostart
    }

    pub fn numprocess(&self) -> (r: u32)
        ensures
            r == self@.numprocess,
    {
        self.numprocess
    }

    pub fn umask(&self) -> (r: u32)
        ensures
            r == self@.umask,
    {
        self.umask
    }

    pub fn workingdir(&self) -> (r: &String)
        ensures
            r@ == self@.workingdir,
    {
        &self.workingdir
    }

    pub fn stopsignal(&self) -> (r: StopSignal)
        ensures
            r == self@.stopsignal,
    {
        self.stopsignal
    }

    pub fn stopdelay(&self) -> (r: u32)
        ensures
            r == self@.stopdelay,
    {
        self.stopdelay
    }

    pub fn stdout(&self) -> (r: &String)
        ensures
            r@ == self@.stdout,
    {
        &self.stdout
    }

    pub fn stderr(&self) -> (r: &String)
        ensures
            r@ == self@.stderr,
    {
        &self.stderr
    }

    pub fn retry(&self) -> (r: u32)
        ensures
            r == self@.retry,
    {
        self.retry
    }

    pub fn successdelay(&self) -> (r: u32)
        ensures
            r == self@.successdelay,
    {
        self.successdelay
    }

    pub fn exitcodes(&self) -> (r: &Vec<i32>)
        ensures
            r@ == self@.exitcodes,
    {
        &self.exitcodes
    }

    pub fn restart(&self) -> (r: Relaunch)
        ensures
            r == self@.restart,
    {
        self.restart
    }

    pub fn env(&self) -> (r: &Vec<(String, String)>)
        ensures
            env_views(r@) == self@.env,
    {
        &self.env
    }

    pub fn uid(&self) -> (r: Option<Uid>)
        ensures
            r == self@.uid,
    {
        self.uid
    }

    pub fn gid(&self) -> (r: Option<Gid>)
        ensures
            r == self@.gid,
    {
        self.gid
    }

    /// Whether `code` is one of the exit codes that the task expects.
    pub fn expects_exit_code(&self, code: i32) -> (r: bool)
        ensures
            r == self@.exitcodes.contains(code),
    {
        let mut i: usize = 0;
        while i < self.exitcodes.len()
            invariant
                i <= self.exitcodes.len(),
                forall|j: int| 0 <= j < i ==> self.exitcodes@[j] != code,
            decreases self.exitcodes.len() - i,
        {
            if self.exitcodes[i] == code {
                return true;
            }
            i += 1;
        }
        false
    }

    /// Whether an exit with `status` is a failure by the exit code alone:
    /// the child returned no code, or one that the task does not expect.
    pub fn check_exit_status(&self, status: Option<i32>) -> (r: bool)
        ensures
            r == spec_check_exit_status(self@.exitcodes, status),
    {
        match status {
            None => true,
            Some(exitcode) => !self.expects_exit_code(exitcode),
        }
    }

    /// Describes the launch of the child numbered `id` at `timestamp`
    /// seconds after the epoch.
    pub fn get_command(&self, id: u32, timestamp: u64) -> (c: Command)
        ensures
            spec_command(self@, id, timestamp, c),
    {
        proof {
            use_type_invariant(self);
            self.lemma_args();
        }
        let mut rest: Vec<String> = Vec::new();
        let mut i: usize = 1;
        while i < self.args.len()
            invariant
                1 <= i <= self.args.len(),
                rest@.len() == i - 1,
                forall|j: int| 0 <= j < i - 1 ==> rest@[j]@ == self.args@[j + 1]@,
            decreases self.args.len() - i,
        {
            rest.push(self.args[i].clone());
            i += 1;
        }
        assert(views(rest@) =~= views(self.args@).skip(1));
        Command {
            program: self.args[0].clone(),
            args: rest,
            workingdir: self.workingdir.clone(),
            stdout: format_filename(self.stdout.as_str(), id, timestamp),
            stderr: format_filename(self.stderr.as_str(), id, timestamp),
            env: copy_env(&self.env),
            uid: SerdeOptionnalUidGid::<Uid>::serialize(&self.uid),
            gid: SerdeOptionnalUidGid::<Gid>::serialize(&self.gid),
            umask: if self.umask != crate::default::umask() {
                Some(self.umask)
            } else {
                None
            },
        }
    }
}

impl PartialEq for Task {
    fn eq(&self, other: &Task) -> (r: bool) {
        self.same(other)
    }
}

impl vstd::std_specs::cmp::PartialEqSpecImpl for Task {
    open spec fn obeys_eq_spec() -> bool {
        true
    }

    open spec fn eq_spec(&self, other: &Task) -> bool {
        self@ == other@
    }
}

/// Seconds since the Unix epoch on the system clock, zero where the clock
/// stands before the epoch. Calls `SystemTime::now`, of whose result nothing
/// is claimed.
#[verifier::external_body]
pub fn get_current_timestamp() -> (r: u64) {
    match std::time::SystemTime::now().duration_since(std::time::UNIX_EPOCH) {
        Ok(elapsed) => elapsed.as_secs(),
        Err(_) => 0,
    }
}

} // verus!
