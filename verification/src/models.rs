//! The rows the store holds: users, tasks, and external-task links, together
//! with the Haskell-newtype text encoding that external identifiers use at
//! the boundary.
//!
//! Instants (`scheduled_for`, `done_at`) are naive UTC wall-clock times in
//! whole seconds since the epoch; no zone is stored per task.  A task is
//! open exactly while `done_at` is absent.

use vstd::prelude::*;
use vstd::string::{StrSliceExecFns, StringExecFns};

use crate::time::valid_instant;

verus! {

/// The recurrence tag of a task.  It is inert metadata: nothing in this core
/// derives a next occurrence from it, it is only parsed, stored and shown.
#[derive(Clone, Copy, Debug, PartialEq, Eq, Structural)]
pub enum Schedule {
    Once,
    Daily,
    Weekly,
    Fortnightly,
}

/// The display name of a schedule tag.
pub open spec fn spec_schedule_label(s: Schedule) -> Seq<char> {
    match s {
        Schedule::Once => "Once"@,
        Schedule::Daily => "Daily"@,
        Schedule::Weekly => "Weekly"@,
        Schedule::Fortnightly => "Fortnightly"@,
    }
}

/// Compares two string slices by their character sequences.
pub fn str_eq(a: &str, b: &str) -> (r: bool)
    ensures
        r == (a@ == b@),
{
    let sa = String::from_str(a);
    let sb = String::from_str(b);
    sa.eq(&sb)
}

impl Schedule {
    /// The tag's display name.
    pub fn label(&self) -> (r: String)
        ensures
            r@ == spec_schedule_label(*self),
    {
        match self {
            Schedule::Once => String::from_str("Once"),
            Schedule::Daily => String::from_str("Daily"),
            Schedule::Weekly => String::from_str("Weekly"),
            Schedule::Fortnightly => String::from_str("Fortnightly"),
        }
    }

    /// Parses a display name back to its tag; every other string is refused.
    pub fn parse(text: &str) -> (r: Option<Schedule>)
        ensures
            match r {
                Some(s) => text@ == spec_schedule_label(s),
                None => forall|s: Schedule| text@ != spec_schedule_label(s),
            },
    {
        if str_eq(text, "Once") {
            Some(Schedule::Once)
        } else if str_eq(text, "Daily") {
            Some(Schedule::Daily)
        } else if str_eq(text, "Weekly") {
            Some(Schedule::Weekly)
        } else if str_eq(text, "Fortnightly") {
            Some(Schedule::Fortnightly)
        } else {
            None
        }
    }
}

/// A task owned by a user.  `order` is the user-managed explicit sort key of
/// the Today view; `ext_task_id` links to the external-task row mirrored
/// from an outside system, when there is one.
pub struct Task {
    pub id: i32,
    pub user_id: i64,
    pub title: String,
    pub pomos: i64,
    pub scheduled_for: i64,
    pub done_at: Option<i64>,
    pub active: bool,
    pub order: i64,
    pub schedule: Schedule,
    pub ext_task_id: Option<i64>,
}

/// The display rendering of an instant: date and 12-hour time, UTC.
pub uninterp spec fn approx_datetime_of(t: int) -> Seq<char>;

/// Relies on chrono's datetime formatting (`%Y-%m-%d %-I%P UTC`): the
/// approximate display form of an instant, a function of the instant alone.
#[verifier::external_body]
fn format_approx_datetime(t: i64) -> (r: String)
    requires
        valid_instant(t as int),
    ensures
        r@ == approx_datetime_of(t as int),
{
    let dt = chrono::DateTime::from_timestamp(t, 0).unwrap().naive_utc();
    dt.format("%Y-%m-%d %-I%P UTC").to_string()
}

/// The display line of a task: its recurrence tag unless it is the plain
/// one, an external mark when the task mirrors an outside row, the title,
/// and the approximate instants it is scheduled for and was completed at.
pub open spec fn spec_task_describe(t: Task) -> Seq<char> {
    let sched = if t.schedule == Schedule::Once {
        Seq::<char>::empty()
    } else {
        " ("@ + spec_schedule_label(t.schedule) + ")"@
    };
    let is_ext = if t.ext_task_id is Some {
        " (ext)"@
    } else {
        Seq::<char>::empty()
    };
    let done = match t.done_at {
        Some(d) => ", done at "@ + approx_datetime_of(d as int),
        None => Seq::<char>::empty(),
    };
    "Task"@ + sched + is_ext + " \""@ + t.title@ + "\" scheduled for "@ + approx_datetime_of(
        t.scheduled_for as int,
    ) + done
}

impl Task {
    /// Both instants lie in the range a calendar datetime can denote.
    pub open spec fn wf(&self) -> bool {
        &&& valid_instant(self.scheduled_for as int)
        &&& match self.done_at {
            Some(d) => valid_instant(d as int),
            None => true,
        }
    }

    /// Open: not yet completed.
    pub open spec fn is_open(&self) -> bool {
        self.done_at is None
    }

    /// The task's display line.
    pub fn describe(&self) -> (r: String)
        requires
            self.wf(),
        ensures
            r@ == spec_task_describe(*self),
    {
        let mut out = String::from_str("Task");
        match self.schedule {
            Schedule::Once => {},
            _ => {
                out.append(" (");
                out.append(self.schedule.label().as_str());
                out.append(")");
            },
        }
        if self.ext_task_id.is_some() {
            out.append(" (ext)");
        }
        out.append(" \"");
        out.append(self.title.as_str());
        out.append("\" scheduled for ");
        out.append(format_approx_datetime(self.scheduled_for).as_str());
        match self.done_at {
            Some(d) => {
                out.append(", done at ");
                out.append(format_approx_datetime(d).as_str());
            },
            None => {},
        }
        out
    }
}

impl Clone for Task {
    fn clone(&self) -> (r: Self)
        ensures
            r == *self,
    {
        Task {
            id: self.id,
            user_id: self.user_id,
            title: self.title.clone(),
            pomos: self.pomos,
            scheduled_for: self.scheduled_for,
            done_at: self.done_at,
            active: self.active,
            order: self.order,
            schedule: self.schedule,
            ext_task_id: self.ext_task_id,
        }
    }
}

/// The local half of a mirrored external task.  `ext_id` and
/// `ext_source_name` carry the outside system's identifiers as opaque text,
/// in the Haskell-newtype encoding.
pub struct ExtTask {
    pub id: i64,
    pub user_id: i64,
    pub ext_id: String,
    pub ext_source_name: String,
    pub ext_url: Option<String>,
    pub ext_status: Option<String>,
}

impl Clone for ExtTask {
    fn clone(&self) -> (r: Self)
        ensures
            r == *self,
    {
        ExtTask {
            id: self.id,
            user_id: self.user_id,
            ext_id: self.ext_id.clone(),
            ext_source_name: self.ext_source_name.clone(),
            ext_url: clone_opt_string(&self.ext_url),
            ext_status: clone_opt_string(&self.ext_status),
        }
    }
}

/// The display line of an external task: the decoded source name and the
/// decoded external identifier.
pub open spec fn spec_ext_task_describe(e: ExtTask) -> Seq<char> {
    "Ext task "@ + spec_hask_inner("ExternalSourceName"@, e.ext_source_name@) + " "@
        + spec_hask_inner("ExternalIdent"@, e.ext_id@)
}

impl ExtTask {
    /// The row's display line; nothing when either identifier is not shaped
    /// like its Haskell-newtype encoding.
    pub fn describe(&self) -> (r: Option<String>)
        ensures
            match r {
                Some(s) => {
                    &&& hask_shape_ok("ExternalSourceName"@, self.ext_source_name@)
                    &&& hask_shape_ok("ExternalIdent"@, self.ext_id@)
                    &&& s@ == spec_ext_task_describe(*self)
                },
                None => !(hask_shape_ok("ExternalSourceName"@, self.ext_source_name@)
                    && hask_shape_ok("ExternalIdent"@, self.ext_id@)),
            },
    {
        let source = match from_hask_newtype("ExternalSourceName", self.ext_source_name.as_str()) {
            Some(s) => s,
            None => {
                return None;
            },
        };
        let ident = match from_hask_newtype("ExternalIdent", self.ext_id.as_str()) {
            Some(s) => s,
            None => {
                return None;
            },
        };
        let mut out = String::from_str("Ext task ");
        out.append(source.as_str());
        out.append(" ");
        out.append(ident.as_str());
        Some(out)
    }
}

/// An account.  `time_zone` is the raw stored offset string, resolved anew
/// by every classification operation; `features` is opaque here.
pub struct User {
    pub id: i64,
    pub ident: String,
    pub password: Option<String>,
    pub time_zone: Option<String>,
    pub features: String,
}

impl Clone for User {
    fn clone(&self) -> (r: Self)
        ensures
            r == *self,
    {
        User {
            id: self.id,
            ident: self.ident.clone(),
            password: clone_opt_string(&self.password),
            time_zone: clone_opt_string(&self.time_zone),
            features: self.features.clone(),
        }
    }
}

impl User {
    /// The account's display line.
    pub fn describe(&self) -> (r: String)
        ensures
            r@ == "User "@ + self.ident@,
    {
        let mut out = String::from_str("User ");
        out.append(self.ident.as_str());
        out
    }
}

fn clone_opt_string(o: &Option<String>) -> (r: Option<String>)
    ensures
        r == *o,
{
    match o {
        Some(s) => Some(s.clone()),
        None => None,
    }
}

/// The Haskell-newtype rendering of `s` under constructor `name`:
/// `name {unname = "s"}` with `name` spliced in twice.
pub open spec fn spec_hask_newtype(name: Seq<char>, s: Seq<char>) -> Seq<char> {
    name + " {un"@ + name + " = \""@ + s + "\"}"@
}

/// The leading part of the rendering, up to the opening quote.
pub open spec fn spec_hask_prefix(name: Seq<char>) -> Seq<char> {
    name + " {un"@ + name + " = \""@
}

/// Whether `s` is shaped like a Haskell-newtype rendering under `name`:
/// the prefix, then room for an inner text, then a closing quote and brace.
pub open spec fn hask_shape_ok(name: Seq<char>, s: Seq<char>) -> bool {
    &&& s.len() >= spec_hask_prefix(name).len() + 2
    &&& s.subrange(0, spec_hask_prefix(name).len() as int) == spec_hask_prefix(name)
    &&& s[s.len() - 2] == '"'
    &&& s[s.len() - 1] == '}'
}

/// The inner text of a shaped rendering.
pub open spec fn spec_hask_inner(name: Seq<char>, s: Seq<char>) -> Seq<char> {
    s.subrange(spec_hask_prefix(name).len() as int, s.len() - 2)
}

/// Renders `s` in the Haskell-newtype encoding under constructor `name`.
pub fn to_hask_newtype(name: &str, s: &str) -> (r: String)
    ensures
        r@ == spec_hask_newtype(name@, s@),
{
    let mut out = hask_prefix_of(name);
    out.append(s);
    out.append("\"}");
    out
}

fn hask_prefix_of(name: &str) -> (r: String)
    ensures
        r@ == spec_hask_prefix(name@),
{
    let mut out = String::from_str(name);
    out.append(" {un");
    out.append(name);
    out.append(" = \"");
    out
}

/// Recovers the inner text of a Haskell-newtype rendering under constructor
/// `name`; a string not shaped like such a rendering yields nothing.
pub fn from_hask_newtype(name: &str, s: &str) -> (r: Option<String>)
    ensures
        match r {
            Some(inner) => hask_shape_ok(name@, s@) && inner@ == spec_hask_inner(name@, s@),
            None => !hask_shape_ok(name@, s@),
        },
{
    let prefix = hask_prefix_of(name);
    let np = prefix.as_str().unicode_len();
    let ns = s.unicode_len();
    if ns < 2 || ns - 2 < np {
        return None;
    }
    let head = s.substring_char(0, np);
    if !str_eq(head, prefix.as_str()) {
        return None;
    }
    if !(s.get_char(ns - 2) == '"' && s.get_char(ns - 1) == '}') {
        return None;
    }
    let inner = s.substring_char(np, ns - 2);
    Some(String::from_str(inner))
}

/// Rendering and recovering are inverse: what `to_hask_newtype` writes is
/// shaped like a rendering, and its inner text is exactly what was written.
pub proof fn lemma_hask_round_trip(name: Seq<char>, s: Seq<char>)
    ensures
        hask_shape_ok(name, spec_hask_newtype(name, s)),
        spec_hask_inner(name, spec_hask_newtype(name, s)) == s,
{
    reveal_strlit("\"}");
    let full = spec_hask_newtype(name, s);
    let pre = spec_hask_prefix(name);
    assert(full =~= pre + s + "\"}"@);
    assert(full.subrange(0, pre.len() as int) =~= pre);
    assert(full[full.len() - 2] == '"');
    assert(full[full.len() - 1] == '}');
    assert(full.subrange(pre.len() as int, full.len() - 2) =~= s);
}

} // verus!
