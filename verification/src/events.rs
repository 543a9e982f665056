//! The events that decouple mutation completion from recomputation: what the
//! watcher and the command layer post, and what the worker consumes.

use vstd::prelude::*;
use crate::ids::ProjectId;
use crate::messages::hex_seq;

verus! {

/// An observer session checkpointed by a flush.
#[derive(Clone, Debug)]
pub struct Session {
    pub id: String,
}

/// What outside callers can feed into the background worker.
#[derive(Clone, Debug)]
pub enum Event {
    Flush(ProjectId, Session),
    CalculateVirtualBranches(ProjectId),
    FetchGitbutlerData(ProjectId),
    PushGitbutlerData(ProjectId),
}

/// The project an event belongs to.
pub open spec fn event_project_id(e: Event) -> ProjectId {
    match e {
        Event::Flush(pid, _) => pid,
        Event::CalculateVirtualBranches(pid) => pid,
        Event::FetchGitbutlerData(pid) => pid,
        Event::PushGitbutlerData(pid) => pid,
    }
}

impl Event {
    /// The project the event belongs to.
    pub fn project_id(&self) -> (r: &ProjectId)
        ensures
            *r == event_project_id(*self),
    {
        match self {
            Event::FetchGitbutlerData(project_id) => project_id,
            Event::Flush(project_id, _) => project_id,
            Event::CalculateVirtualBranches(project_id) => project_id,
            Event::PushGitbutlerData(project_id) => project_id,
        }
    }
}

/// The worker's own event set: what callers post, plus what the file monitor
/// reports.
#[derive(Clone, Debug)]
pub enum InternalEvent {
    Flush(ProjectId, Session),
    CalculateVirtualBranches(ProjectId),
    FetchGitbutlerData(ProjectId),
    PushGitbutlerData(ProjectId),
    GitFileChange(ProjectId, String),
    ProjectFileChange(ProjectId, String),
}

impl From<Event> for InternalEvent {
    fn from(value: Event) -> (r: InternalEvent) {
        match value {
            Event::Flush(a, b) => InternalEvent::Flush(a, b),
            Event::CalculateVirtualBranches(v) => InternalEvent::CalculateVirtualBranches(v),
            Event::FetchGitbutlerData(v) => InternalEvent::FetchGitbutlerData(v),
            Event::PushGitbutlerData(v) => InternalEvent::PushGitbutlerData(v),
        }
    }
}

impl vstd::std_specs::convert::FromSpecImpl<Event> for InternalEvent {
    open spec fn obeys_from_spec() -> bool {
        true
    }

    open spec fn from_spec(value: Event) -> InternalEvent {
        match value {
            Event::Flush(a, b) => InternalEvent::Flush(a, b),
            Event::CalculateVirtualBranches(v) => InternalEvent::CalculateVirtualBranches(v),
            Event::FetchGitbutlerData(v) => InternalEvent::FetchGitbutlerData(v),
            Event::PushGitbutlerData(v) => InternalEvent::PushGitbutlerData(v),
        }
    }
}

/// A project id as thirty-two hexadecimal digits.
pub open spec fn project_id_hex(p: ProjectId) -> Seq<char> {
    hex_seq(p.hi as int, 16) + hex_seq(p.lo as int, 16)
}

/// The one-line description of an internal event, as logs show it.
pub open spec fn internal_event_text(e: InternalEvent) -> Seq<char> {
    match e {
        InternalEvent::FetchGitbutlerData(pid) => "FetchGitbutlerData("@ + project_id_hex(pid)
            + ")"@,
        InternalEvent::Flush(pid, s) => "Flush("@ + project_id_hex(pid) + ", "@ + s.id@ + ")"@,
        InternalEvent::GitFileChange(pid, p) => "GitFileChange("@ + project_id_hex(pid) + ", "@
            + p@ + ")"@,
        InternalEvent::ProjectFileChange(pid, p) => "ProjectFileChange("@ + project_id_hex(pid)
            + ", "@ + p@ + ")"@,
        InternalEvent::CalculateVirtualBranches(pid) => "VirtualBranch("@ + project_id_hex(pid)
            + ")"@,
        InternalEvent::PushGitbutlerData(pid) => "PushGitbutlerData("@ + project_id_hex(pid)
            + ")"@,
    }
}

/// The id of a project as thirty-two hexadecimal digits.
pub fn project_id_to_hex(p: &ProjectId) -> (r: String)
    ensures
        r@ == project_id_hex(*p),
{
    let mut s = crate::messages::hex_str(p.hi, 16);
    let t = crate::messages::hex_str(p.lo, 16);
    s.append(t.as_str());
    proof {
        assert(s@ =~= project_id_hex(*p));
    }
    s
}

impl InternalEvent {
    /// The one-line description of the event, as logs show it.
    pub fn display_string(&self) -> (r: String)
        ensures
            r@ == internal_event_text(*self),
    {
        let mut m = String::new();
        match self {
            InternalEvent::FetchGitbutlerData(pid) => {
                m.append("FetchGitbutlerData(");
                let h = project_id_to_hex(pid);
                m.append(h.as_str());
                m.append(")");
            },
            InternalEvent::Flush(pid, s) => {
                m.append("Flush(");
                let h = project_id_to_hex(pid);
                m.append(h.as_str());
                m.append(", ");
                m.append(s.id.as_str());
                m.append(")");
            },
            InternalEvent::GitFileChange(pid, p) => {
                m.append("GitFileChange(");
                let h = project_id_to_hex(pid);
                m.append(h.as_str());
                m.append(", ");
                m.append(p.as_str());
                m.append(")");
            },
            InternalEvent::ProjectFileChange(pid, p) => {
                m.append("ProjectFileChange(");
                let h = project_id_to_hex(pid);
                m.append(h.as_str());
                m.append(", ");
                m.append(p.as_str());
                m.append(")");
            },
            InternalEvent::CalculateVirtualBranches(pid) => {
                m.append("VirtualBranch(");
                let h = project_id_to_hex(pid);
                m.append(h.as_str());
                m.append(")");
            },
            InternalEvent::PushGitbutlerData(pid) => {
                m.append("PushGitbutlerData(");
                let h = project_id_to_hex(pid);
                m.append(h.as_str());
                m.append(")");
            },
        }
        proof {
            assert(m@ =~= internal_event_text(*self));
        }
        m
    }
}

} // verus!
