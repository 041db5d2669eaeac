//! WorkSession lifecycle states and the transitions between them.
use vstd::prelude::*;
use crate::text::str_eq;

verus! {

/// AWM WorkSession lifecycle states.
#[derive(Debug, Clone, Copy, PartialEq, Eq, Structural)]
pub enum WorkSessionState {
    Proposed,
    Open,
    Paused,
    Closed,
    Aborted,
}

/// Wire name of a state.
pub open spec fn state_name(s: WorkSessionState) -> Seq<char> {
    match s {
        WorkSessionState::Proposed => "proposed"@,
        WorkSessionState::Open => "open"@,
        WorkSessionState::Paused => "paused"@,
        WorkSessionState::Closed => "closed"@,
        WorkSessionState::Aborted => "aborted"@,
    }
}

/// The state whose wire name is `t`, if any.
pub open spec fn parse_state(t: Seq<char>) -> Option<WorkSessionState> {
    if t == "proposed"@ {
        Some(WorkSessionState::Proposed)
    } else if t == "open"@ {
        Some(WorkSessionState::Open)
    } else if t == "paused"@ {
        Some(WorkSessionState::Paused)
    } else if t == "closed"@ {
        Some(WorkSessionState::Closed)
    } else if t == "aborted"@ {
        Some(WorkSessionState::Aborted)
    } else {
        None
    }
}

/// Closed and Aborted are final.
pub open spec fn terminal(s: WorkSessionState) -> bool {
    s == WorkSessionState::Closed || s == WorkSessionState::Aborted
}

/// The transition relation of the lifecycle (staying put is always allowed).
pub open spec fn transition_allowed(from: WorkSessionState, to: WorkSessionState) -> bool {
    from == to || match (from, to) {
        (WorkSessionState::Proposed, WorkSessionState::Open) => true,
        (WorkSessionState::Proposed, WorkSessionState::Aborted) => true,
        (WorkSessionState::Open, WorkSessionState::Paused) => true,
        (WorkSessionState::Open, WorkSessionState::Closed) => true,
        (WorkSessionState::Open, WorkSessionState::Aborted) => true,
        (WorkSessionState::Paused, WorkSessionState::Open) => true,
        (WorkSessionState::Paused, WorkSessionState::Closed) => true,
        (WorkSessionState::Paused, WorkSessionState::Aborted) => true,
        _ => false,
    }
}

impl WorkSessionState {
    /// The default state of a new session.
    pub fn default_state() -> (r: Self)
        ensures
            r == WorkSessionState::Proposed,
    {
        WorkSessionState::Proposed
    }

    pub fn as_str(self) -> (r: &'static str)
        ensures
            r@ == state_name(self),
    {
        match self {
            WorkSessionState::Proposed => "proposed",
            WorkSessionState::Open => "open",
            WorkSessionState::Paused => "paused",
            WorkSessionState::Closed => "closed",
            WorkSessionState::Aborted => "aborted",
        }
    }

    pub fn parse(s: &str) -> (r: Option<Self>)
        ensures
            r == parse_state(s@),
    {
        if str_eq(s, "proposed") {
            Some(WorkSessionState::Proposed)
        } else if str_eq(s, "open") {
            Some(WorkSessionState::Open)
        } else if str_eq(s, "paused") {
            Some(WorkSessionState::Paused)
        } else if str_eq(s, "closed") {
            Some(WorkSessionState::Closed)
        } else if str_eq(s, "aborted") {
            Some(WorkSessionState::Aborted)
        } else {
            None
        }
    }

    pub fn is_terminal(self) -> (r: bool)
        ensures
            r == terminal(self),
    {
        match self {
            WorkSessionState::Closed | WorkSessionState::Aborted => true,
            _ => false,
        }
    }

    pub fn can_transition_to(self, to: Self) -> (r: bool)
        ensures
            r == transition_allowed(self, to),
    {
        if self == to {
            return true;
        }
        match (self, to) {
            (WorkSessionState::Proposed, WorkSessionState::Open) => true,
            (WorkSessionState::Proposed, WorkSessionState::Aborted) => true,
            (WorkSessionState::Open, WorkSessionState::Paused) => true,
            (WorkSessionState::Open, WorkSessionState::Closed) => true,
            (WorkSessionState::Open, WorkSessionState::Aborted) => true,
            (WorkSessionState::Paused, WorkSessionState::Open) => true,
            (WorkSessionState::Paused, WorkSessionState::Closed) => true,
            (WorkSessionState::Paused, WorkSessionState::Aborted) => true,
            _ => false,
        }
    }
}

/// Every state's wire name parses back to that state.
pub proof fn lemma_state_name_roundtrip(s: WorkSessionState)
    ensures
        parse_state(state_name(s)) == Some(s),
{
    reveal_strlit("proposed");
    reveal_strlit("open");
    reveal_strlit("paused");
    reveal_strlit("closed");
    reveal_strlit("aborted");
    assert("proposed"@.len() == 8 && "open"@.len() == 4 && "paused"@.len() == 6);
    assert("closed"@.len() == 6 && "aborted"@.len() == 7);
    assert("paused"@[0] == 'p' && "closed"@[0] == 'c');
}

/// A closed or aborted session never leaves its state.
pub proof fn lemma_terminal_is_final(from: WorkSessionState, to: WorkSessionState)
    requires
        terminal(from),
        transition_allowed(from, to),
    ensures
        to == from,
{
}

/// No session ever moves back to Proposed.
pub proof fn lemma_no_return_to_proposed(from: WorkSessionState)
    requires
        transition_allowed(from, WorkSessionState::Proposed),
    ensures
        from == WorkSessionState::Proposed,
{
}

/// Pausing is undone by reopening, and a paused session can always be reopened.
pub proof fn lemma_pause_resume(s: WorkSessionState)
    requires
        s == WorkSessionState::Open,
    ensures
        transition_allowed(s, WorkSessionState::Paused),
        transition_allowed(WorkSessionState::Paused, s),
{
}

/// What each move of the lifecycle is: a session that has not ended can
/// always be aborted; an opened session (open or paused) can always be
/// closed; open and paused sessions move to each other; a proposed session
/// can be opened. Staying put is always allowed.
pub proof fn law_transitions_that_are_allowed(from: WorkSessionState)
    ensures
        transition_allowed(from, from),
        from != WorkSessionState::Closed && from != WorkSessionState::Aborted
            ==> transition_allowed(from, WorkSessionState::Aborted),
        from == WorkSessionState::Open || from == WorkSessionState::Paused
            ==> transition_allowed(from, WorkSessionState::Closed),
        transition_allowed(WorkSessionState::Open, WorkSessionState::Paused),
        transition_allowed(WorkSessionState::Paused, WorkSessionState::Open),
        transition_allowed(WorkSessionState::Proposed, WorkSessionState::Open),
{
}

/// And nothing else is allowed: a session leaves its state only to a later
/// one of the lifecycle (proposed, then open or paused, then closed or
/// aborted), a proposed session is never paused or closed without being
/// opened, and an ended session never moves.
pub proof fn law_transitions_that_are_refused(from: WorkSessionState, to: WorkSessionState)
    requires
        from != to,
        transition_allowed(from, to),
    ensures
        from != WorkSessionState::Closed && from != WorkSessionState::Aborted,
        to != WorkSessionState::Proposed,
        from == WorkSessionState::Proposed ==> (to == WorkSessionState::Open || to == WorkSessionState::Aborted),
{
}

} // verus!
