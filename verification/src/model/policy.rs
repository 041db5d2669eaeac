//! Session policy may only narrow its parent policy.
use vstd::prelude::*;
use crate::text::concat;
use crate::json::{JsonValue, JsonView, view_get, view_entries, json_eq};
use crate::model::error::{ErrorCode, SwitchboardError, ErrorView, plain_error};

verus! {

/// How a child policy fails to narrow its parent at some key.
pub enum PolicyViolation {
    /// The parent value is a boolean and the child value is not.
    TypeMismatch(Seq<char>),
    /// The parent says `false` and the child says `true`.
    Broadens(Seq<char>),
    /// A non-boolean value differs from the parent's.
    Differs(Seq<char>),
}

/// The first violation among the parent entries from index `i` on.
pub open spec fn violation_from(pe: Seq<(Seq<char>, JsonView)>, child: JsonView, i: int) -> Option<PolicyViolation>
    decreases pe.len() - i,
{
    if i < 0 || i >= pe.len() {
        None
    } else {
        let k = pe[i].0;
        let pv = pe[i].1;
        match view_get(child, k) {
            None => violation_from(pe, child, i + 1),
            Some(cv) => match pv {
                JsonView::Bool(pb) => match cv {
                    JsonView::Bool(cb) => if cb && !pb {
                        Some(PolicyViolation::Broadens(k))
                    } else {
                        violation_from(pe, child, i + 1)
                    },
                    _ => Some(PolicyViolation::TypeMismatch(k)),
                },
                _ => if pv != cv {
                    Some(PolicyViolation::Differs(k))
                } else {
                    violation_from(pe, child, i + 1)
                },
            },
        }
    }
}

/// The error reported for a violation.
pub open spec fn violation_error(v: PolicyViolation) -> ErrorView {
    let (msg, k) = match v {
        PolicyViolation::TypeMismatch(k) => ("policy type mismatch for key "@ + k, k),
        PolicyViolation::Broadens(k) => ("policy broadens parent at key "@ + k, k),
        PolicyViolation::Differs(k) => ("policy differs from parent at key "@ + k, k),
    };
    ErrorView {
        entity_kind: Some("policy"@),
        entity_id: Some(k),
        ..plain_error(ErrorCode::PolicyBroadening, msg)
    }
}

/// Outcome of `policy_narrows`: `None` when the child only narrows.
pub open spec fn narrowing_error(parent: JsonView, child: JsonView) -> Option<ErrorView> {
    match parent {
        JsonView::Object(pe) => match child {
            JsonView::Object(_) => match violation_from(pe, child, 0) {
                Some(v) => Some(violation_error(v)),
                None => None,
            },
            _ => Some(plain_error(ErrorCode::PolicyBroadening, "session policy must be an object"@)),
        },
        _ => None,
    }
}

fn violation_err(prefix: &str, k: &String) -> (r: SwitchboardError)
    ensures
        r@ == (ErrorView {
            entity_kind: Some("policy"@),
            entity_id: Some(k@),
            ..plain_error(ErrorCode::PolicyBroadening, prefix@ + k@)
        }),
{
    let msg = concat(prefix, k.as_str());
    SwitchboardError::new(ErrorCode::PolicyBroadening, msg.as_str()).with_entity("policy", k.as_str())
}

/// Ensure `child` only narrows `parent` policy.
/// Boolean keys: child may set false when parent is true (narrow); cannot set
/// true when parent is false. Other values must match exactly when present in
/// both. Keys the child omits are narrowing.
pub fn policy_narrows(parent: &JsonValue, child: &JsonValue) -> (r: Result<(), SwitchboardError>)
    ensures
        match r {
            Ok(()) => narrowing_error(parent@, child@) is None,
            Err(e) => narrowing_error(parent@, child@) == Some(e@),
        },
{
    let pv = match parent {
        JsonValue::Object(v) => v,
        _ => return Ok(()),
    };
    if !child.is_object() {
        return Err(SwitchboardError::new(ErrorCode::PolicyBroadening, "session policy must be an object"));
    }
    let ghost pe = view_entries(pv@);
    assert(parent@ == JsonView::Object(pe));
    let mut i: usize = 0;
    while i < pv.len()
        invariant
            i <= pv.len(),
            pe == view_entries(pv@),
            parent@ == JsonView::Object(pe),
            child@ is Object,
            violation_from(pe, child@, 0) == violation_from(pe, child@, i as int),
        decreases pv.len() - i,
    {
        let k = &pv[i].0;
        let p = &pv[i].1;
        assert(pe[i as int] == (k@, p@));
        match child.get(k.as_str()) {
            None => {},
            Some(c) => {
                match p {
                    JsonValue::Bool(pb) => {
                        match c.as_bool() {
                            Some(cb) => {
                                if cb && !*pb {
                                    return Err(violation_err("policy broadens parent at key ", k));
                                }
                            },
                            None => {
                                return Err(violation_err("policy type mismatch for key ", k));
                            },
                        }
                    },
                    _ => {
                        if !json_eq(p, c) {
                            return Err(violation_err("policy differs from parent at key ", k));
                        }
                    },
                }
            },
        }
        i = i + 1;
    }
    Ok(())
}

} // verus!
