//! Readiness of the service and its dependencies, and request correlation ids.
use vstd::prelude::*;
use crate::http::Status;
use crate::text::{char_is_ascii_alphanumeric, is_ascii_alphanumeric, str_eq};

verus! {

broadcast use vstd::string::group_string_axioms;

/// One dependency as the readiness probe reports it.
pub struct DependencyStatus {
    pub id: String,
    pub status: String,
    pub required: bool,
}

/// Whether a dependency state counts as up.
pub open spec fn state_up(status: Seq<char>) -> bool {
    status == "healthy"@ || status == "configured"@
}

/// Whether a dependency is up: healthy, or configured.
pub fn dependency_up(status: &str) -> (b: bool)
    ensures
        b == state_up(status@),
{
    str_eq(status, "healthy") || str_eq(status, "configured")
}

/// Whether a service takes part in readiness (the embedding service does not).
pub fn counts_for_readiness(id: &str) -> (b: bool)
    ensures
        b == (id@ != "embedding"@),
{
    !str_eq(id, "embedding")
}

/// A dependency's report: the database is always required, other services when
/// the configuration says so.
pub fn dependency_status(id: String, state: String, configured_required: bool) -> (d: DependencyStatus)
    ensures
        d.id@ == id@,
        d.status@ == state@,
        d.required == (id@ == "database"@ || configured_required),
{
    let required = str_eq(id.as_str(), "database") || configured_required;
    DependencyStatus { id, status: state, required }
}

/// The overall readiness.
#[derive(Clone, Copy, Debug, PartialEq, Eq, Structural)]
pub enum Readiness {
    Ready,
    Degraded,
    NotReady,
}

impl Readiness {
    /// The name reported for the readiness.
    pub fn as_str(self) -> (s: &'static str)
        ensures
            s@ == match self {
                Readiness::Ready => "ready"@,
                Readiness::Degraded => "degraded"@,
                Readiness::NotReady => "not_ready"@,
            },
    {
        match self {
            Readiness::Ready => "ready",
            Readiness::Degraded => "degraded",
            Readiness::NotReady => "not_ready",
        }
    }
}

/// Some required dependency is not up.
pub open spec fn required_unavailable(deps: Seq<DependencyStatus>) -> bool {
    exists|i: int| 0 <= i < deps.len() && (#[trigger] deps[i]).required && !state_up(deps[i].status@)
}

/// Some optional dependency reports itself degraded.
pub open spec fn optional_degraded(deps: Seq<DependencyStatus>) -> bool {
    exists|i: int| 0 <= i < deps.len() && !(#[trigger] deps[i]).required && deps[i].status@ == "degraded"@
}

/// The readiness of the service: not ready (503) when a required dependency is
/// down, degraded when an optional one is degraded, ready otherwise (200).
pub fn readiness(deps: &Vec<DependencyStatus>) -> (r: (Status, Readiness))
    ensures
        r.1 == if required_unavailable(deps@) {
            Readiness::NotReady
        } else if optional_degraded(deps@) {
            Readiness::Degraded
        } else {
            Readiness::Ready
        },
        r.0 == if required_unavailable(deps@) {
            Status::ServiceUnavailable
        } else {
            Status::Success
        },
{
    let mut unavailable = false;
    let mut degraded = false;
    let mut i: usize = 0;
    while i < deps.len()
        invariant
            i <= deps.len(),
            unavailable == exists|k: int|
                0 <= k < i && (#[trigger] deps@[k]).required && !state_up(deps@[k].status@),
            degraded == exists|k: int|
                0 <= k < i && !(#[trigger] deps@[k]).required && deps@[k].status@ == "degraded"@,
        decreases deps.len() - i,
    {
        let d = &deps[i];
        if d.required && !dependency_up(d.status.as_str()) {
            unavailable = true;
        }
        if !d.required && str_eq(d.status.as_str(), "degraded") {
            degraded = true;
        }
        i += 1;
    }
    if unavailable {
        (Status::ServiceUnavailable, Readiness::NotReady)
    } else if degraded {
        (Status::Success, Readiness::Degraded)
    } else {
        (Status::Success, Readiness::Ready)
    }
}

/// The metrics line that reports whether a dependency is up.
pub open spec fn dependency_line(id: Seq<char>, required: bool, up: bool) -> Seq<char> {
    "chat_room_dependency_up{dependency=\""@ + id + "\",required=\""@ + (if required {
        "true"@
    } else {
        "false"@
    }) + "\"} "@ + (if up {
        "1"@
    } else {
        "0"@
    }) + "\n"@
}

/// Renders a dependency as a metrics gauge line: its id, whether it is
/// required, and 1 when it is up (healthy or configured), else 0.
pub fn dependency_metric_line(dependency: &DependencyStatus) -> (r: String)
    ensures
        r@ == dependency_line(dependency.id@, dependency.required, state_up(dependency.status@)),
{
    let mut r = "chat_room_dependency_up{dependency=\"".to_owned();
    r.append(dependency.id.as_str());
    r.append("\",required=\"");
    r.append(if dependency.required {
        "true"
    } else {
        "false"
    });
    r.append("\"} ");
    r.append(if dependency_up(dependency.status.as_str()) {
        "1"
    } else {
        "0"
    });
    r.append("\n");
    r
}

/// A request id a client may supply: 1 to 64 characters, each an ASCII letter or
/// digit or one of `-`, `_`, `.`, `:` (so one byte each).
pub open spec fn request_id_ok(value: Seq<char>) -> bool {
    &&& 0 < value.len() <= 64
    &&& forall|i: int|
        0 <= i < value.len() ==> is_ascii_alphanumeric(#[trigger] value[i]) || value[i] == '-'
            || value[i] == '_' || value[i] == '.' || value[i] == ':'
}

/// The client's request id, kept only when it is well formed; otherwise a new
/// one is made.
pub fn incoming_request_id(value: Option<&str>) -> (r: Option<String>)
    ensures
        match value {
            Some(v) => if request_id_ok(v@) {
                r matches Some(s) && s@ == v@
            } else {
                r is None
            },
            None => r is None,
        },
{
    let v = match value {
        Some(v) => v,
        None => {
            return None;
        },
    };
    let chars = crate::text::to_chars(v);
    if chars.len() == 0 || chars.len() > 64 {
        return None;
    }
    let mut i: usize = 0;
    while i < chars.len()
        invariant
            i <= chars.len(),
            value == Some(v),
            chars@ == v@,
            0 < chars@.len() <= 64,
            forall|k: int|
                0 <= k < i ==> is_ascii_alphanumeric(#[trigger] chars@[k]) || chars@[k] == '-'
                    || chars@[k] == '_' || chars@[k] == '.' || chars@[k] == ':',
        decreases chars.len() - i,
    {
        let c = chars[i];
        if !(char_is_ascii_alphanumeric(c) || c == '-' || c == '_' || c == '.' || c == ':') {
            assert(!(is_ascii_alphanumeric(chars@[i as int]) || chars@[i as int] == '-'
                || chars@[i as int] == '_' || chars@[i as int] == '.' || chars@[i as int] == ':'));
            return None;
        }
        i += 1;
    }
    Some(v.to_owned())
}

} // verus!
