//! The active-environment marker, and the steps by which a session moves
//! from one environment to another.

use crate::error::Error;
use crate::name::NO_ENV_ACTIVE;
use crate::text::str_eq;
use vstd::prelude::*;
use vstd::string::*;

verus! {

/// Which environment, if any, is active in the invoking shell.
#[derive(Debug)]
pub enum Marker {
    Inactive,
    Active(String),
}

impl View for Marker {
    type V = Option<Seq<char>>;

    open spec fn view(&self) -> Option<Seq<char>> {
        match self {
            Marker::Inactive => None,
            Marker::Active(name) => Some(name@),
        }
    }
}

/// The marker that a value of the shell's variable stands for: the sentinel,
/// like a variable that is not set, says that no environment is active.
pub open spec fn marker_of(value: Option<Seq<char>>) -> Option<Seq<char>> {
    match value {
        Some(v) if v != NO_ENV_ACTIVE@ => Some(v),
        _ => None,
    }
}

/// The value that the shell's variable has for a marker.
pub open spec fn marker_value(marker: Option<Seq<char>>) -> Seq<char> {
    match marker {
        None => NO_ENV_ACTIVE@,
        Some(name) => name,
    }
}

impl Marker {
    /// Reads the marker from the value of the shell's variable.
    pub fn read(value: Option<&str>) -> (r: Marker)
        ensures
            r@ == marker_of(
                match value {
                    Some(v) => Some(v@),
                    None => None,
                },
            ),
    {
        match value {
            Some(v) => {
                if str_eq(v, NO_ENV_ACTIVE) {
                    Marker::Inactive
                } else {
                    Marker::Active(String::from_str(v))
                }
            },
            None => Marker::Inactive,
        }
    }

    /// The value that the shell's variable has for this marker.
    pub fn value(&self) -> (r: String)
        ensures
            r@ == marker_value(self@),
    {
        match self {
            Marker::Inactive => String::from_str(NO_ENV_ACTIVE),
            Marker::Active(name) => name.clone(),
        }
    }

    /// A marker of the same state.
    pub fn duplicate(&self) -> (r: Marker)
        ensures
            r@ == self@,
    {
        match self {
            Marker::Inactive => Marker::Inactive,
            Marker::Active(name) => Marker::Active(name.clone()),
        }
    }
}

/// Whether `env` is the active environment.
pub fn is_cur_env(marker: &Marker, env: &str) -> (r: bool)
    ensures
        r == (marker@ == Some(env@)),
{
    match marker {
        Marker::Inactive => false,
        Marker::Active(name) => str_eq(name.as_str(), env),
    }
}

/// A transition of the session, as up to three steps in this order: undo
/// every alias of one environment, set the marker, define every alias of
/// another. A step that is `None` is left out.
pub struct Plan {
    pub unload: Option<Seq<char>>,
    pub marker: Option<Option<Seq<char>>>,
    pub load: Option<Seq<char>>,
}

/// The steps of a transition, as values.
#[derive(Debug)]
pub struct Transition {
    pub unload: Option<String>,
    pub marker: Option<Marker>,
    pub load: Option<String>,
}

impl View for Transition {
    type V = Plan;

    open spec fn view(&self) -> Plan {
        Plan {
            unload: match self.unload {
                Some(name) => Some(name@),
                None => None,
            },
            marker: match self.marker {
                Some(m) => Some(m@),
                None => None,
            },
            load: match self.load {
                Some(name) => Some(name@),
                None => None,
            },
        }
    }
}

/// The steps that load `target`: the aliases of the environment that was
/// active, if one was, are undone first.
pub open spec fn load_plan(current: Option<Seq<char>>, target: Seq<char>) -> Plan {
    Plan { unload: current, marker: Some(Some(target)), load: Some(target) }
}

/// The steps that go before the deletion of `target`: none, unless it is the
/// active environment.
pub open spec fn delete_plan(current: Option<Seq<char>>, target: Seq<char>) -> Plan {
    if current == Some(target) {
        Plan { unload: Some(target), marker: Some(None), load: None }
    } else {
        Plan { unload: None, marker: None, load: None }
    }
}

/// Plans the loading of `target`. The active environment cannot be loaded
/// again.
pub fn compute_load_transition(current: &Marker, target: &str) -> (r: Result<Transition, Error>)
    ensures
        r is Err <==> current@ == Some(target@),
        r matches Err(e) ==> e == Error::AlreadyLoaded,
        r matches Ok(t) ==> t@ == load_plan(current@, target@),
{
    if is_cur_env(current, target) {
        return Err(Error::AlreadyLoaded);
    }
    let unload = match current {
        Marker::Inactive => None,
        Marker::Active(name) => Some(name.clone()),
    };
    Ok(
        Transition {
            unload,
            marker: Some(Marker::Active(String::from_str(target))),
            load: Some(String::from_str(target)),
        },
    )
}

/// Plans what goes before the deletion of `target`.
pub fn compute_delete_transition(current: &Marker, target: &str) -> (r: Transition)
    ensures
        r@ == delete_plan(current@, target@),
{
    if is_cur_env(current, target) {
        Transition {
            unload: Some(String::from_str(target)),
            marker: Some(Marker::Inactive),
            load: None,
        }
    } else {
        Transition { unload: None, marker: None, load: None }
    }
}

/// The marker after a transition: the one it sets, or the one before it.
pub open spec fn marker_after(current: Option<Seq<char>>, plan: Plan) -> Option<Seq<char>> {
    match plan.marker {
        Some(m) => m,
        None => current,
    }
}

} // verus!
