//! Identifiers of actors.
use vstd::prelude::*;
use vstd::string::StringExecFns;

verus! {

/// The identifier of an actor: either a local process id, or a process id on a
/// remote node of the cluster.
#[derive(Clone, Copy, Debug, PartialEq, Eq, Hash, Structural)]
pub enum ActorId {
    /// An actor running on this node
    Local(u64),
    /// An actor running on another node
    Remote {
        /// The node the actor lives on
        node_id: u64,
        /// The actor's process id on that node
        pid: u64,
    },
}

impl ActorId {
    /// Identifies whether the actor lives on this node.
    pub fn is_local(&self) -> (r: bool)
        ensures
            r == (*self is Local),
    {
        match self {
            ActorId::Local(_) => true,
            ActorId::Remote { .. } => false,
        }
    }

    /// The actor's process id, regardless of which node it lives on.
    pub fn pid(&self) -> (r: u64)
        ensures
            r == (match *self {
                ActorId::Local(p) => p,
                ActorId::Remote { pid, .. } => pid,
            }),
    {
        match self {
            ActorId::Local(p) => *p,
            ActorId::Remote { pid, .. } => *pid,
        }
    }
}

/// The decimal digit `d` (below ten) as text
pub open spec fn spec_digit(d: nat) -> Seq<char> {
    if d == 0 {
        "0"@
    } else if d == 1 {
        "1"@
    } else if d == 2 {
        "2"@
    } else if d == 3 {
        "3"@
    } else if d == 4 {
        "4"@
    } else if d == 5 {
        "5"@
    } else if d == 6 {
        "6"@
    } else if d == 7 {
        "7"@
    } else if d == 8 {
        "8"@
    } else {
        "9"@
    }
}

/// The decimal text of `n`, without leading zeros
pub open spec fn spec_decimal(n: nat) -> Seq<char>
    decreases n,
{
    if n < 10 {
        spec_digit(n)
    } else {
        spec_decimal(n / 10) + spec_digit(n % 10)
    }
}

/// The text of the decimal digit `d`
fn digit_text(d: u64) -> (r: &'static str)
    requires
        d < 10,
    ensures
        r@ == spec_digit(d as nat),
{
    if d == 0 {
        "0"
    } else if d == 1 {
        "1"
    } else if d == 2 {
        "2"
    } else if d == 3 {
        "3"
    } else if d == 4 {
        "4"
    } else if d == 5 {
        "5"
    } else if d == 6 {
        "6"
    } else if d == 7 {
        "7"
    } else if d == 8 {
        "8"
    } else {
        "9"
    }
}

/// The decimal text of `n`
pub fn decimal_text(n: u64) -> (r: String)
    ensures
        r@ == spec_decimal(n as nat),
    decreases n,
{
    if n < 10 {
        digit_text(n).to_owned()
    } else {
        let mut s = decimal_text(n / 10);
        s.append(digit_text(n % 10));
        s
    }
}

/// The text of an actor identifier: the node, a dot and the process id (a
/// local actor is on node 0)
pub open spec fn spec_actor_id_text(id: ActorId) -> Seq<char> {
    match id {
        ActorId::Local(pid) => "0."@ + spec_decimal(pid as nat),
        ActorId::Remote { node_id, pid } => spec_decimal(node_id as nat) + "."@ + spec_decimal(
            pid as nat,
        ),
    }
}

impl ActorId {
    /// The identifier as text: the node, a dot and the process id
    pub fn to_string(&self) -> (r: String)
        ensures
            r@ == spec_actor_id_text(*self),
    {
        match self {
            ActorId::Local(pid) => {
                let mut s = "0.".to_owned();
                s.append(decimal_text(*pid).as_str());
                s
            },
            ActorId::Remote { node_id, pid } => {
                let mut s = decimal_text(*node_id);
                s.append(".");
                s.append(decimal_text(*pid).as_str());
                s
            },
        }
    }
}

} // verus!
