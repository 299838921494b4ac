//! The registry of the process ids of the actors of this node, and the actors
//! monitoring their lifecycle: each actor registered or unregistered is
//! reported to every monitor.
use vstd::prelude::*;
use dashmap::DashMap;

use crate::actor_id::{spec_actor_id_text, ActorId};
use crate::actor_ref::ActorCell;
use crate::registry::ActorRegistryErr;
use vstd::string::StringExecFns;

verus! {

/// A lifecycle event of an actor of this node
#[derive(Clone, Copy, Debug, PartialEq, Eq, Structural)]
pub enum PidLifecycleEvent {
    /// The actor was spawned
    Spawn(ActorCell),
    /// The actor terminated
    Terminate(ActorCell),
}

/// A lifecycle event for a monitoring actor to receive
#[derive(Clone, Copy, Debug, PartialEq, Eq, Structural)]
pub struct PidNotification {
    /// The monitoring actor
    pub listener: ActorCell,
    /// The event
    pub event: PidLifecycleEvent,
}

/// The actors held by a table of process ids: by identifier, the actor
pub uninterp spec fn pid_entries(m: DashMap<ActorId, ActorCell>) -> Map<ActorId, ActorCell>;

/// `DashMap::new`: an empty table
#[verifier::external_body]
fn pids_new() -> (r: DashMap<ActorId, ActorCell>)
    ensures
        pid_entries(r).dom().is_empty(),
{
    DashMap::new()
}

/// `DashMap::insert`: the identifier now holds the actor
#[verifier::external_body]
fn pids_insert(m: &mut DashMap<ActorId, ActorCell>, id: ActorId, actor: ActorCell)
    ensures
        pid_entries(*final(m)) == pid_entries(*old(m)).insert(id, actor),
{
    m.insert(id, actor);
}

/// `DashMap::remove`: the identifier's entry is taken out, and its actor given
#[verifier::external_body]
fn pids_remove(m: &mut DashMap<ActorId, ActorCell>, id: &ActorId) -> (r: Option<ActorCell>)
    ensures
        pid_entries(*final(m)) == pid_entries(*old(m)).remove(*id),
        r == if pid_entries(*old(m)).contains_key(*id) {
            Some(pid_entries(*old(m))[*id])
        } else {
            None
        },
{
    m.remove(id).map(|entry| entry.1)
}

/// `DashMap::get`: the actor held under the identifier, if any
#[verifier::external_body]
fn pids_get(m: &DashMap<ActorId, ActorCell>, id: &ActorId) -> (r: Option<ActorCell>)
    ensures
        r == if pid_entries(*m).contains_key(*id) {
            Some(pid_entries(*m)[*id])
        } else {
            None
        },
{
    m.get(id).map(|entry| *entry.value())
}

/// `DashMap::iter`: every entry, each once, in the table's own order
#[verifier::external_body]
fn pids_entries(m: &DashMap<ActorId, ActorCell>) -> (r: Vec<(ActorId, ActorCell)>)
    ensures
        forall|i: int|
            0 <= i < r@.len() ==> pid_entries(*m).contains_key(#[trigger] r@[i].0) && r@[i].1
                == pid_entries(*m)[r@[i].0],
        forall|k: ActorId| #[trigger]
            pid_entries(*m).contains_key(k) ==> exists|i: int|
                0 <= i < r@.len() && #[trigger] r@[i].0 == k,
        forall|i: int, j: int| 0 <= i < j < r@.len() ==> r@[i].0 != r@[j].0,
{
    m.iter().map(|entry| (*entry.key(), *entry.value())).collect()
}

/// The process ids of the actors of this node, and the actors monitoring
/// their lifecycle
pub struct PidRegistry {
    pids: DashMap<ActorId, ActorCell>,
    listeners: DashMap<ActorId, ActorCell>,
}

impl PidRegistry {
    /// The registered actors, by identifier
    pub closed spec fn spec_pids(&self) -> Map<ActorId, ActorCell> {
        pid_entries(self.pids)
    }

    /// The monitoring actors, by identifier
    pub closed spec fn spec_listeners(&self) -> Map<ActorId, ActorCell> {
        pid_entries(self.listeners)
    }

    /// Empty tables
    pub fn new() -> (r: Self)
        ensures
            r.wf(),
            r.spec_pids() == Map::<ActorId, ActorCell>::empty(),
            r.spec_listeners() == Map::<ActorId, ActorCell>::empty(),
    {
        let r = PidRegistry { pids: pids_new(), listeners: pids_new() };
        proof {
            assert(r.spec_pids() =~= Map::empty());
            assert(r.spec_listeners() =~= Map::empty());
        }
        r
    }

    /// Every monitor is held under its own identifier
    pub closed spec fn wf(&self) -> bool {
        forall|k: ActorId| #[trigger]
            self.spec_listeners().contains_key(k) ==> self.spec_listeners()[k].id == k
    }

    /// Notify every monitoring actor, once, of `event`, in the order the table
    /// of monitors is walked
    fn notify(&self, event: PidLifecycleEvent) -> (r: Vec<PidNotification>)
        requires
            self.wf(),
        ensures
            spec_notifies_each(r@, self.spec_listeners(), event),
    {
        let entries = pids_entries(&self.listeners);
        let mut r: Vec<PidNotification> = Vec::new();
        let mut i: usize = 0;
        while i < entries.len()
            invariant
                0 <= i <= entries.len(),
                r@.len() == i,
                forall|j: int|
                    0 <= j < i ==> (#[trigger] r@[j]).listener == entries@[j].1 && r@[j].event
                        == event,
            decreases entries.len() - i,
        {
            r.push(PidNotification { listener: entries[i].1, event });
            i = i + 1;
        }
        proof {
            let l = self.spec_listeners();
            assert forall|j: int| 0 <= j < r@.len() implies (#[trigger] r@[j]).event == event
                && l.contains_key(r@[j].listener.id) && l[r@[j].listener.id] == r@[j].listener by {
                assert(l.contains_key(entries@[j].0));
            }
            assert forall|k: ActorId| #[trigger] l.contains_key(k) implies exists|j: int|
                0 <= j < r@.len() && (#[trigger] r@[j]).listener == l[k] by {
                let j = choose|j: int| 0 <= j < entries@.len() && #[trigger] entries@[j].0 == k;
                assert(r@[j].listener == entries@[j].1);
            }
            assert forall|a: int, b: int| 0 <= a < b < r@.len() implies (#[trigger] r@[a]).listener.id
                != (#[trigger] r@[b]).listener.id by {
                assert(l.contains_key(entries@[a].0));
                assert(l.contains_key(entries@[b].0));
            }
        }
        r
    }
}

/// Whether `notes` notify of `event` each actor of `listeners`, once
pub open spec fn spec_notifies_each(
    notes: Seq<PidNotification>,
    listeners: Map<ActorId, ActorCell>,
    event: PidLifecycleEvent,
) -> bool {
    &&& forall|j: int|
        0 <= j < notes.len() ==> (#[trigger] notes[j]).event == event && listeners.contains_key(
            notes[j].listener.id,
        ) && listeners[notes[j].listener.id] == notes[j].listener
    &&& forall|k: ActorId| #[trigger]
        listeners.contains_key(k) ==> exists|j: int|
            0 <= j < notes.len() && (#[trigger] notes[j]).listener == listeners[k]
    &&& forall|a: int, b: int|
        0 <= a < b < notes.len() ==> (#[trigger] notes[a]).listener.id != (
        #[trigger] notes[b]).listener.id
}

/// The text refusing the registration of a process id already alive
pub open spec fn spec_pid_alive_text(id: ActorId) -> Seq<char> {
    "PID "@ + spec_actor_id_text(id) + " already alive"@
}

/// Register the actor `actor` of this node under its identifier `id`, and
/// notify every monitor of its spawn. A remote identifier is not registered
/// (nor refused); an identifier already registered is refused, and nothing
/// changes.
pub fn register_pid(registry: &mut PidRegistry, id: ActorId, actor: ActorCell) -> (r: Result<
    Vec<PidNotification>,
    ActorRegistryErr,
>)
    requires
        old(registry).wf(),
    ensures
        final(registry).wf(),
        final(registry).spec_listeners() == old(registry).spec_listeners(),
        !(id is Local) ==> {
            &&& final(registry).spec_pids() == old(registry).spec_pids()
            &&& r matches Ok(notes) && notes@.len() == 0
        },
        id is Local && old(registry).spec_pids().contains_key(id) ==> {
            &&& final(registry).spec_pids() == old(registry).spec_pids()
            &&& r matches Err(ActorRegistryErr::AlreadyRegistered(text)) && text@
                == spec_pid_alive_text(id)
        },
        id is Local && !old(registry).spec_pids().contains_key(id) ==> {
            &&& final(registry).spec_pids() == old(registry).spec_pids().insert(id, actor)
            &&& r matches Ok(notes) && spec_notifies_each(
                notes@,
                old(registry).spec_listeners(),
                PidLifecycleEvent::Spawn(actor),
            )
        },
{
    if !id.is_local() {
        return Ok(Vec::new());
    }
    if pids_get(&registry.pids, &id).is_some() {
        let mut text = "PID ".to_owned();
        text.append(id.to_string().as_str());
        text.append(" already alive");
        return Err(ActorRegistryErr::AlreadyRegistered(text));
    }
    pids_insert(&mut registry.pids, id, actor);
    Ok(registry.notify(PidLifecycleEvent::Spawn(actor)))
}

/// Unregister the actor of this node with identifier `id`, if registered, and
/// notify every monitor of its termination
pub fn unregister_pid(registry: &mut PidRegistry, id: ActorId) -> (notes: Vec<PidNotification>)
    requires
        old(registry).wf(),
    ensures
        final(registry).wf(),
        final(registry).spec_listeners() == old(registry).spec_listeners(),
        id is Local && old(registry).spec_pids().contains_key(id) ==> {
            &&& final(registry).spec_pids() == old(registry).spec_pids().remove(id)
            &&& spec_notifies_each(
                notes@,
                old(registry).spec_listeners(),
                PidLifecycleEvent::Terminate(old(registry).spec_pids()[id]),
            )
        },
        !(id is Local && old(registry).spec_pids().contains_key(id)) ==> {
            &&& final(registry).spec_pids() == old(registry).spec_pids()
            &&& notes@.len() == 0
        },
{
    if !id.is_local() {
        return Vec::new();
    }
    match pids_remove(&mut registry.pids, &id) {
        Some(cell) => registry.notify(PidLifecycleEvent::Terminate(cell)),
        None => {
            proof {
                assert(registry.spec_pids() =~= old(registry).spec_pids());
            }
            Vec::new()
        },
    }
}

/// Whether some identifier holds `cell`
pub open spec fn spec_holds(m: Map<ActorId, ActorCell>, cell: ActorCell) -> bool {
    exists|k: ActorId| #[trigger] m.contains_key(k) && m[k] == cell
}

/// Every registered actor, each once, in the order the table is walked
pub fn get_all_pids(registry: &PidRegistry) -> (r: Vec<ActorCell>)
    ensures
        r@.len() == registry.spec_pids().dom().len(),
        forall|i: int| 0 <= i < r@.len() ==> spec_holds(registry.spec_pids(), #[trigger] r@[i]),
        forall|k: ActorId| #[trigger]
            registry.spec_pids().contains_key(k) ==> exists|i: int|
                0 <= i < r@.len() && #[trigger] r@[i] == registry.spec_pids()[k],
{
    let entries = pids_entries(&registry.pids);
    let mut r: Vec<ActorCell> = Vec::new();
    let mut i: usize = 0;
    while i < entries.len()
        invariant
            0 <= i <= entries.len(),
            r@.len() == i,
            forall|j: int| 0 <= j < i ==> #[trigger] r@[j] == entries@[j].1,
        decreases entries.len() - i,
    {
        r.push(entries[i].1);
        i = i + 1;
    }
    proof {
        let m = registry.spec_pids();
        assert forall|j: int| 0 <= j < r@.len() implies spec_holds(m, #[trigger] r@[j]) by {
            assert(m.contains_key(entries@[j].0));
        }
        assert forall|k: ActorId| #[trigger] m.contains_key(k) implies exists|j: int|
            0 <= j < r@.len() && #[trigger] r@[j] == m[k] by {
            let j = choose|j: int| 0 <= j < entries@.len() && #[trigger] entries@[j].0 == k;
            assert(r@[j] == entries@[j].1);
        }
        let keys = entries@.map_values(|e: (ActorId, ActorCell)| e.0);
        assert(keys.no_duplicates()) by {
            assert forall|a: int, b: int| 0 <= a < keys.len() && 0 <= b < keys.len() && a != b implies keys[a] != keys[b] by {
                if a < b {
                    assert(entries@[a].0 != entries@[b].0);
                } else {
                    assert(entries@[b].0 != entries@[a].0);
                }
            }
        }
        assert(keys.to_set() =~= m.dom()) by {
            assert forall|k: ActorId| m.dom().contains(k) implies keys.to_set().contains(k) by {
                let j = choose|j: int| 0 <= j < entries@.len() && #[trigger] entries@[j].0 == k;
                assert(keys[j] == k);
            }
            assert forall|k: ActorId| keys.to_set().contains(k) implies m.dom().contains(k) by {
                let j = choose|j: int| 0 <= j < keys.len() && keys[j] == k;
                assert(m.contains_key(entries@[j].0));
            }
        }
        keys.unique_seq_to_set();
    }
    r
}

/// The actor of this node registered under `id`; none for a remote identifier
pub fn where_is_pid(registry: &PidRegistry, id: ActorId) -> (r: Option<ActorCell>)
    ensures
        r == if id is Local && registry.spec_pids().contains_key(id) {
            Some(registry.spec_pids()[id])
        } else {
            None
        },
{
    if id.is_local() {
        pids_get(&registry.pids, &id)
    } else {
        None
    }
}

/// Subscribe `actor` to lifecycle events (once: it is held under its
/// identifier)
pub fn monitor(registry: &mut PidRegistry, actor: ActorCell)
    requires
        old(registry).wf(),
    ensures
        final(registry).wf(),
        final(registry).spec_pids() == old(registry).spec_pids(),
        final(registry).spec_listeners() == old(registry).spec_listeners().insert(actor.id, actor),
{
    pids_insert(&mut registry.listeners, actor.get_id(), actor);
}

/// Unsubscribe the actor `actor` from lifecycle events
pub fn demonitor(registry: &mut PidRegistry, actor: ActorId)
    requires
        old(registry).wf(),
    ensures
        final(registry).wf(),
        final(registry).spec_pids() == old(registry).spec_pids(),
        final(registry).spec_listeners() == old(registry).spec_listeners().remove(actor),
{
    let _ = pids_remove(&mut registry.listeners, &actor);
}

} // verus!
