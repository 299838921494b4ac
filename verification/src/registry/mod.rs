//! The registry of named actors: an actor may be registered under a name,
//! unique in the process, and looked up by it. The registry of process ids,
//! with its lifecycle notifications, is in `pid_registry`.
use vstd::prelude::*;
use dashmap::DashMap;

use crate::actor_ref::ActorCell;
use crate::ActorName;

pub mod pid_registry;

verus! {

/// Errors of the actor registries
#[derive(Debug)]
pub enum ActorRegistryErr {
    /// The name (or process id, described) is already registered
    AlreadyRegistered(ActorName),
}

/// The actors held by a table of names: by name, the actor
pub uninterp spec fn registry_entries(m: DashMap<ActorName, ActorCell>) -> Map<Seq<char>, ActorCell>;

/// `DashMap::new`: an empty table
#[verifier::external_body]
fn names_new() -> (r: DashMap<ActorName, ActorCell>)
    ensures
        registry_entries(r).dom().is_empty(),
{
    DashMap::new()
}

/// `DashMap::insert`: the name now holds the actor
#[verifier::external_body]
fn names_insert(m: &mut DashMap<ActorName, ActorCell>, name: ActorName, actor: ActorCell)
    ensures
        registry_entries(*final(m)) == registry_entries(*old(m)).insert(name@, actor),
{
    m.insert(name, actor);
}

/// `DashMap::remove`: the name's entry is taken out, and its actor given
#[verifier::external_body]
fn names_remove(m: &mut DashMap<ActorName, ActorCell>, name: &ActorName) -> (r: Option<ActorCell>)
    ensures
        registry_entries(*final(m)) == registry_entries(*old(m)).remove(name@),
        r == if registry_entries(*old(m)).contains_key(name@) {
            Some(registry_entries(*old(m))[name@])
        } else {
            None
        },
{
    m.remove(name).map(|entry| entry.1)
}

/// `DashMap::get`: the actor registered under the name, if any
#[verifier::external_body]
fn names_get(m: &DashMap<ActorName, ActorCell>, name: &ActorName) -> (r: Option<ActorCell>)
    ensures
        r == if registry_entries(*m).contains_key(name@) {
            Some(registry_entries(*m)[name@])
        } else {
            None
        },
{
    m.get(name).map(|entry| *entry.value())
}

/// `DashMap::iter`: every registered name, each once, in the table's own order
#[verifier::external_body]
fn names_keys(m: &DashMap<ActorName, ActorCell>) -> (r: Vec<ActorName>)
    ensures
        forall|i: int| 0 <= i < r@.len() ==> registry_entries(*m).contains_key(#[trigger] r@[i]@),
        forall|k: Seq<char>| #[trigger]
            registry_entries(*m).contains_key(k) ==> exists|i: int|
                0 <= i < r@.len() && #[trigger] r@[i]@ == k,
        forall|i: int, j: int| 0 <= i < j < r@.len() ==> r@[i]@ != r@[j]@,
{
    m.iter().map(|entry| entry.key().clone()).collect()
}

/// The registry of named actors
pub struct ActorRegistry {
    names: DashMap<ActorName, ActorCell>,
}

impl ActorRegistry {
    /// The registered actors, by name
    pub closed spec fn spec_names(&self) -> Map<Seq<char>, ActorCell> {
        registry_entries(self.names)
    }

    /// An empty registry
    pub fn new() -> (r: Self)
        ensures
            r.spec_names() == Map::<Seq<char>, ActorCell>::empty(),
    {
        let r = ActorRegistry { names: names_new() };
        proof {
            assert(r.spec_names() =~= Map::empty());
        }
        r
    }
}

/// Register `actor` under `name`. A name already taken is refused, with the
/// name, and the registry is unchanged.
pub fn register(registry: &mut ActorRegistry, name: ActorName, actor: ActorCell) -> (r: Result<
    (),
    ActorRegistryErr,
>)
    ensures
        old(registry).spec_names().contains_key(name@) ==> {
            &&& r matches Err(ActorRegistryErr::AlreadyRegistered(n)) && n@ == name@
            &&& final(registry).spec_names() == old(registry).spec_names()
        },
        !old(registry).spec_names().contains_key(name@) ==> {
            &&& r is Ok
            &&& final(registry).spec_names() == old(registry).spec_names().insert(name@, actor)
        },
{
    if names_get(&registry.names, &name).is_some() {
        return Err(ActorRegistryErr::AlreadyRegistered(name));
    }
    names_insert(&mut registry.names, name, actor);
    Ok(())
}

/// Remove the registration under `name`, if any
pub fn unregister(registry: &mut ActorRegistry, name: ActorName)
    ensures
        final(registry).spec_names() == old(registry).spec_names().remove(name@),
{
    let _ = names_remove(&mut registry.names, &name);
}

/// The actor registered under `name`, if any
pub fn where_is(registry: &ActorRegistry, name: ActorName) -> (r: Option<ActorCell>)
    ensures
        r == if registry.spec_names().contains_key(name@) {
            Some(registry.spec_names()[name@])
        } else {
            None
        },
{
    names_get(&registry.names, &name)
}

/// Every registered name, each once
pub fn registered(registry: &ActorRegistry) -> (r: Vec<ActorName>)
    ensures
        forall|i: int| 0 <= i < r@.len() ==> registry.spec_names().contains_key(#[trigger] r@[i]@),
        forall|k: Seq<char>| #[trigger]
            registry.spec_names().contains_key(k) ==> exists|i: int|
                0 <= i < r@.len() && #[trigger] r@[i]@ == k,
        forall|i: int, j: int| 0 <= i < j < r@.len() ==> r@[i]@ != r@[j]@,
{
    names_keys(&registry.names)
}

/// What a lookup gives back of a registration: once `actor` is registered
/// under a free `name`, the name is found with that actor; once the name is
/// unregistered, it is found no more.
pub proof fn lemma_register_then_where_is(
    before: ActorRegistry,
    registered: ActorRegistry,
    unregistered: ActorRegistry,
    name: Seq<char>,
    actor: ActorCell,
)
    requires
        !before.spec_names().contains_key(name),
        registered.spec_names() == before.spec_names().insert(name, actor),
        unregistered.spec_names() == registered.spec_names().remove(name),
    ensures
        registered.spec_names().contains_key(name),
        registered.spec_names()[name] == actor,
        !unregistered.spec_names().contains_key(name),
        unregistered.spec_names() == before.spec_names(),
{
    assert(unregistered.spec_names() =~= before.spec_names());
}

} // verus!
