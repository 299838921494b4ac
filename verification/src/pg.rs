//! Process groups: named groups of actors within named scopes, from which one
//! actor (dispatch), the whole group (broadcast) or a part of it can be picked
//! to send messages to. Actors can monitor a group, or all the groups of a
//! scope, for changes of membership; each change is returned as notifications
//! for the monitoring actors to receive.
//!
//! The tables live in a `PgState`; a host holds one for the whole process.
use vstd::prelude::*;
use dashmap::DashMap;

use crate::actor_id::ActorId;
use crate::actor_ref::{status_rank, ActorCell};
use crate::{GroupName, ScopeName};
use crate::name_order::{lemma_str_lt_irreflexive, sort_names, spec_named_in, spec_strictly_sorted};

verus! {

/// The scope of groups joined without naming one
pub const DEFAULT_SCOPE: &'static str = "__default_scope__";

/// Scope name under which an actor monitors all scopes
pub const ALL_SCOPES_NOTIFICATION: &'static str = "__world_scope__";

/// Group name under which an actor monitors all the groups of a scope
pub const ALL_GROUPS_NOTIFICATION: &'static str = "__world_group_";

/// A change in a process group's membership
#[derive(Clone, Debug)]
pub enum GroupChangeMessage {
    /// Some actors joined a group: scope, group, actors
    Join(ScopeName, GroupName, Vec<ActorCell>),
    /// Some actors left a group: scope, group, actors
    Leave(ScopeName, GroupName, Vec<ActorCell>),
}

/// Whether `c` is the change `join` (or leave) of `actors` in group `group` of
/// scope `scope`
pub open spec fn spec_change_is(
    c: GroupChangeMessage,
    join: bool,
    scope: Seq<char>,
    group: Seq<char>,
    actors: Seq<ActorCell>,
) -> bool {
    match c {
        GroupChangeMessage::Join(s, g, a) => join && s@ == scope && g@ == group && a@ == actors,
        GroupChangeMessage::Leave(s, g, a) => !join && s@ == scope && g@ == group && a@ == actors,
    }
}

impl GroupChangeMessage {
    /// The group that changed
    pub fn get_group(&self) -> (r: GroupName)
        ensures
            r@ == match *self {
                GroupChangeMessage::Join(_, g, _) => g@,
                GroupChangeMessage::Leave(_, g, _) => g@,
            },
    {
        match self {
            GroupChangeMessage::Join(_, name, _) => name.clone(),
            GroupChangeMessage::Leave(_, name, _) => name.clone(),
        }
    }

    /// The scope in which the group changed
    pub fn get_scope(&self) -> (r: ScopeName)
        ensures
            r@ == match *self {
                GroupChangeMessage::Join(s, _, _) => s@,
                GroupChangeMessage::Leave(s, _, _) => s@,
            },
    {
        match self {
            GroupChangeMessage::Join(scope, _, _) => scope.clone(),
            GroupChangeMessage::Leave(scope, _, _) => scope.clone(),
        }
    }
}

/// The combination of a scope and a group name, which identifies a group
#[derive(Debug, Clone, PartialEq, Eq, Hash, PartialOrd, Ord)]
pub struct ScopeGroupKey {
    scope: ScopeName,
    group: GroupName,
}

impl View for ScopeGroupKey {
    type V = (Seq<char>, Seq<char>);

    closed spec fn view(&self) -> (Seq<char>, Seq<char>) {
        (self.scope@, self.group@)
    }
}

impl ScopeGroupKey {
    /// The key of group `group` in scope `scope`
    fn new(scope: &ScopeName, group: &GroupName) -> (r: Self)
        ensures
            r@ == (scope@, group@),
    {
        ScopeGroupKey { scope: scope.clone(), group: group.clone() }
    }

    /// The key under which the groups of scope `scope` are monitored
    fn world_of(scope: &ScopeName) -> (r: Self)
        ensures
            r@ == (scope@, ALL_GROUPS_NOTIFICATION@),
    {
        ScopeGroupKey { scope: scope.clone(), group: ALL_GROUPS_NOTIFICATION.to_owned() }
    }

    /// The key under which all scopes are monitored
    fn world() -> (r: Self)
        ensures
            r@ == (ALL_SCOPES_NOTIFICATION@, ALL_GROUPS_NOTIFICATION@),
    {
        ScopeGroupKey {
            scope: ALL_SCOPES_NOTIFICATION.to_owned(),
            group: ALL_GROUPS_NOTIFICATION.to_owned(),
        }
    }

    /// The scope
    pub fn get_scope(&self) -> (r: ScopeName)
        ensures
            r@ == self@.0,
    {
        self.scope.clone()
    }

    /// The group
    pub fn get_group(&self) -> (r: GroupName)
        ensures
            r@ == self@.1,
    {
        self.group.clone()
    }
}

/// One process group: its members and the actors monitoring it
#[derive(Clone)]
pub struct GroupState {
    members: Vec<ActorCell>,
    listeners: Vec<ActorCell>,
}

impl View for GroupState {
    type V = (Seq<ActorCell>, Seq<ActorCell>);

    closed spec fn view(&self) -> (Seq<ActorCell>, Seq<ActorCell>) {
        (self.members@, self.listeners@)
    }
}

/// The groups held by a table of groups: by (scope, group), the members and
/// the monitoring actors
pub uninterp spec fn pg_group_states(m: DashMap<ScopeGroupKey, GroupState>) -> Map<
    (Seq<char>, Seq<char>),
    (Seq<ActorCell>, Seq<ActorCell>),
>;

/// The monitors held by a table of scope monitors: by (scope, the all-groups
/// name), the monitoring actors
pub uninterp spec fn pg_world_listeners(m: DashMap<ScopeGroupKey, Vec<ActorCell>>) -> Map<
    (Seq<char>, Seq<char>),
    Seq<ActorCell>,
>;

/// `DashMap::new`: an empty table
#[verifier::external_body]
fn groups_new() -> (r: DashMap<ScopeGroupKey, GroupState>)
    ensures
        pg_group_states(r).dom().is_empty(),
{
    DashMap::new()
}

/// `DashMap::insert`: the key now holds the value (an older value is dropped)
#[verifier::external_body]
fn groups_insert(m: &mut DashMap<ScopeGroupKey, GroupState>, key: ScopeGroupKey, value: GroupState)
    ensures
        pg_group_states(*final(m)) == pg_group_states(*old(m)).insert(key@, value@),
{
    m.insert(key, value);
}

/// `DashMap::remove`: the key's entry is taken out, and its value given
#[verifier::external_body]
fn groups_remove(m: &mut DashMap<ScopeGroupKey, GroupState>, key: &ScopeGroupKey) -> (r: Option<
    GroupState,
>)
    ensures
        pg_group_states(*final(m)) == pg_group_states(*old(m)).remove(key@),
        match r {
            Some(v) => pg_group_states(*old(m)).contains_key(key@) && v@ == pg_group_states(
                *old(m),
            )[key@],
            None => !pg_group_states(*old(m)).contains_key(key@),
        },
{
    m.remove(key).map(|entry| entry.1)
}

/// `DashMap::get`: a copy of the key's value, if any
#[verifier::external_body]
fn groups_get(m: &DashMap<ScopeGroupKey, GroupState>, key: &ScopeGroupKey) -> (r: Option<
    GroupState,
>)
    ensures
        match r {
            Some(v) => pg_group_states(*m).contains_key(key@) && v@ == pg_group_states(*m)[key@],
            None => !pg_group_states(*m).contains_key(key@),
        },
{
    m.get(key).map(|entry| entry.value().clone())
}

/// `DashMap::iter`: a copy of every entry, each once, in the table's own order
#[verifier::external_body]
fn groups_entries(m: &DashMap<ScopeGroupKey, GroupState>) -> (r: Vec<(ScopeGroupKey, GroupState)>)
    ensures
        forall|i: int|
            0 <= i < r@.len() ==> pg_group_states(*m).contains_key(#[trigger] r@[i].0@)
                && r@[i].1@ == pg_group_states(*m)[r@[i].0@],
        forall|k: (Seq<char>, Seq<char>)| #[trigger]
            pg_group_states(*m).contains_key(k) ==> exists|i: int|
                0 <= i < r@.len() && #[trigger] r@[i].0@ == k,
        forall|i: int, j: int| 0 <= i < j < r@.len() ==> r@[i].0@ != r@[j].0@,
{
    m.iter().map(|entry| (entry.key().clone(), entry.value().clone())).collect()
}

/// `DashMap::new`: an empty table
#[verifier::external_body]
fn world_new() -> (r: DashMap<ScopeGroupKey, Vec<ActorCell>>)
    ensures
        pg_world_listeners(r).dom().is_empty(),
{
    DashMap::new()
}

/// `DashMap::insert`: the key now holds the value (an older value is dropped)
#[verifier::external_body]
fn world_insert(m: &mut DashMap<ScopeGroupKey, Vec<ActorCell>>, key: ScopeGroupKey, value: Vec<
    ActorCell,
>)
    ensures
        pg_world_listeners(*final(m)) == pg_world_listeners(*old(m)).insert(key@, value@),
{
    m.insert(key, value);
}

/// `DashMap::remove`: the key's entry is taken out, and its value given
#[verifier::external_body]
fn world_remove(m: &mut DashMap<ScopeGroupKey, Vec<ActorCell>>, key: &ScopeGroupKey) -> (r:
    Option<Vec<ActorCell>>)
    ensures
        pg_world_listeners(*final(m)) == pg_world_listeners(*old(m)).remove(key@),
        match r {
            Some(v) => pg_world_listeners(*old(m)).contains_key(key@) && v@ == pg_world_listeners(
                *old(m),
            )[key@],
            None => !pg_world_listeners(*old(m)).contains_key(key@),
        },
{
    m.remove(key).map(|entry| entry.1)
}

/// `DashMap::get`: a copy of the key's value, if any
#[verifier::external_body]
fn world_get(m: &DashMap<ScopeGroupKey, Vec<ActorCell>>, key: &ScopeGroupKey) -> (r: Option<
    Vec<ActorCell>,
>)
    ensures
        match r {
            Some(v) => pg_world_listeners(*m).contains_key(key@) && v@ == pg_world_listeners(
                *m,
            )[key@],
            None => !pg_world_listeners(*m).contains_key(key@),
        },
{
    m.get(key).map(|entry| entry.value().clone())
}

/// `DashMap::iter`: a copy of every key, each once, in the table's own order
#[verifier::external_body]
fn world_keys(m: &DashMap<ScopeGroupKey, Vec<ActorCell>>) -> (r: Vec<ScopeGroupKey>)
    ensures
        forall|i: int| 0 <= i < r@.len() ==> pg_world_listeners(*m).contains_key(#[trigger] r@[i]@),
        forall|k: (Seq<char>, Seq<char>)| #[trigger]
            pg_world_listeners(*m).contains_key(k) ==> exists|i: int|
                0 <= i < r@.len() && #[trigger] r@[i]@ == k,
{
    m.iter().map(|entry| entry.key().clone()).collect()
}

// ============================ Model ======================= //
/// Whether some cell of `cells` has the identifier `id`
pub open spec fn spec_has_id(cells: Seq<ActorCell>, id: ActorId) -> bool {
    exists|i: int| 0 <= i < cells.len() && #[trigger] cells[i].id == id
}

/// Whether no two cells of `cells` have the same identifier
pub open spec fn spec_distinct_ids(cells: Seq<ActorCell>) -> bool {
    forall|i: int, j: int| 0 <= i < j < cells.len() ==> #[trigger] cells[i].id != #[trigger] cells[j].id
}

/// The position of the cell with identifier `id`
pub open spec fn spec_index_of(cells: Seq<ActorCell>, id: ActorId) -> int {
    choose|i: int| 0 <= i < cells.len() && #[trigger] cells[i].id == id
}

/// The cells with `a` in place of the cell with its identifier, or added last
pub open spec fn spec_upsert(cells: Seq<ActorCell>, a: ActorCell) -> Seq<ActorCell> {
    if spec_has_id(cells, a.id) {
        cells.update(spec_index_of(cells, a.id), a)
    } else {
        cells.push(a)
    }
}

/// The cells with each of `actors` upserted, in order
pub open spec fn spec_upsert_all(cells: Seq<ActorCell>, actors: Seq<ActorCell>) -> Seq<ActorCell>
    decreases actors.len(),
{
    if actors.len() == 0 {
        cells
    } else {
        spec_upsert(spec_upsert_all(cells, actors.drop_last()), actors.last())
    }
}

/// The cells without the cell with identifier `id`
pub open spec fn spec_without(cells: Seq<ActorCell>, id: ActorId) -> Seq<ActorCell> {
    if spec_has_id(cells, id) {
        cells.remove(spec_index_of(cells, id))
    } else {
        cells
    }
}

/// The cells without the cells of each of `actors`'s identifiers
pub open spec fn spec_without_all(cells: Seq<ActorCell>, actors: Seq<ActorCell>) -> Seq<ActorCell>
    decreases actors.len(),
{
    if actors.len() == 0 {
        cells
    } else {
        spec_without(spec_without_all(cells, actors.drop_last()), actors.last().id)
    }
}

/// The actors which may join or monitor: those not stopping
pub open spec fn spec_live(actors: Seq<ActorCell>) -> Seq<ActorCell>
    decreases actors.len(),
{
    if actors.len() == 0 {
        actors
    } else if status_rank(actors.last().status) <= 4 {
        spec_live(actors.drop_last()).push(actors.last())
    } else {
        spec_live(actors.drop_last())
    }
}

/// A notification of a group change for a monitoring actor to receive
pub struct PgNotification {
    /// The monitoring actor
    pub listener: ActorCell,
    /// The change
    pub change: GroupChangeMessage,
}

/// Whether `notes` notify each of `listeners`, in order, of the change `join`
/// (or leave) of `actors` in group `group` of scope `scope`
pub open spec fn spec_notes_for(
    notes: Seq<PgNotification>,
    listeners: Seq<ActorCell>,
    join: bool,
    scope: Seq<char>,
    group: Seq<char>,
    actors: Seq<ActorCell>,
) -> bool {
    &&& notes.len() == listeners.len()
    &&& forall|i: int|
        0 <= i < notes.len() ==> (#[trigger] notes[i]).listener == listeners[i] && spec_change_is(
            notes[i].change,
            join,
            scope,
            group,
            actors,
        )
}

/// The actors monitoring the entry `key` of a table of scope monitors
pub open spec fn spec_world_at(world: Map<(Seq<char>, Seq<char>), Seq<ActorCell>>, key: (
    Seq<char>,
    Seq<char>,
)) -> Seq<ActorCell> {
    if world.contains_key(key) {
        world[key]
    } else {
        Seq::empty()
    }
}

/// The actors monitoring the groups of scope `scope`: those of the scope, then
/// those of all scopes
pub open spec fn spec_watchers(world: Map<(Seq<char>, Seq<char>), Seq<ActorCell>>, scope: Seq<
    char,
>) -> Seq<ActorCell> {
    spec_world_at(world, (scope, ALL_GROUPS_NOTIFICATION@)) + spec_world_at(
        world,
        (ALL_SCOPES_NOTIFICATION@, ALL_GROUPS_NOTIFICATION@),
    )
}

/// The process-group tables: the groups (members and monitors, by scope and
/// group), and the monitors of whole scopes
pub struct PgState {
    map: DashMap<ScopeGroupKey, GroupState>,
    world_listeners: DashMap<ScopeGroupKey, Vec<ActorCell>>,
}

impl PgState {
    /// The groups: by (scope, group), the members and the monitoring actors
    pub closed spec fn spec_groups(&self) -> Map<
        (Seq<char>, Seq<char>),
        (Seq<ActorCell>, Seq<ActorCell>),
    > {
        pg_group_states(self.map)
    }

    /// The monitors of whole scopes: by (scope, the all-groups name), the
    /// monitoring actors
    pub closed spec fn spec_world(&self) -> Map<(Seq<char>, Seq<char>), Seq<ActorCell>> {
        pg_world_listeners(self.world_listeners)
    }

    /// The tables are consistent: within a group no two members, and no two
    /// monitors, have one identifier; a group with neither members nor
    /// monitors is dropped; the same holds of the monitors of scopes.
    pub open spec fn wf(&self) -> bool {
        &&& forall|k: (Seq<char>, Seq<char>)| #[trigger]
            self.spec_groups().contains_key(k) ==> {
                let g = self.spec_groups()[k];
                &&& spec_distinct_ids(g.0)
                &&& spec_distinct_ids(g.1)
                &&& g.0.len() > 0 || g.1.len() > 0
            }
        &&& forall|k: (Seq<char>, Seq<char>)| #[trigger]
            self.spec_world().contains_key(k) ==> spec_distinct_ids(self.spec_world()[k])
                && self.spec_world()[k].len() > 0
    }

    /// Empty tables
    pub fn new() -> (r: Self)
        ensures
            r.wf(),
            r.spec_groups() == Map::<
                (Seq<char>, Seq<char>),
                (Seq<ActorCell>, Seq<ActorCell>),
            >::empty(),
            r.spec_world() == Map::<(Seq<char>, Seq<char>), Seq<ActorCell>>::empty(),
    {
        let r = PgState { map: groups_new(), world_listeners: world_new() };
        proof {
            assert(r.spec_groups() =~= Map::empty());
            assert(r.spec_world() =~= Map::empty());
        }
        r
    }
}

/// Notifications for two lists of monitoring actors, one after the other,
/// notify the two lists joined
proof fn lemma_notes_concat(
    a: Seq<PgNotification>,
    b: Seq<PgNotification>,
    la: Seq<ActorCell>,
    lb: Seq<ActorCell>,
    join: bool,
    scope: Seq<char>,
    group: Seq<char>,
    actors: Seq<ActorCell>,
)
    requires
        spec_notes_for(a, la, join, scope, group, actors),
        spec_notes_for(b, lb, join, scope, group, actors),
    ensures
        spec_notes_for(a + b, la + lb, join, scope, group, actors),
{
    assert forall|i: int| 0 <= i < (a + b).len() implies (#[trigger] (a + b)[i]).listener == (la
        + lb)[i] && spec_change_is((a + b)[i].change, join, scope, group, actors) by {
        if i >= a.len() {
            assert((a + b)[i] == b[i - a.len()]);
        } else {
            assert((a + b)[i] == a[i]);
        }
    }
}

/// Upserting keeps the identifiers distinct, holds the upserted identifier, and
/// keeps every identifier it had
proof fn lemma_upsert(cells: Seq<ActorCell>, a: ActorCell)
    requires
        spec_distinct_ids(cells),
    ensures
        spec_distinct_ids(spec_upsert(cells, a)),
        spec_has_id(spec_upsert(cells, a), a.id),
        spec_upsert(cells, a).len() >= cells.len(),
        spec_upsert(cells, a).len() > 0,
        forall|id: ActorId| spec_has_id(cells, id) ==> spec_has_id(spec_upsert(cells, a), id),
{
    let r = spec_upsert(cells, a);
    if spec_has_id(cells, a.id) {
        let k = spec_index_of(cells, a.id);
        assert(r[k].id == a.id);
        assert forall|id: ActorId| spec_has_id(cells, id) implies spec_has_id(r, id) by {
            let j = choose|j: int| 0 <= j < cells.len() && #[trigger] cells[j].id == id;
            if j == k {
                assert(r[k].id == id);
            } else {
                assert(r[j].id == id);
            }
        }
    } else {
        assert(r[cells.len() as int].id == a.id);
        assert forall|id: ActorId| spec_has_id(cells, id) implies spec_has_id(r, id) by {
            let j = choose|j: int| 0 <= j < cells.len() && #[trigger] cells[j].id == id;
            assert(r[j].id == id);
        }
    }
}

/// Upserting all of `actors` keeps the identifiers distinct, holds each of
/// their identifiers, and keeps every identifier the cells had
pub proof fn lemma_upsert_all(cells: Seq<ActorCell>, actors: Seq<ActorCell>)
    requires
        spec_distinct_ids(cells),
    ensures
        spec_distinct_ids(spec_upsert_all(cells, actors)),
        forall|k: int| 0 <= k < actors.len() ==> spec_has_id(spec_upsert_all(cells, actors), #[trigger] actors[k].id),
        actors.len() > 0 ==> spec_upsert_all(cells, actors).len() > 0,
        forall|id: ActorId| spec_has_id(cells, id) ==> spec_has_id(spec_upsert_all(cells, actors), id),
    decreases actors.len(),
{
    if actors.len() > 0 {
        let rest = actors.drop_last();
        lemma_upsert_all(cells, rest);
        lemma_upsert(spec_upsert_all(cells, rest), actors.last());
        assert forall|k: int| 0 <= k < actors.len() implies spec_has_id(spec_upsert_all(cells, actors), #[trigger] actors[k].id) by {
            if k < actors.len() - 1 {
                assert(rest[k] == actors[k]);
            }
        }
    }
}

/// Taking an identifier out keeps the others distinct and absent ones absent,
/// and leaves the identifier absent
proof fn lemma_without(cells: Seq<ActorCell>, id: ActorId)
    requires
        spec_distinct_ids(cells),
    ensures
        spec_distinct_ids(spec_without(cells, id)),
        !spec_has_id(spec_without(cells, id), id),
        forall|x: ActorId| !spec_has_id(cells, x) ==> !spec_has_id(spec_without(cells, id), x),
{
    let r = spec_without(cells, id);
    if spec_has_id(cells, id) {
        let k = spec_index_of(cells, id);
        assert forall|i: int, j: int| 0 <= i < j < r.len() implies #[trigger] r[i].id != #[trigger] r[j].id by {
            let ii = if i < k { i } else { i + 1 };
            let jj = if j < k { j } else { j + 1 };
            assert(r[i] == cells[ii]);
            assert(r[j] == cells[jj]);
        }
        assert forall|i: int| 0 <= i < r.len() implies #[trigger] r[i].id != id by {
            let ii = if i < k { i } else { i + 1 };
            assert(r[i] == cells[ii]);
        }
        assert forall|x: ActorId| !spec_has_id(cells, x) implies !spec_has_id(r, x) by {
            if spec_has_id(r, x) {
                let i = choose|i: int| 0 <= i < r.len() && #[trigger] r[i].id == x;
                let ii = if i < k { i } else { i + 1 };
                assert(r[i] == cells[ii]);
            }
        }
    }
}

/// Taking the identifiers of all of `actors` out keeps the others distinct, and
/// leaves none of them
pub proof fn lemma_without_all(cells: Seq<ActorCell>, actors: Seq<ActorCell>)
    requires
        spec_distinct_ids(cells),
    ensures
        spec_distinct_ids(spec_without_all(cells, actors)),
        forall|k: int| 0 <= k < actors.len() ==> !spec_has_id(spec_without_all(cells, actors), #[trigger] actors[k].id),
    decreases actors.len(),
{
    if actors.len() > 0 {
        let rest = actors.drop_last();
        lemma_without_all(cells, rest);
        lemma_without(spec_without_all(cells, rest), actors.last().id);
        assert forall|k: int| 0 <= k < actors.len() implies !spec_has_id(spec_without_all(cells, actors), #[trigger] actors[k].id) by {
            if k < actors.len() - 1 {
                assert(rest[k] == actors[k]);
            }
        }
    }
}

/// The actors of `actors` which are not stopping, in order
fn live_actors(actors: &Vec<ActorCell>) -> (r: Vec<ActorCell>)
    ensures
        r@ == spec_live(actors@),
{
    let mut r: Vec<ActorCell> = Vec::new();
    let mut i: usize = 0;
    while i < actors.len()
        invariant
            0 <= i <= actors.len(),
            r@ == spec_live(actors@.take(i as int)),
        decreases actors.len() - i,
    {
        let a = actors[i];
        proof {
            assert(actors@.take(i + 1).drop_last() =~= actors@.take(i as int));
            assert(actors@.take(i + 1).last() == a);
        }
        if a.get_status().accepts_relations() {
            r.push(a);
        }
        i = i + 1;
    }
    proof {
        assert(actors@.take(actors.len() as int) =~= actors@);
    }
    r
}

/// The position of the cell with identifier `id`, if any
fn find_id(cells: &Vec<ActorCell>, id: ActorId) -> (r: Option<usize>)
    ensures
        match r {
            Some(i) => i < cells@.len() && cells@[i as int].id == id,
            None => !spec_has_id(cells@, id),
        },
{
    let mut i: usize = 0;
    while i < cells.len()
        invariant
            0 <= i <= cells.len(),
            forall|j: int| 0 <= j < i ==> (#[trigger] cells@[j]).id != id,
        decreases cells.len() - i,
    {
        if cells[i].id == id {
            return Some(i);
        }
        i = i + 1;
    }
    None
}

/// Put `a` in place of the cell with its identifier, or add it last
fn upsert(cells: &mut Vec<ActorCell>, a: ActorCell)
    requires
        spec_distinct_ids(old(cells)@),
    ensures
        final(cells)@ == spec_upsert(old(cells)@, a),
{
    match find_id(cells, a.id) {
        Some(i) => {
            proof {
                assert(spec_has_id(old(cells)@, a.id));
                let k = spec_index_of(old(cells)@, a.id);
                assert(k == i as int);
            }
            cells[i] = a;
        },
        None => {
            cells.push(a);
        },
    }
}

/// Take out the cell with identifier `id`, if any, and give it
fn remove_id(cells: &mut Vec<ActorCell>, id: ActorId) -> (r: Option<ActorCell>)
    requires
        spec_distinct_ids(old(cells)@),
    ensures
        final(cells)@ == spec_without(old(cells)@, id),
        r == if spec_has_id(old(cells)@, id) {
            Some(old(cells)@[spec_index_of(old(cells)@, id)])
        } else {
            None
        },
{
    match find_id(cells, id) {
        Some(i) => {
            proof {
                assert(spec_has_id(old(cells)@, id));
                let k = spec_index_of(old(cells)@, id);
                assert(k == i as int);
            }
            Some(cells.remove(i))
        },
        None => None,
    }
}

/// The change `join` (or leave) of `actors` in group `group` of scope `scope`
fn make_change(join: bool, scope: &ScopeName, group: &GroupName, actors: &Vec<ActorCell>) -> (r:
    GroupChangeMessage)
    ensures
        spec_change_is(r, join, scope@, group@, actors@),
{
    let copied = actors.clone();
    proof {
        assert(copied@ =~= actors@);
    }
    if join {
        GroupChangeMessage::Join(scope.clone(), group.clone(), copied)
    } else {
        GroupChangeMessage::Leave(scope.clone(), group.clone(), copied)
    }
}

/// Notify each of `listeners` of the change `join` (or leave) of `actors` in
/// group `group` of scope `scope`
fn notes_for(
    listeners: &Vec<ActorCell>,
    join: bool,
    scope: &ScopeName,
    group: &GroupName,
    actors: &Vec<ActorCell>,
) -> (r: Vec<PgNotification>)
    ensures
        spec_notes_for(r@, listeners@, join, scope@, group@, actors@),
{
    let mut r: Vec<PgNotification> = Vec::new();
    let mut i: usize = 0;
    while i < listeners.len()
        invariant
            0 <= i <= listeners.len(),
            spec_notes_for(r@, listeners@.take(i as int), join, scope@, group@, actors@),
        decreases listeners.len() - i,
    {
        let change = make_change(join, scope, group, actors);
        r.push(PgNotification { listener: listeners[i], change });
        i = i + 1;
        proof {
            assert forall|j: int| 0 <= j < r@.len() implies (#[trigger] r@[j]).listener
                == listeners@.take(i as int)[j] && spec_change_is(
                r@[j].change,
                join,
                scope@,
                group@,
                actors@,
            ) by {}
        }
    }
    proof {
        assert(listeners@.take(listeners.len() as int) =~= listeners@);
    }
    r
}

impl PgState {
    /// The actors monitoring the entry `key` of the scope monitors
    fn world_at(&self, key: &ScopeGroupKey) -> (r: Vec<ActorCell>)
        ensures
            r@ == spec_world_at(self.spec_world(), key@),
    {
        match world_get(&self.world_listeners, key) {
            Some(listeners) => listeners,
            None => Vec::new(),
        }
    }

    /// Notify the monitors of scope `scope` and of all scopes of the change
    /// `is_join` (or leave) of `actors` in group `group`
    fn notify_world_listeners(
        &self,
        scope: &ScopeName,
        group: &GroupName,
        actors: &Vec<ActorCell>,
        is_join: bool,
    ) -> (r: Vec<PgNotification>)
        ensures
            spec_notes_for(
                r@,
                spec_watchers(self.spec_world(), scope@),
                is_join,
                scope@,
                group@,
                actors@,
            ),
    {
        let mut watchers = self.world_at(&ScopeGroupKey::world_of(scope));
        let mut everywhere = self.world_at(&ScopeGroupKey::world());
        watchers.append(&mut everywhere);
        notes_for(&watchers, is_join, scope, group, actors)
    }
}

// ============================ Membership ======================= //
/// Join `actors` to group `group` of scope `scope` (created on first join).
///
/// Actors which are stopping are left out. Each other actor becomes a member
/// (an actor already a member is kept once, as given last), and the group's
/// monitors, then those of the scope and of all scopes, are notified of the
/// join of all of them, duplicates and actors already joined included. With no
/// actor left to join, nothing changes.
pub fn join_scoped(state: &mut PgState, scope: ScopeName, group: GroupName, actors: Vec<ActorCell>) -> (notes:
    Vec<PgNotification>)
    requires
        old(state).wf(),
    ensures
        final(state).wf(),
        final(state).spec_world() == old(state).spec_world(),
        ({
            let live = spec_live(actors@);
            let key = (scope@, group@);
            let before = if old(state).spec_groups().contains_key(key) {
                old(state).spec_groups()[key]
            } else {
                (Seq::<ActorCell>::empty(), Seq::<ActorCell>::empty())
            };
            if live.len() == 0 {
                &&& final(state).spec_groups() == old(state).spec_groups()
                &&& notes@.len() == 0
            } else {
                &&& final(state).spec_groups() == old(state).spec_groups().insert(
                    key,
                    (spec_upsert_all(before.0, live), before.1),
                )
                &&& spec_notes_for(
                    notes@,
                    before.1 + spec_watchers(old(state).spec_world(), scope@),
                    true,
                    scope@,
                    group@,
                    live,
                )
            }
        }),
{
    let joined = live_actors(&actors);
    if joined.len() == 0 {
        return Vec::new();
    }
    let key = ScopeGroupKey::new(&scope, &group);
    let ghost before = if state.spec_groups().contains_key(key@) {
        state.spec_groups()[key@]
    } else {
        (Seq::<ActorCell>::empty(), Seq::<ActorCell>::empty())
    };
    let mut group_state = match groups_remove(&mut state.map, &key) {
        Some(g) => g,
        None => GroupState { members: Vec::new(), listeners: Vec::new() },
    };
    proof {
        assert(group_state@ == before);
        assert(spec_distinct_ids(group_state.members@));
    }
    let mut i: usize = 0;
    while i < joined.len()
        invariant
            0 <= i <= joined.len(),
            group_state.members@ == spec_upsert_all(before.0, joined@.take(i as int)),
            group_state.listeners@ == before.1,
            spec_distinct_ids(before.0),
            spec_distinct_ids(group_state.members@),
        decreases joined.len() - i,
    {
        proof {
            assert(joined@.take(i + 1).drop_last() =~= joined@.take(i as int));
            lemma_upsert(group_state.members@, joined@[i as int]);
        }
        upsert(&mut group_state.members, joined[i]);
        i = i + 1;
    }
    proof {
        assert(joined@.take(joined.len() as int) =~= joined@);
        lemma_upsert_all(before.0, joined@);
    }
    let listeners = group_state.listeners.clone();
    proof {
        assert(listeners@ =~= before.1);
    }
    let ghost new_members = group_state.members@;
    let ghost key_view = key@;
    groups_insert(&mut state.map, key, group_state);
    proof {
        let g = state.spec_groups();
        assert forall|k: (Seq<char>, Seq<char>)| #[trigger] g.contains_key(k) implies {
            &&& spec_distinct_ids(g[k].0)
            &&& spec_distinct_ids(g[k].1)
            &&& g[k].0.len() > 0 || g[k].1.len() > 0
        } by {
            if k != key_view {
                assert(old(state).spec_groups().contains_key(k));
            } else {
                assert(g[k] == (new_members, before.1));
                if old(state).spec_groups().contains_key(key_view) {
                    assert(spec_distinct_ids(before.1));
                }
            }
        }
        assert(state.spec_world() == old(state).spec_world());
        assert(state.wf());
    }
    let mut notes = notes_for(&listeners, true, &scope, &group, &joined);
    let mut watched = state.notify_world_listeners(&scope, &group, &joined, true);
    proof {
        lemma_notes_concat(
            notes@,
            watched@,
            before.1,
            spec_watchers(state.spec_world(), scope@),
            true,
            scope@,
            group@,
            joined@,
        );
    }
    notes.append(&mut watched);
    notes
}

/// Join `actors` to group `group` of the default scope (see `join_scoped`)
pub fn join(state: &mut PgState, group: GroupName, actors: Vec<ActorCell>) -> (notes: Vec<
    PgNotification,
>)
    requires
        old(state).wf(),
    ensures
        final(state).wf(),
        final(state).spec_world() == old(state).spec_world(),
        ({
            let live = spec_live(actors@);
            let key = (DEFAULT_SCOPE@, group@);
            let before = if old(state).spec_groups().contains_key(key) {
                old(state).spec_groups()[key]
            } else {
                (Seq::<ActorCell>::empty(), Seq::<ActorCell>::empty())
            };
            if live.len() == 0 {
                &&& final(state).spec_groups() == old(state).spec_groups()
                &&& notes@.len() == 0
            } else {
                &&& final(state).spec_groups() == old(state).spec_groups().insert(
                    key,
                    (spec_upsert_all(before.0, live), before.1),
                )
                &&& spec_notes_for(
                    notes@,
                    before.1 + spec_watchers(old(state).spec_world(), DEFAULT_SCOPE@),
                    true,
                    DEFAULT_SCOPE@,
                    group@,
                    live,
                )
            }
        }),
{
    join_scoped(state, DEFAULT_SCOPE.to_owned(), group, actors)
}

/// The members of the group `key`: none when there is no such group
pub open spec fn spec_members(
    groups: Map<(Seq<char>, Seq<char>), (Seq<ActorCell>, Seq<ActorCell>)>,
    key: (Seq<char>, Seq<char>),
) -> Seq<ActorCell> {
    if groups.contains_key(key) {
        groups[key].0
    } else {
        Seq::empty()
    }
}

/// The groups once the group `key` holds `value`: a group with neither
/// members nor monitors is dropped
pub open spec fn spec_put_group(
    groups: Map<(Seq<char>, Seq<char>), (Seq<ActorCell>, Seq<ActorCell>)>,
    key: (Seq<char>, Seq<char>),
    value: (Seq<ActorCell>, Seq<ActorCell>),
) -> Map<(Seq<char>, Seq<char>), (Seq<ActorCell>, Seq<ActorCell>)> {
    if value.0.len() == 0 && value.1.len() == 0 {
        groups.remove(key)
    } else {
        groups.insert(key, value)
    }
}

/// The scope monitors once the entry `key` holds `value`: an entry with no
/// monitor is dropped
pub open spec fn spec_put_world(
    world: Map<(Seq<char>, Seq<char>), Seq<ActorCell>>,
    key: (Seq<char>, Seq<char>),
    value: Seq<ActorCell>,
) -> Map<(Seq<char>, Seq<char>), Seq<ActorCell>> {
    if value.len() == 0 {
        world.remove(key)
    } else {
        world.insert(key, value)
    }
}

impl PgState {
    /// Put group `key` back with `value`, unless it is left with neither
    /// members nor monitors
    fn put_group(&mut self, key: ScopeGroupKey, value: GroupState)
        requires
            old(self).wf(),
            !old(self).spec_groups().contains_key(key@),
            spec_distinct_ids(value@.0),
            spec_distinct_ids(value@.1),
        ensures
            final(self).wf(),
            final(self).spec_groups() == spec_put_group(old(self).spec_groups(), key@, value@),
            final(self).spec_world() == old(self).spec_world(),
    {
        if value.members.len() == 0 && value.listeners.len() == 0 {
            proof {
                assert(old(self).spec_groups().remove(key@) =~= old(self).spec_groups());
                assert(self.wf());
            }
        } else {
            let ghost kv = key@;
            let ghost vv = value@;
            groups_insert(&mut self.map, key, value);
            proof {
                let g = self.spec_groups();
                assert forall|k: (Seq<char>, Seq<char>)| #[trigger] g.contains_key(k) implies {
                    &&& spec_distinct_ids(g[k].0)
                    &&& spec_distinct_ids(g[k].1)
                    &&& g[k].0.len() > 0 || g[k].1.len() > 0
                } by {
                    if k != kv {
                        assert(old(self).spec_groups().contains_key(k));
                    }
                }
                assert(self.spec_world() == old(self).spec_world());
                assert(self.wf());
            }
        }
    }

    /// Put the scope monitors `key` back with `value`, unless it is empty
    fn put_world(&mut self, key: ScopeGroupKey, value: Vec<ActorCell>)
        requires
            old(self).wf(),
            !old(self).spec_world().contains_key(key@),
            spec_distinct_ids(value@),
        ensures
            final(self).wf(),
            final(self).spec_world() == spec_put_world(old(self).spec_world(), key@, value@),
            final(self).spec_groups() == old(self).spec_groups(),
    {
        if value.len() == 0 {
            proof {
                assert(old(self).spec_world().remove(key@) =~= old(self).spec_world());
                assert(self.wf());
            }
        } else {
            let ghost kv = key@;
            world_insert(&mut self.world_listeners, key, value);
            proof {
                let w = self.spec_world();
                assert forall|k: (Seq<char>, Seq<char>)| #[trigger] w.contains_key(k) implies spec_distinct_ids(w[k]) && w[k].len() > 0 by {
                    if k != kv {
                        assert(old(self).spec_world().contains_key(k));
                    }
                }
                assert(self.spec_groups() == old(self).spec_groups());
                assert(self.wf());
            }
        }
    }

    /// Take group `key` out, or an empty group when there is none
    fn take_group(&mut self, key: &ScopeGroupKey) -> (r: GroupState)
        requires
            old(self).wf(),
        ensures
            final(self).wf(),
            final(self).spec_groups() == old(self).spec_groups().remove(key@),
            final(self).spec_world() == old(self).spec_world(),
            r@ == if old(self).spec_groups().contains_key(key@) {
                old(self).spec_groups()[key@]
            } else {
                (Seq::<ActorCell>::empty(), Seq::<ActorCell>::empty())
            },
            spec_distinct_ids(r@.0),
            spec_distinct_ids(r@.1),
    {
        let r = match groups_remove(&mut self.map, key) {
            Some(g) => g,
            None => GroupState { members: Vec::new(), listeners: Vec::new() },
        };
        proof {
            let g = self.spec_groups();
            assert forall|k: (Seq<char>, Seq<char>)| #[trigger] g.contains_key(k) implies {
                &&& spec_distinct_ids(g[k].0)
                &&& spec_distinct_ids(g[k].1)
                &&& g[k].0.len() > 0 || g[k].1.len() > 0
            } by {
                assert(old(self).spec_groups().contains_key(k));
            }
            if old(self).spec_groups().contains_key(key@) {
                assert(old(self).spec_groups().contains_key(key@));
            }
            assert(self.spec_world() == old(self).spec_world());
            assert(self.wf());
        }
        r
    }

    /// Take the scope monitors `key` out, or none when there are none
    fn take_world(&mut self, key: &ScopeGroupKey) -> (r: Vec<ActorCell>)
        requires
            old(self).wf(),
        ensures
            final(self).wf(),
            final(self).spec_world() == old(self).spec_world().remove(key@),
            final(self).spec_groups() == old(self).spec_groups(),
            r@ == spec_world_at(old(self).spec_world(), key@),
            spec_distinct_ids(r@),
    {
        let r = match world_remove(&mut self.world_listeners, key) {
            Some(l) => l,
            None => Vec::new(),
        };
        proof {
            let w = self.spec_world();
            assert forall|k: (Seq<char>, Seq<char>)| #[trigger] w.contains_key(k) implies spec_distinct_ids(w[k]) && w[k].len() > 0 by {
                assert(old(self).spec_world().contains_key(k));
            }
            if old(self).spec_world().contains_key(key@) {
                assert(old(self).spec_world().contains_key(key@));
            }
            assert(self.spec_groups() == old(self).spec_groups());
            assert(self.wf());
        }
        r
    }
}

/// Take `actors` out of group `group` of scope `scope`.
///
/// With no such group nothing happens. Otherwise none of `actors` is a member
/// afterwards (a group left with neither members nor monitors is dropped), and
/// the group's monitors, then those of the scope and of all scopes, are
/// notified of the leave of all of `actors`.
pub fn leave_scoped(state: &mut PgState, scope: ScopeName, group: GroupName, actors: Vec<ActorCell>) -> (notes:
    Vec<PgNotification>)
    requires
        old(state).wf(),
    ensures
        final(state).wf(),
        final(state).spec_world() == old(state).spec_world(),
        ({
            let key = (scope@, group@);
            if !old(state).spec_groups().contains_key(key) {
                &&& final(state).spec_groups() == old(state).spec_groups()
                &&& notes@.len() == 0
            } else {
                let before = old(state).spec_groups()[key];
                &&& final(state).spec_groups() == spec_put_group(
                    old(state).spec_groups(),
                    key,
                    (spec_without_all(before.0, actors@), before.1),
                )
                &&& spec_notes_for(
                    notes@,
                    before.1 + spec_watchers(old(state).spec_world(), scope@),
                    false,
                    scope@,
                    group@,
                    actors@,
                )
            }
        }),
        forall|k: int|
            0 <= k < actors@.len() ==> !spec_has_id(
                spec_members(final(state).spec_groups(), (scope@, group@)),
                #[trigger] actors@[k].id,
            ),
{
    let key = ScopeGroupKey::new(&scope, &group);
    if groups_get(&state.map, &key).is_none() {
        return Vec::new();
    }
    let ghost before = state.spec_groups()[key@];
    let mut group_state = state.take_group(&key);
    let mut i: usize = 0;
    while i < actors.len()
        invariant
            0 <= i <= actors.len(),
            group_state.members@ == spec_without_all(before.0, actors@.take(i as int)),
            group_state.listeners@ == before.1,
            spec_distinct_ids(before.0),
            spec_distinct_ids(before.1),
            spec_distinct_ids(group_state.members@),
        decreases actors.len() - i,
    {
        proof {
            assert(actors@.take(i + 1).drop_last() =~= actors@.take(i as int));
            lemma_without(group_state.members@, actors@[i as int].id);
        }
        remove_id(&mut group_state.members, actors[i].id);
        i = i + 1;
    }
    proof {
        assert(actors@.take(actors.len() as int) =~= actors@);
        lemma_without_all(before.0, actors@);
    }
    let listeners = group_state.listeners.clone();
    proof {
        assert(listeners@ =~= before.1);
    }
    state.put_group(key, group_state);
    let mut notes = notes_for(&listeners, false, &scope, &group, &actors);
    let mut watched = state.notify_world_listeners(&scope, &group, &actors, false);
    proof {
        lemma_notes_concat(
            notes@,
            watched@,
            before.1,
            spec_watchers(state.spec_world(), scope@),
            false,
            scope@,
            group@,
            actors@,
        );
    }
    notes.append(&mut watched);
    notes
}

/// Take `actors` out of group `group` of the default scope (see
/// `leave_scoped`)
pub fn leave(state: &mut PgState, group: GroupName, actors: Vec<ActorCell>) -> (notes: Vec<
    PgNotification,
>)
    requires
        old(state).wf(),
    ensures
        final(state).wf(),
        final(state).spec_world() == old(state).spec_world(),
        ({
            let key = (DEFAULT_SCOPE@, group@);
            if !old(state).spec_groups().contains_key(key) {
                &&& final(state).spec_groups() == old(state).spec_groups()
                &&& notes@.len() == 0
            } else {
                let before = old(state).spec_groups()[key];
                &&& final(state).spec_groups() == spec_put_group(
                    old(state).spec_groups(),
                    key,
                    (spec_without_all(before.0, actors@), before.1),
                )
                &&& spec_notes_for(
                    notes@,
                    before.1 + spec_watchers(old(state).spec_world(), DEFAULT_SCOPE@),
                    false,
                    DEFAULT_SCOPE@,
                    group@,
                    actors@,
                )
            }
        }),
        forall|k: int|
            0 <= k < actors@.len() ==> !spec_has_id(
                spec_members(final(state).spec_groups(), (DEFAULT_SCOPE@, group@)),
                #[trigger] actors@[k].id,
            ),
{
    leave_scoped(state, DEFAULT_SCOPE.to_owned(), group, actors)
}

// ============================ Monitoring ======================= //
/// The monitors with `actor` added, unless one with its identifier is there
pub open spec fn spec_with_listener(listeners: Seq<ActorCell>, actor: ActorCell) -> Seq<ActorCell> {
    if spec_has_id(listeners, actor.id) {
        listeners
    } else {
        listeners.push(actor)
    }
}

/// Add `actor` to the monitors, unless one with its identifier is there
fn add_listener(listeners: &mut Vec<ActorCell>, actor: ActorCell)
    requires
        spec_distinct_ids(old(listeners)@),
    ensures
        final(listeners)@ == spec_with_listener(old(listeners)@, actor),
        spec_distinct_ids(final(listeners)@),
        final(listeners)@.len() > 0,
{
    match find_id(listeners, actor.id) {
        Some(i) => {
            proof {
                assert(spec_has_id(old(listeners)@, actor.id));
            }
        },
        None => {
            listeners.push(actor);
            proof {
                assert forall|i: int, j: int|
                    0 <= i < j < listeners@.len() implies #[trigger] listeners@[i].id
                    != #[trigger] listeners@[j].id by {
                    if j == listeners@.len() - 1 {
                        assert(old(listeners)@[i] == listeners@[i]);
                    }
                }
            }
        },
    }
}

/// Subscribe `actor` to changes of group `group` of the default scope. A
/// stopping actor is not subscribed; an actor subscribes at most once.
pub fn monitor(state: &mut PgState, group: GroupName, actor: ActorCell)
    requires
        old(state).wf(),
    ensures
        final(state).wf(),
        final(state).spec_world() == old(state).spec_world(),
        ({
            let key = (DEFAULT_SCOPE@, group@);
            let before = if old(state).spec_groups().contains_key(key) {
                old(state).spec_groups()[key]
            } else {
                (Seq::<ActorCell>::empty(), Seq::<ActorCell>::empty())
            };
            if status_rank(actor.status) <= 4 {
                final(state).spec_groups() == old(state).spec_groups().insert(
                    key,
                    (before.0, spec_with_listener(before.1, actor)),
                )
            } else {
                final(state).spec_groups() == old(state).spec_groups()
            }
        }),
{
    let key = ScopeGroupKey::new(&DEFAULT_SCOPE.to_owned(), &group);
    if !actor.get_status().accepts_relations() {
        return ;
    }
    let mut group_state = state.take_group(&key);
    add_listener(&mut group_state.listeners, actor);
    state.put_group(key, group_state);
}

/// Subscribe `actor` to changes of every group of scope `scope`. A stopping
/// actor is not subscribed; an actor subscribes at most once.
pub fn monitor_scope(state: &mut PgState, scope: ScopeName, actor: ActorCell)
    requires
        old(state).wf(),
    ensures
        final(state).wf(),
        final(state).spec_groups() == old(state).spec_groups(),
        ({
            let key = (scope@, ALL_GROUPS_NOTIFICATION@);
            if status_rank(actor.status) <= 4 {
                final(state).spec_world() == old(state).spec_world().insert(
                    key,
                    spec_with_listener(spec_world_at(old(state).spec_world(), key), actor),
                )
            } else {
                final(state).spec_world() == old(state).spec_world()
            }
        }),
{
    let key = ScopeGroupKey::world_of(&scope);
    if !actor.get_status().accepts_relations() {
        return ;
    }
    let mut listeners = state.take_world(&key);
    add_listener(&mut listeners, actor);
    state.put_world(key, listeners);
}

/// Unsubscribe the actor `actor` from changes of group `group` of the default
/// scope (a group left with neither members nor monitors is dropped)
pub fn demonitor(state: &mut PgState, group_name: GroupName, actor: ActorId)
    requires
        old(state).wf(),
    ensures
        final(state).wf(),
        final(state).spec_world() == old(state).spec_world(),
        ({
            let key = (DEFAULT_SCOPE@, group_name@);
            if old(state).spec_groups().contains_key(key) {
                let before = old(state).spec_groups()[key];
                final(state).spec_groups() == spec_put_group(
                    old(state).spec_groups(),
                    key,
                    (before.0, spec_without(before.1, actor)),
                )
            } else {
                final(state).spec_groups() == old(state).spec_groups()
            }
        }),
        !spec_has_id(
            if final(state).spec_groups().contains_key((DEFAULT_SCOPE@, group_name@)) {
                final(state).spec_groups()[(DEFAULT_SCOPE@, group_name@)].1
            } else {
                Seq::empty()
            },
            actor,
        ),
{
    let key = ScopeGroupKey::new(&DEFAULT_SCOPE.to_owned(), &group_name);
    if groups_get(&state.map, &key).is_none() {
        return ;
    }
    let mut group_state = state.take_group(&key);
    proof {
        lemma_without(group_state.listeners@, actor);
    }
    remove_id(&mut group_state.listeners, actor);
    state.put_group(key, group_state);
}

/// Unsubscribe the actor `actor` from changes of the groups of scope `scope`
pub fn demonitor_scope(state: &mut PgState, scope: ScopeName, actor: ActorId)
    requires
        old(state).wf(),
    ensures
        final(state).wf(),
        final(state).spec_groups() == old(state).spec_groups(),
        ({
            let key = (scope@, ALL_GROUPS_NOTIFICATION@);
            if old(state).spec_world().contains_key(key) {
                final(state).spec_world() == spec_put_world(
                    old(state).spec_world(),
                    key,
                    spec_without(old(state).spec_world()[key], actor),
                )
            } else {
                final(state).spec_world() == old(state).spec_world()
            }
        }),
        !spec_has_id(
            spec_world_at(final(state).spec_world(), (scope@, ALL_GROUPS_NOTIFICATION@)),
            actor,
        ),
{
    let key = ScopeGroupKey::world_of(&scope);
    if world_get(&state.world_listeners, &key).is_none() {
        return ;
    }
    let mut listeners = state.take_world(&key);
    proof {
        lemma_without(listeners@, actor);
    }
    remove_id(&mut listeners, actor);
    state.put_world(key, listeners);
}

// ============================ Queries ======================= //
/// The cells of actors on this node, in order
pub open spec fn spec_local(cells: Seq<ActorCell>) -> Seq<ActorCell>
    decreases cells.len(),
{
    if cells.len() == 0 {
        cells
    } else if cells.last().id is Local {
        spec_local(cells.drop_last()).push(cells.last())
    } else {
        spec_local(cells.drop_last())
    }
}

/// Whether group `k` exists and has members
pub open spec fn spec_has_members(
    groups: Map<(Seq<char>, Seq<char>), (Seq<ActorCell>, Seq<ActorCell>)>,
    k: (Seq<char>, Seq<char>),
) -> bool {
    groups.contains_key(k) && groups[k].0.len() > 0
}

/// Whether group `k` has members and, when `scope` is given, is in it
pub open spec fn spec_selected(
    groups: Map<(Seq<char>, Seq<char>), (Seq<ActorCell>, Seq<ActorCell>)>,
    k: (Seq<char>, Seq<char>),
    scope: Option<Seq<char>>,
) -> bool {
    spec_has_members(groups, k) && (scope matches Some(s) ==> k.0 == s)
}

/// The scope name (or the group name) of group `k`
pub open spec fn spec_name_of(k: (Seq<char>, Seq<char>), want_scope: bool) -> Seq<char> {
    if want_scope {
        k.0
    } else {
        k.1
    }
}

/// Whether group `k` is selected by `scope` and has the scope (or group) name
/// `name`
pub open spec fn spec_named(
    groups: Map<(Seq<char>, Seq<char>), (Seq<ActorCell>, Seq<ActorCell>)>,
    k: (Seq<char>, Seq<char>),
    scope: Option<Seq<char>>,
    want_scope: bool,
    name: Seq<char>,
) -> bool {
    spec_selected(groups, k, scope) && spec_name_of(k, want_scope) == name
}

/// Whether some group selected by `scope` has the scope (or group) name `name`
pub open spec fn spec_name_listed(
    groups: Map<(Seq<char>, Seq<char>), (Seq<ActorCell>, Seq<ActorCell>)>,
    scope: Option<Seq<char>>,
    want_scope: bool,
    name: Seq<char>,
) -> bool {
    exists|k: (Seq<char>, Seq<char>)| #[trigger] spec_named(groups, k, scope, want_scope, name)
}

/// Whether no name occurs twice
pub open spec fn spec_distinct_names(names: Seq<String>) -> bool {
    forall|i: int, j: int| 0 <= i < j < names.len() ==> #[trigger] names[i]@ != #[trigger] names[j]@
}

/// Whether `names` lists, each once, the scope (or group) names of the groups
/// selected by `scope` (see `spec_selected`)
pub open spec fn spec_lists_names(
    names: Seq<String>,
    groups: Map<(Seq<char>, Seq<char>), (Seq<ActorCell>, Seq<ActorCell>)>,
    want_scope: bool,
    scope: Option<Seq<char>>,
) -> bool {
    &&& spec_distinct_names(names)
    &&& forall|i: int|
        0 <= i < names.len() ==> spec_name_listed(groups, scope, want_scope, (#[trigger] names[i])@)
    &&& forall|k: (Seq<char>, Seq<char>)|
        #[trigger] spec_selected(groups, k, scope) ==> exists|i: int|
            0 <= i < names.len() && (#[trigger] names[i])@ == spec_name_of(k, want_scope)
}

/// Add `name` unless a name equal to it is there; whether it was added
fn push_unique(names: &mut Vec<String>, name: String) -> (pushed: bool)
    requires
        spec_distinct_names(old(names)@),
    ensures
        spec_distinct_names(final(names)@),
        pushed ==> final(names)@ == old(names)@.push(name),
        !pushed ==> final(names)@ == old(names)@ && exists|j: int|
            0 <= j < old(names)@.len() && (#[trigger] old(names)@[j])@ == name@,
{
    let mut i: usize = 0;
    while i < names.len()
        invariant
            0 <= i <= names.len(),
            names@ == old(names)@,
            spec_distinct_names(old(names)@),
            forall|j: int| 0 <= j < i ==> (#[trigger] names@[j])@ != name@,
        decreases names.len() - i,
    {
        if names[i] == name {
            return false;
        }
        i = i + 1;
    }
    names.push(name);
    proof {
        assert forall|a: int, b: int| 0 <= a < b < names@.len() implies #[trigger] names@[a]@
            != #[trigger] names@[b]@ by {
            if b == names@.len() - 1 {
                assert(names@[a] == old(names)@[a]);
            } else {
                assert(names@[a] == old(names)@[a]);
                assert(names@[b] == old(names)@[b]);
            }
        }
    }
    true
}

impl ScopeGroupKey {
    /// A copy of the key
    fn duplicate(&self) -> (r: Self)
        ensures
            r@ == self@,
    {
        ScopeGroupKey { scope: self.scope.clone(), group: self.group.clone() }
    }
}

/// The view of an optional scope name
pub open spec fn spec_scope_view(scope: Option<&ScopeName>) -> Option<Seq<char>> {
    match scope {
        Some(s) => Some(s@),
        None => None,
    }
}

/// Whether an entry of the group table has members and, when `scope` is
/// given, is in it
spec fn spec_pick(entry: (ScopeGroupKey, GroupState), scope: Option<Seq<char>>) -> bool {
    entry.1@.0.len() > 0 && (scope matches Some(s) ==> entry.0@.0 == s)
}

/// The scope (or group) name of an entry, when it has members and, if `scope`
/// is given, is in it
fn picked_name(entry: &(ScopeGroupKey, GroupState), want_scope: bool, scope: Option<&ScopeName>) -> (r:
    Option<String>)
    ensures
        r is Some == spec_pick(*entry, spec_scope_view(scope)),
        r matches Some(n) ==> n@ == spec_name_of(entry.0@, want_scope),
{
    let in_scope = match scope {
        Some(s) => entry.0.scope == *s,
        None => true,
    };
    if entry.1.members.len() > 0 && in_scope {
        if want_scope {
            Some(entry.0.scope.clone())
        } else {
            Some(entry.0.group.clone())
        }
    } else {
        None
    }
}

/// The scope (or group) names of the groups with members, in scope `scope`
/// when it is given, each once
#[verifier::rlimit(60)]
fn collect_names(state: &PgState, want_scope: bool, scope: Option<&ScopeName>) -> (r: Vec<String>)
    ensures
        spec_lists_names(r@, state.spec_groups(), want_scope, spec_scope_view(scope)),
{
    let ghost sv: Option<Seq<char>> = spec_scope_view(scope);
    let ghost groups = state.spec_groups();
    let entries = groups_entries(&state.map);
    let mut r: Vec<String> = Vec::new();
    let ghost mut src: Seq<int> = Seq::empty();
    let mut i: usize = 0;
    while i < entries.len()
        invariant
            0 <= i <= entries.len(),
            sv == spec_scope_view(scope),
            spec_distinct_names(r@),
            src.len() == r@.len(),
            forall|j: int| 0 <= j < src.len() ==> 0 <= #[trigger] src[j] < i,
            forall|j: int|
                #![trigger src[j]]
                #![trigger r@[j]]
                0 <= j < r@.len() ==> spec_pick(entries@[src[j]], sv) && spec_name_of(
                    entries@[src[j]].0@,
                    want_scope,
                ) == r@[j]@,
            forall|e: int|
                0 <= e < i && #[trigger] spec_pick(entries@[e], sv) ==> exists|j: int|
                    0 <= j < r@.len() && (#[trigger] r@[j])@ == spec_name_of(
                        entries@[e].0@,
                        want_scope,
                    ),
        decreases entries.len() - i,
    {
        match picked_name(&entries[i], want_scope, scope) {
            Some(name) => {
                let ghost before = r@;
                let ghost nv = name@;
                let pushed = push_unique(&mut r, name);
                proof {
                    if pushed {
                        src = src.push(i as int);
                        assert(r@[before.len() as int]@ == nv);
                    }
                    assert forall|j: int| 0 <= j < r@.len() implies spec_pick(
                        entries@[src[j]],
                        sv,
                    ) && spec_name_of(entries@[src[j]].0@, want_scope) == (#[trigger] r@[j])@ by {
                        if j < before.len() {
                            assert(r@[j] == before[j]);
                        } else {
                            assert(src[j] == i);
                            assert(r@[j]@ == nv);
                        }
                    }
                    assert forall|e: int|
                        0 <= e < i + 1 && #[trigger] spec_pick(entries@[e], sv) implies exists|j: int|
                        0 <= j < r@.len() && (#[trigger] r@[j])@ == spec_name_of(
                            entries@[e].0@,
                            want_scope,
                        ) by {
                        if e < i {
                            let j = choose|j: int|
                                0 <= j < before.len() && (#[trigger] before[j])@ == spec_name_of(
                                    entries@[e].0@,
                                    want_scope,
                                );
                            assert(r@[j] == before[j]);
                        } else if pushed {
                            assert(r@[before.len() as int]@ == nv);
                        } else {
                            let j = choose|j: int|
                                0 <= j < before.len() && (#[trigger] before[j])@ == nv;
                            assert(r@[j] == before[j]);
                        }
                    }
                }
            },
            None => {},
        }
        i = i + 1;
    }
    proof {
        assert forall|e: int| 0 <= e < entries@.len() implies #[trigger] spec_pick(entries@[e], sv)
            == spec_selected(groups, entries@[e].0@, sv) by {
            assert(groups.contains_key(entries@[e].0@));
        }
        assert forall|j: int| 0 <= j < r@.len() implies spec_name_listed(
            groups,
            sv,
            want_scope,
            (#[trigger] r@[j])@,
        ) by {
            assert(spec_named(groups, entries@[src[j]].0@, sv, want_scope, r@[j]@));
        }
        assert forall|k: (Seq<char>, Seq<char>)| #[trigger] spec_selected(groups, k, sv) implies exists|j: int|
            0 <= j < r@.len() && (#[trigger] r@[j])@ == spec_name_of(k, want_scope) by {
            assert(groups.contains_key(k));
            let e = choose|e: int| 0 <= e < entries@.len() && #[trigger] entries@[e].0@ == k;
            assert(spec_pick(entries@[e], sv));
        }

    }
    r
}

/// The members of group `group` of scope `scope`: none when there is no such
/// group
pub fn get_scoped_members(state: &PgState, scope: &ScopeName, group: &GroupName) -> (r: Vec<
    ActorCell,
>)
    ensures
        r@ == spec_members(state.spec_groups(), (scope@, group@)),
{
    let key = ScopeGroupKey::new(scope, group);
    match groups_get(&state.map, &key) {
        Some(g) => g.members,
        None => Vec::new(),
    }
}

/// The members of group `group` of the default scope
pub fn get_members(state: &PgState, group_name: &GroupName) -> (r: Vec<ActorCell>)
    ensures
        r@ == spec_members(state.spec_groups(), (DEFAULT_SCOPE@, group_name@)),
{
    get_scoped_members(state, &DEFAULT_SCOPE.to_owned(), group_name)
}

/// The members of group `group` of scope `scope` which run on this node
pub fn get_scoped_local_members(state: &PgState, scope: &ScopeName, group: &GroupName) -> (r: Vec<
    ActorCell,
>)
    ensures
        r@ == spec_local(spec_members(state.spec_groups(), (scope@, group@))),
{
    let members = get_scoped_members(state, scope, group);
    let mut r: Vec<ActorCell> = Vec::new();
    let mut i: usize = 0;
    while i < members.len()
        invariant
            0 <= i <= members.len(),
            r@ == spec_local(members@.take(i as int)),
        decreases members.len() - i,
    {
        proof {
            assert(members@.take(i + 1).drop_last() =~= members@.take(i as int));
            assert(members@.take(i + 1).last() == members@[i as int]);
        }
        if members[i].get_id().is_local() {
            r.push(members[i]);
        }
        i = i + 1;
    }
    proof {
        assert(members@.take(members.len() as int) =~= members@);
    }
    r
}

/// The members of group `group` of the default scope which run on this node
pub fn get_local_members(state: &PgState, group: &GroupName) -> (r: Vec<ActorCell>)
    ensures
        r@ == spec_local(spec_members(state.spec_groups(), (DEFAULT_SCOPE@, group@))),
{
    get_scoped_local_members(state, &DEFAULT_SCOPE.to_owned(), group)
}

/// The names of `collect_names`, in strictly increasing order
fn sorted_names(state: &PgState, want_scope: bool, scope: Option<&ScopeName>) -> (r: Vec<String>)
    ensures
        spec_lists_names(r@, state.spec_groups(), want_scope, spec_scope_view(scope)),
        spec_strictly_sorted(r@),
{
    let ghost groups = state.spec_groups();
    let ghost sv = spec_scope_view(scope);
    let v = collect_names(state, want_scope, scope);
    let r = sort_names(v);
    proof {
        assert forall|i: int, j: int| 0 <= i < j < r@.len() implies #[trigger] r@[i]@
            != #[trigger] r@[j]@ by {
            lemma_str_lt_irreflexive(r@[i]@);
        }
        assert forall|i: int| 0 <= i < r@.len() implies spec_name_listed(
            groups,
            sv,
            want_scope,
            (#[trigger] r@[i])@,
        ) by {
            assert(spec_named_in(v@, v@.len() as int, r@[i]@));
            let k = choose|k: int| 0 <= k < v@.len() && (#[trigger] v@[k])@ == r@[i]@;
            assert(spec_name_listed(groups, sv, want_scope, v@[k]@));
        }
        assert forall|k: (Seq<char>, Seq<char>)| #[trigger] spec_selected(groups, k, sv) implies exists|i: int|
            0 <= i < r@.len() && (#[trigger] r@[i])@ == spec_name_of(k, want_scope) by {
            let m = choose|m: int| 0 <= m < v@.len() && (#[trigger] v@[m])@ == spec_name_of(k, want_scope);
            assert(spec_named_in(r@, r@.len() as int, v@[m]@));
        }
    }
    r
}

/// The names of the groups with members, each once (a name used in several
/// scopes is listed once), in increasing order
pub fn which_groups(state: &PgState) -> (r: Vec<GroupName>)
    ensures
        spec_lists_names(r@, state.spec_groups(), false, None),
        spec_strictly_sorted(r@),
{
    sorted_names(state, false, None)
}

/// The names of the groups with members in scope `scope`, each once
pub fn which_scoped_groups(state: &PgState, scope: &ScopeName) -> (r: Vec<GroupName>)
    ensures
        spec_lists_names(r@, state.spec_groups(), false, Some(scope@)),
{
    collect_names(state, false, Some(scope))
}

/// The names of the scopes with a group with members, each once, in
/// increasing order
pub fn which_scopes(state: &PgState) -> (r: Vec<ScopeName>)
    ensures
        spec_lists_names(r@, state.spec_groups(), true, None),
        spec_strictly_sorted(r@),
{
    sorted_names(state, true, None)
}

/// The (scope, group) combinations of the groups with members, each once
#[verifier::rlimit(60)]
pub fn which_scopes_and_groups(state: &PgState) -> (r: Vec<ScopeGroupKey>)
    ensures
        forall|i: int, j: int| 0 <= i < j < r@.len() ==> (#[trigger] r@[i])@ != (#[trigger] r@[j])@,
        forall|i: int| 0 <= i < r@.len() ==> spec_has_members(state.spec_groups(), (#[trigger] r@[i])@),
        forall|k: (Seq<char>, Seq<char>)| #[trigger]
            spec_has_members(state.spec_groups(), k) ==> exists|i: int|
                0 <= i < r@.len() && (#[trigger] r@[i])@ == k,
{
    let ghost groups = state.spec_groups();
    let entries = groups_entries(&state.map);
    let mut r: Vec<ScopeGroupKey> = Vec::new();
    let ghost mut src: Seq<int> = Seq::empty();
    let mut i: usize = 0;
    while i < entries.len()
        invariant
            0 <= i <= entries.len(),
            forall|a: int, b: int|
                0 <= a < b < entries@.len() ==> entries@[a].0@ != entries@[b].0@,
            src.len() == r@.len(),
            forall|j: int| 0 <= j < src.len() ==> 0 <= #[trigger] src[j] < i,
            forall|j: int|
                #![trigger src[j]]
                #![trigger r@[j]]
                0 <= j < r@.len() ==> spec_pick(entries@[src[j]], None) && entries@[src[j]].0@
                    == r@[j]@,
            forall|a: int, b: int| 0 <= a < b < src.len() ==> #[trigger] src[a] < #[trigger] src[b],
            forall|e: int|
                0 <= e < i && #[trigger] spec_pick(entries@[e], None) ==> exists|j: int|
                    0 <= j < r@.len() && (#[trigger] r@[j])@ == entries@[e].0@,
        decreases entries.len() - i,
    {
        if entries[i].1.members.len() > 0 {
            let ghost before = r@;
            let ghost src_before = src;
            r.push(entries[i].0.duplicate());
            proof {
                src = src.push(i as int);
                assert forall|j: int| 0 <= j < before.len() implies spec_pick(
                    entries@[src_before[j]],
                    None,
                ) && entries@[src_before[j]].0@ == (#[trigger] before[j])@ by {}
                assert(spec_pick(entries@[i as int], None));
                assert forall|j: int| 0 <= j < r@.len() implies spec_pick(entries@[src[j]], None)
                    && entries@[src[j]].0@ == (#[trigger] r@[j])@ by {
                    if j < before.len() {
                        assert(r@[j] == before[j]);
                        assert(src[j] == src_before[j]);
                    } else {
                        assert(src[j] == i);
                    }
                }
                assert forall|e: int|
                    0 <= e < i + 1 && #[trigger] spec_pick(entries@[e], None) implies exists|j: int|
                    0 <= j < r@.len() && (#[trigger] r@[j])@ == entries@[e].0@ by {
                    if e < i {
                        let j = choose|j: int|
                            0 <= j < before.len() && (#[trigger] before[j])@ == entries@[e].0@;
                        assert(r@[j] == before[j]);
                    } else {
                        assert(r@[before.len() as int]@ == entries@[e].0@);
                    }
                }
            }
        }
        i = i + 1;
    }
    proof {
        assert forall|e: int| 0 <= e < entries@.len() implies #[trigger] spec_pick(entries@[e], None)
            == spec_has_members(groups, entries@[e].0@) by {
            assert(groups.contains_key(entries@[e].0@));
        }
        assert forall|j: int| 0 <= j < r@.len() implies spec_has_members(groups, (#[trigger] r@[j])@) by {
            assert(spec_has_members(groups, entries@[src[j]].0@));
        }
        assert forall|a: int, b: int| 0 <= a < b < r@.len() implies (#[trigger] r@[a])@ != (
        #[trigger] r@[b])@ by {
            assert(src[a] < src[b]);
        }
        assert forall|k: (Seq<char>, Seq<char>)| #[trigger] spec_has_members(groups, k) implies exists|i: int|
            0 <= i < r@.len() && (#[trigger] r@[i])@ == k by {
            let e = choose|e: int| 0 <= e < entries@.len() && #[trigger] entries@[e].0@ == k;
            assert(spec_pick(entries@[e], None));
        }
    }
    r
}

// ============================ Leaving everything ======================= //
/// Whether the actor's departure drops group `g`: the actor was a member, and
/// the group is left with neither members nor monitors
pub open spec fn spec_departure_drops(g: (Seq<ActorCell>, Seq<ActorCell>), actor: ActorId) -> bool {
    spec_has_id(g.0, actor) && spec_without(g.0, actor).len() == 0 && g.1.len() == 0
}

/// The groups once the actor has left those of `done` it was a member of
pub open spec fn spec_left_in(
    groups: Map<(Seq<char>, Seq<char>), (Seq<ActorCell>, Seq<ActorCell>)>,
    actor: ActorId,
    done: Set<(Seq<char>, Seq<char>)>,
) -> Map<(Seq<char>, Seq<char>), (Seq<ActorCell>, Seq<ActorCell>)> {
    Map::new(
        |k: (Seq<char>, Seq<char>)|
            groups.contains_key(k) && !(done.contains(k) && spec_departure_drops(groups[k], actor)),
        |k: (Seq<char>, Seq<char>)|
            if done.contains(k) && spec_has_id(groups[k].0, actor) {
                (spec_without(groups[k].0, actor), groups[k].1)
            } else {
                groups[k]
            },
    )
}

/// Whether `notes` notify, group after group of `order`, each group's
/// monitors then those of its scope and of all scopes, of the leave of the
/// actor's cell
pub open spec fn spec_leave_all_notes(
    notes: Seq<PgNotification>,
    order: Seq<(Seq<char>, Seq<char>)>,
    groups: Map<(Seq<char>, Seq<char>), (Seq<ActorCell>, Seq<ActorCell>)>,
    world: Map<(Seq<char>, Seq<char>), Seq<ActorCell>>,
    actor: ActorId,
) -> bool
    decreases order.len(),
{
    if order.len() == 0 {
        notes.len() == 0
    } else {
        let k = order.last();
        let g = groups[k];
        let listeners = g.1 + spec_watchers(world, k.0);
        let cell = g.0[spec_index_of(g.0, actor)];
        let n = notes.len() - listeners.len();
        &&& n >= 0
        &&& spec_notes_for(notes.subrange(n, notes.len() as int), listeners, false, k.0, k.1, seq![cell])
        &&& spec_leave_all_notes(notes.subrange(0, n), order.drop_last(), groups, world, actor)
    }
}

/// Take the actor `actor` out of every group it is a member of (the actor is
/// shutting down). A group left with neither members nor monitors is dropped.
/// For each group left, in the order the group table is walked, the group's
/// monitors, then those of its scope and of all scopes, are notified of the
/// leave of the actor's cell.
#[verifier::rlimit(60)]
pub fn leave_all(state: &mut PgState, actor: ActorId) -> (notes: Vec<PgNotification>)
    requires
        old(state).wf(),
    ensures
        final(state).wf(),
        final(state).spec_world() == old(state).spec_world(),
        final(state).spec_groups() == spec_left_in(
            old(state).spec_groups(),
            actor,
            old(state).spec_groups().dom(),
        ),
        exists|order: Seq<(Seq<char>, Seq<char>)>|
            {
                &&& order.no_duplicates()
                &&& forall|k: (Seq<char>, Seq<char>)| #[trigger]
                    order.contains(k) == (old(state).spec_groups().contains_key(k) && spec_has_id(
                        old(state).spec_groups()[k].0,
                        actor,
                    ))
                &&& spec_leave_all_notes(
                    notes@,
                    order,
                    old(state).spec_groups(),
                    old(state).spec_world(),
                    actor,
                )
            },
{
    let ghost groups = state.spec_groups();
    let ghost world = state.spec_world();
    let entries = groups_entries(&state.map);
    let mut notes: Vec<PgNotification> = Vec::new();
    let ghost mut done: Set<(Seq<char>, Seq<char>)> = Set::empty();
    let ghost mut order: Seq<(Seq<char>, Seq<char>)> = Seq::empty();
    let mut i: usize = 0;
    proof {
        assert(spec_left_in(groups, actor, done) =~= groups);
    }
    while i < entries.len()
        invariant
            0 <= i <= entries.len(),
            groups == old(state).spec_groups(),
            world == old(state).spec_world(),
            old(state).wf(),
            state.wf(),
            state.spec_world() == world,
            forall|e: int|
                0 <= e < entries@.len() ==> groups.contains_key(#[trigger] entries@[e].0@)
                    && entries@[e].1@ == groups[entries@[e].0@],
            forall|a: int, b: int|
                0 <= a < b < entries@.len() ==> entries@[a].0@ != entries@[b].0@,
            forall|k: (Seq<char>, Seq<char>)| #[trigger]
                done.contains(k) == exists|e: int| 0 <= e < i && #[trigger] entries@[e].0@ == k,
            state.spec_groups() == spec_left_in(groups, actor, done),
            order.no_duplicates(),
            forall|k: (Seq<char>, Seq<char>)| #[trigger]
                order.contains(k) == (done.contains(k) && groups.contains_key(k) && spec_has_id(
                    groups[k].0,
                    actor,
                )),
            spec_leave_all_notes(notes@, order, groups, world, actor),
        decreases entries.len() - i,
    {
        let ghost kv = entries@[i as int].0@;
        proof {
            assert(!done.contains(kv)) by {
                if done.contains(kv) {
                    let e = choose|e: int| 0 <= e < i && #[trigger] entries@[e].0@ == kv;
                    assert(entries@[e].0@ != entries@[i as int].0@);
                }
            }
        }
        let member = find_id(&entries[i].1.members, actor);
        if member.is_some() {
            let key = entries[i].0.duplicate();
            let mut group_state = state.take_group(&key);
            proof {
                assert(groups.contains_key(kv));
                assert(group_state@ == groups[kv]);
                assert(spec_has_id(groups[kv].0, actor));
                lemma_without(group_state.members@, actor);
            }
            let cell = remove_id(&mut group_state.members, actor);
            let cell = cell.unwrap();
            let listeners = group_state.listeners.clone();
            proof {
                assert(listeners@ =~= groups[kv].1);
            }
            let scope = key.get_scope();
            let group = key.get_group();
            state.put_group(key, group_state);
            let departed = vec![cell];
            let mut block = notes_for(&listeners, false, &scope, &group, &departed);
            let mut watched = state.notify_world_listeners(&scope, &group, &departed, false);
            proof {
                lemma_notes_concat(
                    block@,
                    watched@,
                    groups[kv].1,
                    spec_watchers(world, kv.0),
                    false,
                    scope@,
                    group@,
                    departed@,
                );
            }
            block.append(&mut watched);
            let ghost before = notes@;
            notes.append(&mut block);
            proof {
                let new_order = order.push(kv);
                let listeners_all = groups[kv].1 + spec_watchers(world, kv.0);
                assert(departed@ =~= seq![groups[kv].0[spec_index_of(groups[kv].0, actor)]]);
                assert(new_order.last() == kv);
                assert(new_order.drop_last() =~= order);
                let n = notes@.len() - listeners_all.len();
                assert(n == before.len());
                assert(notes@.subrange(n, notes@.len() as int) =~= notes@.skip(before.len() as int));
                assert(notes@.subrange(0, n) =~= before);
                assert(spec_leave_all_notes(notes@, new_order, groups, world, actor));
                assert(!order.contains(kv));
                assert forall|k: (Seq<char>, Seq<char>)| #[trigger] new_order.contains(k) == (
                order.contains(k) || k == kv) by {
                    if order.contains(k) {
                        let j = choose|j: int| 0 <= j < order.len() && order[j] == k;
                        assert(new_order[j] == k);
                    }
                    if k == kv {
                        assert(new_order[order.len() as int] == kv);
                    }
                    if new_order.contains(k) && k != kv {
                        let j = choose|j: int| 0 <= j < new_order.len() && new_order[j] == k;
                        assert(order[j] == k);
                    }
                }
                order = new_order;
                done = done.insert(kv);
                assert(state.spec_groups() =~= spec_left_in(groups, actor, done));
            }
        } else {
            proof {
                assert(!spec_has_id(groups[kv].0, actor));
                done = done.insert(kv);
                assert(state.spec_groups() =~= spec_left_in(groups, actor, done));
            }
        }
        i = i + 1;
    }
    proof {
        assert(done =~= groups.dom()) by {
            assert forall|k: (Seq<char>, Seq<char>)| groups.contains_key(k) implies #[trigger] done.contains(k) by {
                let e = choose|e: int| 0 <= e < entries@.len() && #[trigger] entries@[e].0@ == k;
                assert(entries@[e].0@ == k);
            }
        }
    }
    notes
}

/// Whether the actor's unsubscription drops group `g`: the actor was a
/// monitor, and the group is left with neither members nor monitors
pub open spec fn spec_unsubscribe_drops(g: (Seq<ActorCell>, Seq<ActorCell>), actor: ActorId) -> bool {
    spec_has_id(g.1, actor) && g.0.len() == 0 && spec_without(g.1, actor).len() == 0
}

/// The groups once the actor has stopped monitoring those of `done`
pub open spec fn spec_unsubscribed_in(
    groups: Map<(Seq<char>, Seq<char>), (Seq<ActorCell>, Seq<ActorCell>)>,
    actor: ActorId,
    done: Set<(Seq<char>, Seq<char>)>,
) -> Map<(Seq<char>, Seq<char>), (Seq<ActorCell>, Seq<ActorCell>)> {
    Map::new(
        |k: (Seq<char>, Seq<char>)|
            groups.contains_key(k) && !(done.contains(k) && spec_unsubscribe_drops(groups[k], actor)),
        |k: (Seq<char>, Seq<char>)|
            if done.contains(k) && spec_has_id(groups[k].1, actor) {
                (groups[k].0, spec_without(groups[k].1, actor))
            } else {
                groups[k]
            },
    )
}

/// The scope monitors once the actor has stopped monitoring those of `done`
pub open spec fn spec_unwatched_in(
    world: Map<(Seq<char>, Seq<char>), Seq<ActorCell>>,
    actor: ActorId,
    done: Set<(Seq<char>, Seq<char>)>,
) -> Map<(Seq<char>, Seq<char>), Seq<ActorCell>> {
    Map::new(
        |k: (Seq<char>, Seq<char>)|
            world.contains_key(k) && !(done.contains(k) && spec_has_id(world[k], actor)
                && spec_without(world[k], actor).len() == 0),
        |k: (Seq<char>, Seq<char>)|
            if done.contains(k) {
                spec_without(world[k], actor)
            } else {
                world[k]
            },
    )
}

/// Stop the actor `actor` from monitoring any group or scope (the actor is
/// shutting down). A group left with neither members nor monitors, and a scope
/// left with no monitor, is dropped.
#[verifier::rlimit(60)]
pub fn demonitor_all(state: &mut PgState, actor: ActorId)
    requires
        old(state).wf(),
    ensures
        final(state).wf(),
        final(state).spec_groups() == spec_unsubscribed_in(
            old(state).spec_groups(),
            actor,
            old(state).spec_groups().dom(),
        ),
        final(state).spec_world() == spec_unwatched_in(
            old(state).spec_world(),
            actor,
            old(state).spec_world().dom(),
        ),
{
    let ghost groups = state.spec_groups();
    let ghost world = state.spec_world();
    let entries = groups_entries(&state.map);
    let ghost mut done: Set<(Seq<char>, Seq<char>)> = Set::empty();
    let mut i: usize = 0;
    proof {
        assert(spec_unsubscribed_in(groups, actor, done) =~= groups);
    }
    while i < entries.len()
        invariant
            0 <= i <= entries.len(),
            groups == old(state).spec_groups(),
            world == old(state).spec_world(),
            state.wf(),
            state.spec_world() == world,
            forall|e: int|
                0 <= e < entries@.len() ==> groups.contains_key(#[trigger] entries@[e].0@)
                    && entries@[e].1@ == groups[entries@[e].0@],
            forall|a: int, b: int|
                0 <= a < b < entries@.len() ==> entries@[a].0@ != entries@[b].0@,
            forall|k: (Seq<char>, Seq<char>)| #[trigger]
                done.contains(k) == exists|e: int| 0 <= e < i && #[trigger] entries@[e].0@ == k,
            state.spec_groups() == spec_unsubscribed_in(groups, actor, done),
        decreases entries.len() - i,
    {
        let ghost kv = entries@[i as int].0@;
        proof {
            assert(!done.contains(kv)) by {
                if done.contains(kv) {
                    let e = choose|e: int| 0 <= e < i && #[trigger] entries@[e].0@ == kv;
                    assert(entries@[e].0@ != entries@[i as int].0@);
                }
            }
        }
        if find_id(&entries[i].1.listeners, actor).is_some() {
            let key = entries[i].0.duplicate();
            let mut group_state = state.take_group(&key);
            proof {
                assert(groups.contains_key(kv));
                assert(group_state@ == groups[kv]);
            }
            remove_id(&mut group_state.listeners, actor);
            state.put_group(key, group_state);
        } else {
            proof {
                assert(!spec_has_id(groups[kv].1, actor));
            }
        }
        proof {
            done = done.insert(kv);
            assert(state.spec_groups() =~= spec_unsubscribed_in(groups, actor, done));
        }
        i = i + 1;
    }
    proof {
        assert(done =~= groups.dom()) by {
            assert forall|k: (Seq<char>, Seq<char>)| groups.contains_key(k) implies #[trigger] done.contains(k) by {
                let e = choose|e: int| 0 <= e < entries@.len() && #[trigger] entries@[e].0@ == k;
                assert(entries@[e].0@ == k);
            }
        }
    }
    let ghost mid_groups = state.spec_groups();
    let keys = world_keys(&state.world_listeners);
    let ghost mut wdone: Set<(Seq<char>, Seq<char>)> = Set::empty();
    let mut j: usize = 0;
    proof {
        assert(spec_unwatched_in(world, actor, wdone) =~= world);
    }
    while j < keys.len()
        invariant
            0 <= j <= keys.len(),
            world == old(state).spec_world(),
            old(state).wf(),
            state.wf(),
            state.spec_groups() == mid_groups,
            forall|e: int| 0 <= e < keys@.len() ==> world.contains_key(#[trigger] keys@[e]@),
            forall|k: (Seq<char>, Seq<char>)| #[trigger]
                world.contains_key(k) ==> exists|e: int| 0 <= e < keys@.len() && #[trigger] keys@[e]@ == k,
            forall|k: (Seq<char>, Seq<char>)| #[trigger]
                wdone.contains(k) == exists|e: int| 0 <= e < j && #[trigger] keys@[e]@ == k,
            state.spec_world() == spec_unwatched_in(world, actor, wdone),
        decreases keys.len() - j,
    {
        let ghost kv = keys@[j as int]@;
        proof {
            assert(world.contains_key(kv));
            assert(spec_distinct_ids(world[kv]));
            lemma_without(world[kv], actor);
            if !spec_has_id(world[kv], actor) {
                assert(spec_without(world[kv], actor) == world[kv]);
            }
        }
        let key = keys[j].duplicate();
        let current = world_get(&state.world_listeners, &key);
        match current {
            Some(listeners) => {
                if find_id(&listeners, actor).is_some() {
                    let mut taken = state.take_world(&key);
                    remove_id(&mut taken, actor);
                    state.put_world(key, taken);
                }
            },
            None => {},
        }
        proof {
            wdone = wdone.insert(kv);
            assert(state.spec_world() =~= spec_unwatched_in(world, actor, wdone));
        }
        j = j + 1;
    }
    proof {
        assert(wdone =~= world.dom()) by {
            assert forall|k: (Seq<char>, Seq<char>)| world.contains_key(k) implies #[trigger] wdone.contains(k) by {
                let e = choose|e: int| 0 <= e < keys@.len() && #[trigger] keys@[e]@ == k;
                assert(keys@[e]@ == k);
            }
        }
    }
}

} // verus!
