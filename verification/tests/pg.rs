use ractor::pg::{self, GroupChangeMessage, PgState};
use ractor::{ActorCell, ActorId, ActorStatus};

fn cell(pid: u64) -> ActorCell {
    ActorCell { id: ActorId::Local(pid), status: ActorStatus::Running }
}

fn remote(node: u64, pid: u64) -> ActorCell {
    ActorCell { id: ActorId::Remote { node_id: node, pid }, status: ActorStatus::Running }
}

fn ids(cells: &[ActorCell]) -> Vec<ActorId> {
    let mut v: Vec<ActorId> = cells.iter().map(|c| c.id).collect();
    v.sort_by_key(|id| (id.is_local(), id.pid()));
    v
}

#[test]
fn test_idempotent_membership_calls_preserve_notification_payloads() {
    let mut state = PgState::new();
    let group = "test_idempotent_membership_calls_preserve_notification_payloads".to_string();
    let listener = cell(1);
    let member = cell(2);

    pg::monitor(&mut state, group.clone(), listener);
    let mut notes = pg::join(&mut state, group.clone(), vec![member, member]);
    notes.extend(pg::join(&mut state, group.clone(), vec![member]));

    assert_eq!(2, notes.len());
    let first_join = &notes[0];
    assert_eq!(listener.id, first_join.listener.id);
    assert!(matches!(
        &first_join.change,
        GroupChangeMessage::Join(_, _, actors)
            if actors.len() == 2 && actors.iter().all(|actor| actor.get_id() == member.get_id())
    ));
    let second_join = &notes[1];
    assert!(matches!(
        &second_join.change,
        GroupChangeMessage::Join(_, _, actors)
            if actors.len() == 1 && actors[0].get_id() == member.get_id()
    ));

    let mut notes = pg::leave(&mut state, group.clone(), vec![member, member]);
    notes.extend(pg::leave(&mut state, group, vec![member]));

    assert_eq!(2, notes.len());
    let first_leave = &notes[0];
    assert!(matches!(
        &first_leave.change,
        GroupChangeMessage::Leave(_, _, actors)
            if actors.len() == 2 && actors.iter().all(|actor| actor.get_id() == member.get_id())
    ));
    let second_leave = &notes[1];
    assert!(matches!(
        &second_leave.change,
        GroupChangeMessage::Leave(_, _, actors)
            if actors.len() == 1 && actors[0].get_id() == member.get_id()
    ));
}

#[test]
fn join_then_get_members_then_leave() {
    let mut state = PgState::new();
    let group = "g".to_string();
    let notes = pg::join(&mut state, group.clone(), vec![cell(1), cell(2), cell(1)]);
    assert!(notes.is_empty());
    assert_eq!(vec![ActorId::Local(1), ActorId::Local(2)], ids(&pg::get_members(&state, &group)));

    pg::leave(&mut state, group.clone(), vec![cell(1)]);
    assert_eq!(vec![ActorId::Local(2)], ids(&pg::get_members(&state, &group)));
    pg::leave(&mut state, group.clone(), vec![cell(2)]);
    assert!(pg::get_members(&state, &group).is_empty());
    assert!(pg::which_groups(&state).is_empty());
}

#[test]
fn stopped_actor_is_not_inserted() {
    let mut state = PgState::new();
    let group = "stopped".to_string();
    let stopped = ActorCell { id: ActorId::Local(9), status: ActorStatus::Stopped };
    pg::join(&mut state, group.clone(), vec![stopped]);
    assert_eq!(0, pg::get_members(&state, &group).len());
}

#[test]
fn groups_in_named_scopes() {
    let mut state = PgState::new();
    let scope = "scope".to_string();
    let group = "group".to_string();
    pg::join_scoped(&mut state, scope.clone(), group.clone(), vec![cell(1)]);
    assert_eq!(1, pg::get_scoped_members(&state, &scope, &group).len());
    assert!(pg::get_members(&state, &group).is_empty());
    assert_eq!(vec![group.clone()], pg::which_scoped_groups(&state, &scope));
    assert_eq!(vec![scope.clone()], pg::which_scopes(&state));
    let keys = pg::which_scopes_and_groups(&state);
    assert_eq!(1, keys.len());
    assert_eq!(scope, keys[0].get_scope());
    assert_eq!(group, keys[0].get_group());
}

#[test]
fn which_groups_lists_each_name_once() {
    let mut state = PgState::new();
    pg::join_scoped(&mut state, "a".to_string(), "g1".to_string(), vec![cell(1)]);
    pg::join_scoped(&mut state, "b".to_string(), "g1".to_string(), vec![cell(2)]);
    pg::join(&mut state, "g2".to_string(), vec![cell(3)]);
    let groups = pg::which_groups(&state);
    assert_eq!(vec!["g1".to_string(), "g2".to_string()], groups);
    let scopes = pg::which_scopes(&state);
    assert_eq!(
        vec!["__default_scope__".to_string(), "a".to_string(), "b".to_string()],
        scopes
    );
}

#[test]
fn local_vs_remote_members() {
    let mut state = PgState::new();
    let group = "mixed".to_string();
    pg::join(&mut state, group.clone(), vec![cell(1), remote(7, 1), remote(7, 2)]);
    assert_eq!(3, pg::get_members(&state, &group).len());
    assert_eq!(vec![ActorId::Local(1)], ids(&pg::get_local_members(&state, &group)));
}

#[test]
fn scope_monitors_are_notified_once_and_can_unsubscribe() {
    let mut state = PgState::new();
    let scope = "watched".to_string();
    let watcher = cell(50);
    pg::monitor_scope(&mut state, scope.clone(), watcher);
    pg::monitor_scope(&mut state, scope.clone(), watcher);
    let notes = pg::join_scoped(&mut state, scope.clone(), "g".to_string(), vec![cell(1)]);
    assert_eq!(1, notes.len());
    assert_eq!(watcher.id, notes[0].listener.id);
    assert_eq!("watched".to_string(), notes[0].change.get_scope());
    assert_eq!("g".to_string(), notes[0].change.get_group());

    pg::demonitor_scope(&mut state, scope.clone(), watcher.id);
    let notes = pg::join_scoped(&mut state, scope, "g".to_string(), vec![cell(2)]);
    assert!(notes.is_empty());
}

#[test]
fn group_monitor_can_unsubscribe() {
    let mut state = PgState::new();
    let group = "m".to_string();
    pg::monitor(&mut state, group.clone(), cell(10));
    assert_eq!(1, pg::join(&mut state, group.clone(), vec![cell(1)]).len());
    pg::demonitor(&mut state, group.clone(), ActorId::Local(10));
    assert!(pg::join(&mut state, group, vec![cell(2)]).is_empty());
}

#[test]
fn leaving_everything_on_shutdown() {
    let mut state = PgState::new();
    let departing = cell(1);
    let remaining = cell(2);
    pg::join(&mut state, "shared".to_string(), vec![departing, remaining]);
    pg::join_scoped(&mut state, "s".to_string(), "only".to_string(), vec![departing]);
    pg::monitor(&mut state, "shared".to_string(), cell(3));
    let notes = pg::leave_all(&mut state, departing.id);
    // the monitor of the shared group hears of the departure
    assert_eq!(1, notes.len());
    assert_eq!(ActorId::Local(3), notes[0].listener.id);
    assert_eq!(vec![ActorId::Local(2)], ids(&pg::get_members(&state, &"shared".to_string())));
    assert!(pg::get_scoped_members(&state, &"s".to_string(), &"only".to_string()).is_empty());
    pg::demonitor_all(&mut state, ActorId::Local(3));
    assert!(pg::leave(&mut state, "shared".to_string(), vec![remaining]).is_empty());
}

#[test]
fn test_actor_leaves_pg_group_manually() {
    let mut state = PgState::new();
    let group = "test_actor_leaves_pg_group_manually".to_string();
    let actor = cell(41);

    pg::join(&mut state, group.clone(), vec![actor]);
    assert!(pg::which_groups(&state).contains(&group));
    assert_eq!(1, pg::get_members(&state, &group).len());

    pg::leave(&mut state, group.clone(), vec![actor]);
    assert!(!pg::which_groups(&state).contains(&group));
    assert!(!pg::which_scoped_groups(&state, &group).contains(&group));
    assert!(!pg::which_scoped_groups(&state, &pg::DEFAULT_SCOPE.to_string()).contains(&group));
    assert_eq!(0, pg::get_members(&state, &group).len());
}

#[test]
fn test_multiple_groups_in_multiple_scopes() {
    let mut state = PgState::new();
    let scope_a = "test_multiple_groups_in_multiple_scopes_b".to_string();
    let scope_b = "test_multiple_groups_in_multiple_scopes_b".to_string();
    let group_a = "test_multiple_groups_in_multiple_scopes_a".to_string();
    let group_b = "test_multiple_groups_in_multiple_scopes_b".to_string();
    let first: Vec<ActorCell> = (0..5).map(cell).collect();
    let second: Vec<ActorCell> = (5..10).map(cell).collect();

    pg::join_scoped(&mut state, scope_a.clone(), group_a.clone(), first.clone());
    pg::join_scoped(&mut state, scope_a.clone(), group_b.clone(), second.clone());
    pg::join_scoped(&mut state, scope_b.clone(), group_a.clone(), first);
    pg::join_scoped(&mut state, scope_b.clone(), group_b.clone(), second);

    assert_eq!(5, pg::get_scoped_members(&state, &scope_a, &group_a).len());
    assert_eq!(5, pg::get_scoped_members(&state, &scope_a, &group_b).len());
    assert_eq!(5, pg::get_scoped_members(&state, &scope_b, &group_a).len());
    assert_eq!(5, pg::get_scoped_members(&state, &scope_b, &group_b).len());
    assert!(pg::get_scoped_members(&state, &scope_a, &"unknown".to_string()).is_empty());
}

#[test]
fn test_which_scopes_and_groups() {
    let mut state = PgState::new();
    let actor = cell(77);
    let scope_a = "test_which_scopes_and_groups_a".to_string();
    let scope_b = "test_which_scopes_and_groups_b".to_string();
    let group_a = "test_which_scopes_and_groups_a".to_string();
    let group_b = "test_which_scopes_and_groups_b".to_string();
    let pairs = [
        (scope_a.clone(), group_a.clone()),
        (scope_a.clone(), group_b.clone()),
        (scope_b.clone(), group_a.clone()),
        (scope_b.clone(), group_b.clone()),
    ];
    for (scope, group) in pairs.iter() {
        pg::join_scoped(&mut state, scope.clone(), group.clone(), vec![actor]);
        pg::join_scoped(&mut state, scope.clone(), group.clone(), vec![actor]);
    }
    assert_eq!(4, pg::which_scopes_and_groups(&state).len());
    let scopes = pg::which_scopes(&state);
    assert_eq!(1, scopes.iter().filter(|s| **s == scope_a).count());
    assert_eq!(1, scopes.iter().filter(|s| **s == scope_b).count());

    pg::leave_all(&mut state, actor.id);
    assert!(pg::which_scopes_and_groups(&state).is_empty());
}
