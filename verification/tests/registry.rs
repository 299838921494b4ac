use ractor::registry::pid_registry::{self, PidLifecycleEvent, PidRegistry};
use ractor::registry::{self, ActorRegistry, ActorRegistryErr};
use ractor::{ActorCell, ActorId, ActorStatus};

fn cell(pid: u64) -> ActorCell {
    ActorCell { id: ActorId::Local(pid), status: ActorStatus::Running }
}

#[test]
fn register_then_where_is() {
    let mut reg = ActorRegistry::new();
    assert!(registry::where_is(&reg, "my_actor".to_string()).is_none());
    registry::register(&mut reg, "my_actor".to_string(), cell(1)).unwrap();
    assert_eq!(Some(ActorId::Local(1)), registry::where_is(&reg, "my_actor".to_string()).map(|c| c.id));
    registry::unregister(&mut reg, "my_actor".to_string());
    assert!(registry::where_is(&reg, "my_actor".to_string()).is_none());
}

#[test]
fn duplicate_registration_is_refused() {
    let mut reg = ActorRegistry::new();
    registry::register(&mut reg, "Some name".to_string(), cell(1)).unwrap();
    match registry::register(&mut reg, "Some name".to_string(), cell(2)) {
        Err(ActorRegistryErr::AlreadyRegistered(name)) => assert_eq!("Some name", name),
        _ => panic!("expected a refusal"),
    }
    // the first registration stands
    assert_eq!(Some(ActorId::Local(1)), registry::where_is(&reg, "Some name".to_string()).map(|c| c.id));
    let mut names = registry::registered(&reg);
    registry::register(&mut reg, "other".to_string(), cell(3)).unwrap();
    assert_eq!(vec!["Some name".to_string()], names);
    names = registry::registered(&reg);
    names.sort();
    assert_eq!(vec!["Some name".to_string(), "other".to_string()], names);
}

#[test]
fn pid_lifecycle_is_announced_to_monitors() {
    let mut reg = PidRegistry::new();
    let monitor = cell(100);
    pid_registry::monitor(&mut reg, monitor);
    let notes = pid_registry::register_pid(&mut reg, ActorId::Local(5), cell(5)).unwrap();
    assert_eq!(1, notes.len());
    assert_eq!(monitor.id, notes[0].listener.id);
    assert!(matches!(notes[0].event, PidLifecycleEvent::Spawn(c) if c.id == ActorId::Local(5)));
    assert_eq!(Some(ActorId::Local(5)), pid_registry::where_is_pid(&reg, ActorId::Local(5)).map(|c| c.id));
    assert_eq!(1, pid_registry::get_all_pids(&reg).len());

    let notes = pid_registry::unregister_pid(&mut reg, ActorId::Local(5));
    assert_eq!(1, notes.len());
    assert!(matches!(notes[0].event, PidLifecycleEvent::Terminate(c) if c.id == ActorId::Local(5)));
    assert!(pid_registry::where_is_pid(&reg, ActorId::Local(5)).is_none());

    pid_registry::demonitor(&mut reg, monitor.id);
    let notes = pid_registry::register_pid(&mut reg, ActorId::Local(6), cell(6)).unwrap();
    assert!(notes.is_empty());
}

#[test]
fn remote_pids_are_not_registered() {
    let mut reg = PidRegistry::new();
    let id = ActorId::Remote { node_id: 2, pid: 3 };
    let notes = pid_registry::register_pid(&mut reg, id, ActorCell { id, status: ActorStatus::Running }).unwrap();
    assert!(notes.is_empty());
    assert!(pid_registry::where_is_pid(&reg, id).is_none());
}

#[test]
fn duplicate_pid_is_refused() {
    let mut reg = PidRegistry::new();
    pid_registry::register_pid(&mut reg, ActorId::Local(1), cell(1)).unwrap();
    assert!(pid_registry::register_pid(&mut reg, ActorId::Local(1), cell(1)).is_err());
}
