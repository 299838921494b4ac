use ractor::actor_id::decimal_text;
use ractor::ActorId;

#[test]
fn actor_id_text() {
    assert_eq!("0.12", ActorId::Local(12).to_string());
    assert_eq!("3.4", ActorId::Remote { node_id: 3, pid: 4 }.to_string());
    assert_eq!("0.0", ActorId::Local(0).to_string());
}

#[test]
fn actor_id_parts() {
    assert!(ActorId::Local(5).is_local());
    assert!(!ActorId::Remote { node_id: 1, pid: 5 }.is_local());
    assert_eq!(5, ActorId::Local(5).pid());
    assert_eq!(9, ActorId::Remote { node_id: 1, pid: 9 }.pid());
}

#[test]
fn decimal_text_of_numbers() {
    assert_eq!("0", decimal_text(0));
    assert_eq!("7", decimal_text(7));
    assert_eq!("1234567890", decimal_text(1234567890));
    assert_eq!(u64::MAX.to_string(), decimal_text(u64::MAX));
}
