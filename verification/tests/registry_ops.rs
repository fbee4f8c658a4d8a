use pessoas::date::parse_date;
use pessoas::person::NewPerson;
use pessoas::registry::Registry;
use pessoas::validate::Name;
use pessoas::validate::Nick;
use pessoas::validate::Tech;

fn payload(nome: &str, apelido: &str, nascimento: &str, stack: Option<Vec<&str>>) -> NewPerson {
    NewPerson {
        name: Name::try_from(nome.to_string()).unwrap(),
        nick: Nick::try_from(apelido.to_string()).unwrap(),
        birthdate: parse_date(nascimento).unwrap(),
        stack: stack.map(|entries| {
            entries.into_iter().map(|e| Tech::try_from(e.to_string()).unwrap()).collect()
        }),
    }
}

#[test]
fn insert_then_get_returns_the_inserted_record() {
    let mut registry = Registry::new();
    assert_eq!(registry.count(), 0);

    let inserted = registry
        .insert(payload("Ada Lovelace", "Ada", "1815-12-10", Some(vec!["Math"])))
        .unwrap();
    assert_eq!(inserted.name, "Ada Lovelace");
    assert_eq!(inserted.nick, "Ada");
    assert_eq!(inserted.birthdate, parse_date("1815-12-10").unwrap());
    assert_eq!(inserted.stack, Some(vec!["Math".to_string()]));

    let found = registry.get(inserted.id).unwrap();
    assert_eq!(found.id, inserted.id);
    assert_eq!(found.name, inserted.name);
    assert_eq!(found.nick, inserted.nick);
    assert_eq!(found.birthdate, inserted.birthdate);
    assert_eq!(found.stack, inserted.stack);

    assert_eq!(registry.count(), 1);
    assert_eq!(registry.list().len(), 1);
}

#[test]
fn get_of_an_id_never_inserted_is_not_found() {
    let mut registry = Registry::new();
    assert!(registry.get(42).is_none());

    let inserted = registry.insert(payload("Grace Hopper", "Grace", "1906-12-09", None)).unwrap();
    let probe = inserted.id.wrapping_add(1);
    assert!(registry.get(probe).is_none());
}

#[test]
fn failed_validation_leaves_the_store_untouched() {
    let mut registry = Registry::new();
    // The over-long name is rejected before any record can be built, so
    // nothing ever reaches the registry.
    assert!(Name::try_from("a".repeat(101)).is_err());
    assert_eq!(registry.count(), 0);

    registry.insert(payload("Alan Turing", "Alan", "1912-06-23", None)).unwrap();
    assert!(Name::try_from("a".repeat(101)).is_err());
    assert_eq!(registry.count(), 1);
}

#[test]
fn two_inserts_both_appear() {
    let mut registry = Registry::new();
    let first = registry
        .insert(payload("Ada Lovelace", "Ada", "1815-12-10", Some(vec!["Math"])))
        .unwrap();
    let second = registry
        .insert(payload("Grace Hopper", "Grace", "1906-12-09", Some(vec!["COBOL", "compilers"])))
        .unwrap();
    assert_ne!(first.id, second.id);
    assert_eq!(registry.count(), 2);

    let snapshot = registry.list();
    assert_eq!(snapshot.len(), 2);
    assert!(snapshot.iter().any(|p| p.id == first.id && p.nick == "Ada"));
    assert!(snapshot.iter().any(|p| p.id == second.id && p.nick == "Grace"));
}

#[test]
fn absent_stack_and_empty_stack_stay_distinct() {
    let mut registry = Registry::new();
    let none = registry.insert(payload("Ada Lovelace", "Ada", "1815-12-10", None)).unwrap();
    let empty = registry
        .insert(payload("Grace Hopper", "Grace", "1906-12-09", Some(vec![])))
        .unwrap();
    assert_eq!(none.stack, None);
    assert_eq!(empty.stack, Some(vec![]));
    assert_eq!(registry.get(none.id).unwrap().stack, None);
    assert_eq!(registry.get(empty.id).unwrap().stack, Some(vec![]));
}

#[test]
fn a_record_round_trips_through_the_wire_fields() {
    let mut registry = Registry::new();
    let stored = registry
        .insert(payload("Ada Lovelace", "Ada", "1815-12-10", Some(vec!["Math"])))
        .unwrap();

    // Write the record's fields out as the wire would carry them, with
    // the identifier invisible, and take them in again as a new payload.
    let nascimento = pessoas::date::format_date(&stored.birthdate);
    let again = payload(
        &stored.name,
        &stored.nick,
        &nascimento,
        stored.stack.as_ref().map(|s| s.iter().map(|e| e.as_str()).collect()),
    );

    let mut other = Registry::new();
    let reborn = other.insert(again).unwrap();
    assert_eq!(reborn.name, stored.name);
    assert_eq!(reborn.nick, stored.nick);
    assert_eq!(reborn.birthdate, stored.birthdate);
    assert_eq!(reborn.stack, stored.stack);
}
