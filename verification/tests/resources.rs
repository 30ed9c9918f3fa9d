use slight::events::{watch_step, WatchAction, event_data_text, events_get, events_listen, receive_step, Error as EventsError, ObservableParam, ReceiveOutcome, ReceiveStep};
use slight::resource::{find_last, StateTable};

const RD: &str = "67e55044-10b1-426f-9247-bb680e5fe0c8";

#[test]
fn state_table_get_after_set() {
    let mut table: StateTable<u32> = StateTable::new();
    assert!(!table.contains("a"));
    table.set("a".to_string(), 1);
    table.set("b".to_string(), 2);
    table.set("a".to_string(), 3);
    assert!(table.contains("a"));
    assert_eq!(*table.get("a").unwrap(), 3);
    assert_eq!(*table.get("b").unwrap(), 2);
    *table.get_mut("b").unwrap() = 7;
    assert_eq!(*table.get("b").unwrap(), 7);
    assert_eq!(*table.get("a").unwrap(), 3);
    match table.get_mut("c") {
        Err(e) => assert_eq!(e.message, "failed because key 'c' was not found"),
        Ok(v) => panic!("unexpected value {v}"),
    }
    match table.get("c") {
        Err(e) => assert_eq!(e.message, "failed because key 'c' was not found"),
        Ok(v) => panic!("unexpected value {v}"),
    }
}

#[test]
fn find_last_takes_the_last_entry() {
    let entries = vec![
        ("k".to_string(), 1),
        ("j".to_string(), 2),
        ("k".to_string(), 3),
    ];
    assert_eq!(find_last(&entries, "k"), Some(2));
    assert_eq!(find_last(&entries, "j"), Some(1));
    assert_eq!(find_last(&entries, "x"), None);
}

#[test]
fn events_listen_adds_observables() {
    let guest = events_get().unwrap();
    assert_eq!(guest.observables.len(), 0);
    let g1 = events_listen(&guest, ObservableParam { rd: RD, key: "k1" }).unwrap();
    let g2 = events_listen(&g1, ObservableParam { rd: RD, key: "k2" }).unwrap();
    assert_eq!(g2.observables.len(), 2);
    assert_eq!(g2.observables[0].key, "k1");
    assert_eq!(g2.observables[1].key, "k2");
    assert_eq!(g2.observables[1].rd, RD);
    for rd in [
        "67e5504410b1426f9247bb680e5fe0c8",
        "{67e55044-10b1-426f-9247-bb680e5fe0c8}",
        "URN:uuid:67E55044-10B1-426F-9247-BB680E5FE0C8",
    ] {
        assert!(events_listen(&g2, ObservableParam { rd, key: "k" }).is_ok());
    }
    for rd in [
        "67e55044-10b1-426f-9247-bb680e5fe0cg",
        "67e55044_10b1-426f-9247-bb680e5fe0c8",
        "(67e55044-10b1-426f-9247-bb680e5fe0c8)",
    ] {
        assert!(events_listen(&g2, ObservableParam { rd, key: "k" }).is_err());
    }
    match events_listen(&g2, ObservableParam { rd: "not-a-uuid", key: "k" }) {
        Err(EventsError::ErrorWithDescription(m)) => assert_eq!(
            m,
            "internal error: failed to parse internal handle to this resource"
        ),
        Ok(_) => panic!("a descriptor that is not a UUID was accepted"),
    }
}

#[test]
fn receive_steps() {
    assert!(matches!(receive_step(ReceiveOutcome::Handled(Ok(()))), ReceiveStep::Continue));
    assert!(matches!(receive_step(ReceiveOutcome::TimedOut), ReceiveStep::Finish(Ok(()))));
    match receive_step(ReceiveOutcome::Handled(Err("boom".to_string()))) {
        ReceiveStep::Finish(Err(EventsError::ErrorWithDescription(m))) => {
            assert_eq!(m, "event handler error boom")
        }
        other => panic!("unexpected {other:?}"),
    }
    assert_eq!(event_data_text(None), None);
    assert_eq!(event_data_text(Some(Ok("x".to_string()))), Some("x".to_string()));
    assert_eq!(event_data_text(Some(Err(()))), Some("{}".to_string()));
}

#[test]
fn watches_are_set_up_in_order() {
    let guest = events_get().unwrap();
    let g = events_listen(&guest, ObservableParam { rd: RD, key: "k1" }).unwrap();
    let g = events_listen(&g, ObservableParam { rd: RD, key: "k2" }).unwrap();
    assert!(matches!(watch_step(&g, 0, Ok(())), WatchAction::Watch { key, .. } if key == "k1"));
    assert!(matches!(watch_step(&g, 1, Ok(())), WatchAction::Watch { key, .. } if key == "k2"));
    assert!(matches!(watch_step(&g, 2, Ok(())), WatchAction::Done));
    match watch_step(&g, 1, Err("no such key".to_string())) {
        WatchAction::Failed(EventsError::ErrorWithDescription(m)) => assert_eq!(m, "no such key"),
        other => panic!("unexpected {other:?}"),
    }
}
