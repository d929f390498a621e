use delenix::config::Config;
use delenix::shared::ConfigCell;

fn config(last_index: u32, freeze: bool) -> Config {
    Config {
        uploaders: vec![],
        screenshotter: None,
        last_index,
        copy_to_clipboard: freeze,
        copy_url_to_clipboard: !freeze,
        freeze_screen: freeze,
        tessdata_path: Some(format!("path-{}", last_index)),
    }
}

#[test]
fn new_cell_is_free() {
    let cell = ConfigCell::new(config(0, false));
    assert_eq!(cell.holder(), None);
    assert!(!cell.is_held_by(1));
    assert_eq!(cell.get(1), None);
}

#[test]
fn one_connection_enters_at_a_time() {
    let mut cell = ConfigCell::new(config(0, false));
    assert!(cell.try_enter(1));
    assert_eq!(cell.holder(), Some(1));
    assert!(!cell.try_enter(2));
    assert!(!cell.try_enter(1));
    assert_eq!(cell.holder(), Some(1));
    assert!(cell.leave(1));
    assert!(cell.try_enter(2));
    assert_eq!(cell.holder(), Some(2));
}

#[test]
fn only_the_holder_leaves() {
    let mut cell = ConfigCell::new(config(0, false));
    assert!(!cell.leave(1));
    cell.try_enter(1);
    assert!(!cell.leave(2));
    assert_eq!(cell.holder(), Some(1));
    assert!(cell.leave(1));
    assert_eq!(cell.holder(), None);
    assert!(!cell.leave(1));
}

#[test]
fn only_the_holder_reads() {
    let mut cell = ConfigCell::new(config(3, true));
    cell.try_enter(7);
    assert_eq!(cell.get(7), Some(&config(3, true)));
    assert_eq!(cell.get(8), None);
}

#[test]
fn replacement_is_whole_and_for_the_holder_only() {
    let mut cell = ConfigCell::new(config(0, false));
    assert_eq!(cell.replace(1, config(1, true)), Some(config(1, true)));
    cell.try_enter(1);
    assert_eq!(cell.get(1), Some(&config(0, false)));
    assert_eq!(cell.replace(2, config(2, true)), Some(config(2, true)));
    assert_eq!(cell.get(1), Some(&config(0, false)));
    assert_eq!(cell.replace(1, config(1, true)), None);
    assert_eq!(cell.get(1), Some(&config(1, true)));
}

#[test]
fn two_writers_then_a_reader_see_one_configuration_in_full() {
    let first = config(1, true);
    let second = config(2, false);
    // Every order in which the two connections can get hold of the cell.
    for order in [[1u64, 2], [2, 1]] {
        let mut cell = ConfigCell::new(config(0, false));
        for connection in order {
            // The other connection asks in between and is refused.
            let other = 3 - connection;
            assert!(cell.try_enter(connection));
            assert!(!cell.try_enter(other));
            let offered = if other == 1 { first.clone() } else { second.clone() };
            assert!(cell.replace(other, offered).is_some());
            let own = if connection == 1 { first.clone() } else { second.clone() };
            assert_eq!(cell.replace(connection, own), None);
            assert!(cell.leave(connection));
        }
        assert!(cell.try_enter(9));
        let read = cell.get(9).unwrap().clone();
        assert!(read == first || read == second);
        let last = if order[1] == 1 { &first } else { &second };
        assert_eq!(&read, last);
    }
}

#[test]
fn reader_waits_until_the_delivery_has_left() {
    let mut cell = ConfigCell::new(config(5, true));
    // A delivery enters and stays for a while.
    assert!(cell.try_enter(1));
    for _ in 0..100 {
        assert!(!cell.try_enter(2));
        assert_eq!(cell.get(2), None);
        assert_eq!(cell.holder(), Some(1));
    }
    assert!(cell.leave(1));
    assert!(cell.try_enter(2));
    assert_eq!(cell.get(2), Some(&config(5, true)));
}
