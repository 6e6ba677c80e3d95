use rtsc::event_map::EventMap;

#[test]
fn test_event_map() {
    let mut event_map = EventMap::new();
    event_map.insert(1, "a");
    event_map.insert(3, "b");
    event_map.insert(7, "d");
    event_map.insert(9, "e");
    let event = event_map.get_closest_to(4).unwrap();
    assert_eq!(event.key(), 3);
    assert_eq!(event.value(), &"b");
    assert_eq!(event.delta(), 1);
    let event = event_map.get_closest_to(5).unwrap();
    assert_eq!(event.key(), 3);
    assert_eq!(event.value(), &"b");
    assert_eq!(event.delta(), 2);
    let event = event_map.get_closest_to(6).unwrap();
    assert_eq!(event.key(), 7);
    assert_eq!(event.value(), &"d");
    assert_eq!(event.delta(), 1);
    let event = event_map.get_closest_to(10).unwrap();
    assert_eq!(event.key(), 9);
    assert_eq!(event.value(), &"e");
    assert_eq!(event.delta(), 1);
    let event = event_map.get_closest_to(100).unwrap();
    assert_eq!(event.key(), 9);
    assert_eq!(event.value(), &"e");
    assert_eq!(event.delta(), 91);
    event_map = event_map.with_max_delta(91);
    let event = event_map.get_closest_to(100).unwrap();
    assert_eq!(event.key(), 9);
    let event = event_map.get_closest_to(-90).unwrap();
    assert_eq!(event.key(), 1);
    assert_eq!(event.value(), &"a");
    assert_eq!(event.delta(), 91);
    let event = event_map.get_closest_to(-100);
    assert!(event.is_none());
    event_map = event_map.with_max_delta(90);
    let event = event_map.get_closest_to(-90);
    assert!(event.is_none());
    let event = event_map.get_closest_to(100);
    assert!(event.is_none());
    assert_eq!(event_map.data().len(), 4);
    event_map.cleanup(7);
    assert_eq!(event_map.data().len(), 2);
}

#[test]
fn event_map_tie_takes_lower_key() {
    let mut m = EventMap::new();
    m.insert(10, 'x');
    m.insert(20, 'y');
    let e = m.get_closest_to(15).unwrap();
    assert_eq!(e.key(), 10);
    assert_eq!(e.delta(), 5);
    assert_eq!(e.into_value(), 'x');
}

#[test]
fn event_map_empty_and_extremes() {
    let mut m: EventMap<u8> = EventMap::new();
    assert!(m.get_closest_to(0).is_none());
    m.insert(i64::MIN, 1);
    let e = m.get_closest_to(i64::MAX).unwrap();
    assert_eq!(e.key(), i64::MIN);
    assert_eq!(e.delta(), u64::MAX);
    m.insert(5, 2);
    m.cleanup(5);
    assert_eq!(m.data().len(), 1);
    assert_eq!(m.get_closest_to(0).unwrap().key(), 5);
    m.clear_all();
    assert!(m.data().is_empty());
}

#[test]
fn event_map_data_mut_edits_in_place() {
    let mut m = EventMap::new().with_max_delta(3);
    m.insert(10, 1u8);
    m.data_mut().insert(20, 2);
    assert_eq!(m.get_closest_to(18).unwrap().key(), 20);
    assert!(m.get_closest_to(15).is_none());
}
