use hueble_rs::gatt_manipulator::{
    Action, CharacteristicHandle, Event, GattManipulator, Outcome,
};

const ID_A: u128 = 0x932c32bd_0002_47a2_835a_a8d455b859dd;
const ID_B: u128 = 0x932c32bd_0003_47a2_835a_a8d455b859dd;
const ID_ABSENT: u128 = 0x0000ffff_0000_1000_8000_00805f9b34fb;

/// A lamp that answers from a table and fails on request.
struct Device {
    up: bool,
    services: Vec<(u16, Vec<(u16, u128)>)>,
    value: Vec<u8>,
    link_failures: usize,
    connect_failures: usize,
    list_failures: usize,
    write_failures: usize,
    read_failures: usize,
    link_queries: usize,
    connects: usize,
    enumerations: usize,
    identifier_queries: usize,
    write_attempts: usize,
    written: Vec<(CharacteristicHandle, Vec<u8>)>,
}

fn take(failures: &mut usize) -> bool {
    if *failures > 0 {
        *failures -= 1;
        true
    } else {
        false
    }
}

impl Device {
    fn new() -> Device {
        Device {
            up: true,
            services: vec![(1, vec![(10, 0x11), (11, ID_A)]), (2, vec![]), (3, vec![(30, ID_B)])],
            value: vec![b'L', b'C', b'A'],
            link_failures: 0,
            connect_failures: 0,
            list_failures: 0,
            write_failures: 0,
            read_failures: 0,
            link_queries: 0,
            connects: 0,
            enumerations: 0,
            identifier_queries: 0,
            write_attempts: 0,
            written: Vec::new(),
        }
    }

    fn perform(&mut self, action: Action) -> Result<Event, Action> {
        match action {
            Action::QueryLink => {
                self.link_queries += 1;
                if take(&mut self.link_failures) {
                    Ok(Event::Link(None))
                } else {
                    Ok(Event::Link(Some(self.up)))
                }
            }
            Action::Connect => {
                self.connects += 1;
                if take(&mut self.connect_failures) {
                    Ok(Event::Connected(false))
                } else {
                    self.up = true;
                    Ok(Event::Connected(true))
                }
            }
            Action::ListServices => {
                self.enumerations += 1;
                if take(&mut self.list_failures) {
                    Ok(Event::Services(None))
                } else {
                    Ok(Event::Services(Some(self.services.iter().map(|s| s.0).collect())))
                }
            }
            Action::ListCharacteristics { service } => {
                let found = self.services.iter().find(|s| s.0 == service);
                Ok(Event::Characteristics(found.map(|s| s.1.iter().map(|c| c.0).collect())))
            }
            Action::QueryIdentifier { handle } => {
                self.identifier_queries += 1;
                let found = self
                    .services
                    .iter()
                    .find(|s| s.0 == handle.service)
                    .and_then(|s| s.1.iter().find(|c| c.0 == handle.characteristic));
                Ok(Event::Identifier(found.map(|c| c.1)))
            }
            Action::Write { handle, data } => {
                self.write_attempts += 1;
                if take(&mut self.write_failures) {
                    Ok(Event::Written(false))
                } else {
                    self.written.push((handle, data));
                    Ok(Event::Written(true))
                }
            }
            Action::Read { .. } => {
                if take(&mut self.read_failures) {
                    Ok(Event::Read(None))
                } else {
                    Ok(Event::Read(Some(self.value.clone())))
                }
            }
            other => Err(other),
        }
    }
}

/// Performs actions until the request is over; panics where it does not end.
fn run(manager: &mut GattManipulator, device: &mut Device, first: Action) -> Outcome {
    let mut action = first;
    for _ in 0..1000 {
        match device.perform(action) {
            Ok(event) => action = manager.advance(event),
            Err(Action::Done(outcome)) => return outcome,
            Err(other) => panic!("no request under way: {:?}", other),
        }
    }
    panic!("the request does not end");
}

fn handle(service: u16, characteristic: u16) -> CharacteristicHandle {
    CharacteristicHandle { service, characteristic }
}

#[test]
fn second_resolve_is_served_from_the_cache() {
    let mut device = Device::new();
    let mut manager = GattManipulator::new("D1:DC:EE:F7:7E:8E");
    let first = manager.resolve_characteristic(ID_B);
    let one = run(&mut manager, &mut device, first);
    let first = manager.resolve_characteristic(ID_B);
    let two = run(&mut manager, &mut device, first);
    assert!(matches!(one, Outcome::Resolved(h) if h == handle(3, 30)));
    assert!(matches!(two, Outcome::Resolved(h) if h == handle(3, 30)));
    assert_eq!(device.enumerations, 1);
    assert_eq!(device.identifier_queries, 3);
    assert_eq!(manager.cached(ID_B), Some(handle(3, 30)));
}

#[test]
fn write_to_an_absent_identifier_ends_quietly() {
    let mut device = Device::new();
    let mut manager = GattManipulator::new("D1:DC:EE:F7:7E:8E");
    let first = manager.write_characteristic(ID_ABSENT, vec![1]);
    let outcome = run(&mut manager, &mut device, first);
    assert!(matches!(outcome, Outcome::NotFound));
    assert_eq!(device.write_attempts, 0);
    assert!(device.written.is_empty());
    assert_eq!(device.enumerations, 1);
    assert_eq!(manager.cached(ID_ABSENT), None);
    assert!(manager.is_idle());
}

#[test]
fn one_failed_write_is_tried_once_more() {
    let mut device = Device::new();
    device.write_failures = 1;
    let mut manager = GattManipulator::new("D1:DC:EE:F7:7E:8E");
    let first = manager.write_characteristic(ID_A, vec![7, 8, 9]);
    let outcome = run(&mut manager, &mut device, first);
    assert!(matches!(outcome, Outcome::Written));
    assert_eq!(device.write_attempts, 2);
    assert_eq!(device.written, vec![(handle(1, 11), vec![7, 8, 9])]);
    // the search ran once; the retry found the handle cached
    assert_eq!(device.enumerations, 1);
}

#[test]
fn write_checks_the_link_twice_before_it_looks_anything_up() {
    let mut manager = GattManipulator::new("lamp");
    assert!(matches!(manager.write_characteristic(ID_A, vec![1]), Action::QueryLink));
    assert!(matches!(manager.advance(Event::Link(Some(true))), Action::QueryLink));
    assert!(matches!(manager.advance(Event::Link(Some(true))), Action::ListServices));
}

#[test]
fn resolve_checks_the_link_once() {
    let mut manager = GattManipulator::new("lamp");
    assert!(matches!(manager.resolve_characteristic(ID_A), Action::QueryLink));
    assert!(matches!(manager.advance(Event::Link(Some(true))), Action::ListServices));
}

#[test]
fn services_are_walked_in_order() {
    let mut manager = GattManipulator::new("lamp");
    manager.resolve_characteristic(ID_A);
    manager.advance(Event::Link(Some(true)));
    let a = manager.advance(Event::Services(Some(vec![5, 6])));
    assert!(matches!(a, Action::ListCharacteristics { service: 5 }));
    let a = manager.advance(Event::Characteristics(Some(vec![50, 51])));
    assert!(matches!(a, Action::QueryIdentifier { handle: h } if h == handle(5, 50)));
    let a = manager.advance(Event::Identifier(Some(ID_B)));
    assert!(matches!(a, Action::QueryIdentifier { handle: h } if h == handle(5, 51)));
    let a = manager.advance(Event::Identifier(Some(ID_B)));
    assert!(matches!(a, Action::ListCharacteristics { service: 6 }));
    let a = manager.advance(Event::Characteristics(Some(vec![])));
    assert!(matches!(a, Action::Done(Outcome::NotFound)));
    assert!(manager.is_idle());
}

#[test]
fn first_match_is_cached_and_used() {
    let mut manager = GattManipulator::new("lamp");
    manager.write_characteristic(ID_A, vec![4, 2]);
    manager.advance(Event::Link(Some(true)));
    manager.advance(Event::Link(Some(true)));
    manager.advance(Event::Services(Some(vec![9])));
    manager.advance(Event::Characteristics(Some(vec![1, 2])));
    assert_eq!(manager.cached(ID_A), None);
    let a = manager.advance(Event::Identifier(Some(ID_A)));
    assert!(matches!(a, Action::Write { handle: h, ref data } if h == handle(9, 1) && data == &vec![4, 2]));
    assert_eq!(manager.cached(ID_A), Some(handle(9, 1)));
    assert!(matches!(manager.advance(Event::Written(true)), Action::Done(Outcome::Written)));
}

#[test]
fn link_that_is_down_is_brought_up() {
    let mut device = Device::new();
    device.up = false;
    device.connect_failures = 2;
    device.link_failures = 1;
    let mut manager = GattManipulator::new("lamp");
    let first = manager.establish();
    let outcome = run(&mut manager, &mut device, first);
    assert!(matches!(outcome, Outcome::Connected));
    assert_eq!(device.connects, 3);
    assert_eq!(device.link_queries, 4);
    assert!(device.up);
}

#[test]
fn failed_connect_asks_for_the_link_again() {
    let mut manager = GattManipulator::new("lamp");
    manager.establish();
    assert!(matches!(manager.advance(Event::Link(None)), Action::QueryLink));
    assert!(matches!(manager.advance(Event::Link(Some(false))), Action::Connect));
    assert!(matches!(manager.advance(Event::Connected(false)), Action::QueryLink));
    assert!(matches!(manager.advance(Event::Link(Some(false))), Action::Connect));
    assert!(matches!(manager.advance(Event::Connected(true)), Action::Done(Outcome::Connected)));
}

#[test]
fn failed_listing_starts_the_search_again() {
    let mut device = Device::new();
    device.list_failures = 2;
    let mut manager = GattManipulator::new("lamp");
    let first = manager.resolve_characteristic(ID_A);
    let outcome = run(&mut manager, &mut device, first);
    assert!(matches!(outcome, Outcome::Resolved(h) if h == handle(1, 11)));
    assert_eq!(device.enumerations, 3);
    // every restart checks the link again
    assert_eq!(device.link_queries, 3);
}

#[test]
fn failure_in_the_middle_of_a_search_discards_it() {
    let mut manager = GattManipulator::new("lamp");
    manager.resolve_characteristic(ID_A);
    manager.advance(Event::Link(Some(true)));
    manager.advance(Event::Services(Some(vec![1, 2])));
    assert!(matches!(manager.advance(Event::Characteristics(None)), Action::QueryLink));
    assert!(matches!(manager.advance(Event::Link(Some(true))), Action::ListServices));
    manager.advance(Event::Services(Some(vec![1])));
    manager.advance(Event::Characteristics(Some(vec![3])));
    assert!(matches!(manager.advance(Event::Identifier(None)), Action::QueryLink));
    assert_eq!(manager.cached(ID_A), None);
}

#[test]
fn read_gives_the_bytes() {
    let mut device = Device::new();
    device.read_failures = 1;
    let mut manager = GattManipulator::new("lamp");
    let first = manager.read_characteristic(ID_B);
    let outcome = run(&mut manager, &mut device, first);
    assert!(matches!(outcome, Outcome::Data(ref d) if d == &vec![b'L', b'C', b'A']));
}

#[test]
fn read_of_an_absent_identifier_gives_nothing() {
    let mut device = Device::new();
    let mut manager = GattManipulator::new("lamp");
    let first = manager.read_characteristic(ID_ABSENT);
    let outcome = run(&mut manager, &mut device, first);
    assert!(matches!(outcome, Outcome::NotFound));
}

#[test]
fn event_that_answers_nothing_has_the_action_asked_again() {
    let mut manager = GattManipulator::new("lamp");
    assert!(matches!(manager.advance(Event::Written(true)), Action::Idle));
    assert!(matches!(manager.pending(), Action::Idle));
    manager.write_characteristic(ID_A, vec![1]);
    assert!(matches!(manager.advance(Event::Written(true)), Action::QueryLink));
    assert!(matches!(manager.advance(Event::Connected(true)), Action::QueryLink));
    manager.advance(Event::Link(Some(true)));
    manager.advance(Event::Link(Some(true)));
    assert!(matches!(manager.advance(Event::Identifier(Some(ID_A))), Action::ListServices));
    manager.advance(Event::Services(Some(vec![4])));
    assert!(matches!(
        manager.advance(Event::Services(Some(vec![8]))),
        Action::ListCharacteristics { service: 4 }
    ));
    manager.advance(Event::Characteristics(Some(vec![40])));
    manager.advance(Event::Identifier(Some(ID_A)));
    // a write is under way: the answer to a read is none to it
    let a = manager.advance(Event::Read(Some(vec![0])));
    assert!(matches!(a, Action::Write { handle: h, ref data } if h == handle(4, 40) && data == &vec![1]));
    assert!(matches!(manager.pending(), Action::Write { .. }));
}

#[test]
fn disconnect_gives_up_the_request_and_keeps_the_cache() {
    let mut device = Device::new();
    let mut manager = GattManipulator::new("D1:DC:EE:F7:7E:8E");
    let first = manager.resolve_characteristic(ID_A);
    run(&mut manager, &mut device, first);
    manager.write_characteristic(ID_B, vec![1]);
    assert!(!manager.is_idle());
    assert!(matches!(manager.disconnect(), Action::Disconnect));
    assert!(manager.is_idle());
    assert!(matches!(manager.advance(Event::Link(Some(true))), Action::Idle));
    assert_eq!(manager.cached(ID_A), Some(handle(1, 11)));
    assert_eq!(manager.address(), "D1:DC:EE:F7:7E:8E");
}

#[test]
fn new_request_takes_the_place_of_the_one_under_way() {
    let mut device = Device::new();
    let mut manager = GattManipulator::new("lamp");
    manager.write_characteristic(ID_A, vec![1]);
    manager.advance(Event::Link(Some(true)));
    let first = manager.write_characteristic(ID_B, vec![2]);
    let outcome = run(&mut manager, &mut device, first);
    assert!(matches!(outcome, Outcome::Written));
    assert_eq!(device.written, vec![(handle(3, 30), vec![2])]);
}
