use kernel_core::event_hub::EventHub;

#[test]
fn new_hub_is_empty_at_tick_zero() {
    let mut hub: EventHub<u8> = EventHub::new();
    assert_eq!(hub.get_time(), 0);
    assert_eq!(hub.pop(), None);
}

#[test]
fn event_is_not_due_before_its_tick() {
    let mut hub: EventHub<&str> = EventHub::new();
    hub.push(2, "a");
    assert_eq!(hub.pop(), None);
    hub.tick();
    assert_eq!(hub.get_time(), 1);
    assert_eq!(hub.pop(), None);
    hub.tick();
    assert_eq!(hub.pop(), Some("a"));
    assert_eq!(hub.pop(), None);
}

#[test]
fn events_fire_in_deadline_order() {
    let mut hub: EventHub<u32> = EventHub::new();
    hub.push(3, 30);
    hub.push(1, 10);
    hub.push(2, 20);
    hub.tick();
    assert_eq!(hub.pop(), Some(10));
    assert_eq!(hub.pop(), None);
    hub.tick();
    hub.tick();
    assert_eq!(hub.pop(), Some(20));
    assert_eq!(hub.pop(), Some(30));
    assert_eq!(hub.pop(), None);
}

#[test]
fn equal_deadlines_fire_in_push_order() {
    let mut hub: EventHub<char> = EventHub::new();
    hub.push(1, 'x');
    hub.push(1, 'y');
    hub.push(1, 'z');
    hub.tick();
    assert_eq!(hub.pop(), Some('x'));
    assert_eq!(hub.pop(), Some('y'));
    assert_eq!(hub.pop(), Some('z'));
}

#[test]
fn overdue_events_fire_too() {
    let mut hub: EventHub<u8> = EventHub::new();
    hub.push(1, 1);
    hub.tick();
    hub.tick();
    hub.tick();
    assert_eq!(hub.pop(), Some(1));
}

#[test]
fn deadline_counts_from_the_tick_of_the_push() {
    let mut hub: EventHub<u8> = EventHub::new();
    hub.tick();
    hub.tick();
    hub.push(1, 9);
    assert_eq!(hub.pop(), None);
    hub.tick();
    assert_eq!(hub.get_time(), 3);
    assert_eq!(hub.pop(), Some(9));
}

#[test]
fn event_pushed_for_now_is_due_at_once() {
    let mut hub: EventHub<u8> = EventHub::new();
    hub.push(0, 5);
    assert_eq!(hub.pop(), Some(5));
}
