use geoterm::packet::{Error, Packet};
use geoterm::relay::{pick, Event, Order, Relay, BAUD, POLL_MILLIS};

fn paths(list: &[&str]) -> Vec<String> {
    list.iter().map(|path| path.to_string()).collect()
}

#[test]
fn link_runs_at_four_times_9600() {
    assert_eq!(BAUD, 9600 * 4);
    assert_eq!(POLL_MILLIS, 50);
}

#[test]
fn first_device_is_picked() {
    assert_eq!(pick(&paths(&[])), None);
    assert_eq!(pick(&paths(&["/dev/null", "/dev/tty", "/dev/cu.usbmode"])), None);
    assert_eq!(pick(&paths(&["/dev/null", "/dev/cu.usbmodem1101", "/dev/cu.usbmodem2"])), Some(1));
    assert_eq!(pick(&paths(&["/dev/cu.usbmodem"])), Some(0));
    assert_eq!(pick(&paths(&["dev/cu.usbmodem1", "/dev/cu.usbmodem1"])), Some(1));
    assert_eq!(pick(&paths(&["", "/dev/cu.usbmodeM1"])), None);
}

#[test]
fn device_messages_go_to_the_server() {
    let mut relay = Relay::new();
    assert!(!relay.listens());
    assert_eq!(relay.handle(Event::Attached), vec![]);
    assert!(relay.listens());
    assert_eq!(
        relay.handle(Event::Serial(Ok(Packet::WaitingStatus { ready: true }))),
        vec![Order::ToServer(Packet::WaitingStatus { ready: true })]
    );
    assert!(relay.attached);
}

#[test]
fn lost_device_is_a_soft_quit() {
    let mut relay = Relay { attached: true };
    assert_eq!(
        relay.handle(Event::Serial(Err(Error::Truncated))),
        vec![Order::ToServer(Packet::SoftQuit), Order::Search]
    );
    assert!(!relay.attached);
}

#[test]
fn server_messages_go_to_the_device() {
    let mut relay = Relay { attached: true };
    assert_eq!(
        relay.handle(Event::Server(Ok(Packet::Guessed { player: 2 }))),
        vec![Order::ToDevice(Packet::Guessed { player: 2 })]
    );
    assert_eq!(relay.handle(Event::WriteFailed), vec![]);
    assert!(!relay.attached);
    assert_eq!(relay.handle(Event::Server(Ok(Packet::Guessed { player: 2 }))), vec![]);
    assert_eq!(relay.handle(Event::Server(Err(Error::Close))), vec![Order::Stop]);
}
