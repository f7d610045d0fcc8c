//! The relay between a serial device and the server: it passes messages on
//! in both directions as they are, looks for the device while it is absent,
//! and tells the server when the device has gone.

use vstd::prelude::*;
use vstd::string::*;
use vstd::utf8::*;

use crate::packet::{Error, Packet, PacketView};

verus! {

/// How long the relay waits before it looks for the device again, in
/// milliseconds.
pub const POLL_MILLIS: u64 = 50;

/// The speed of the serial link, in bits per second.
pub const BAUD: u32 = 38400;

/// How the path of a device begins.
pub open spec fn device_prefix() -> Seq<u8> {
    encode_utf8("/dev/cu.usbmodem"@)
}

/// Whether a path is that of a device.
pub open spec fn is_device(path: Seq<char>) -> bool {
    device_prefix().is_prefix_of(encode_utf8(path))
}

/// Whether `bytes` begins with `prefix`.
fn starts_with(bytes: &[u8], prefix: &[u8]) -> (yes: bool)
    ensures
        yes == prefix@.is_prefix_of(bytes@),
{
    if bytes.len() < prefix.len() {
        return false;
    }
    let mut i: usize = 0;
    while i < prefix.len()
        invariant
            i <= prefix@.len() <= bytes@.len(),
            forall|k: int| 0 <= k < i ==> bytes@[k] == prefix@[k],
        decreases prefix@.len() - i,
    {
        if bytes[i] != prefix[i] {
            assert(bytes@.subrange(0, prefix@.len() as int)[i as int] != prefix@[i as int]);
            return false;
        }
        i += 1;
    }
    assert(bytes@.subrange(0, prefix@.len() as int) =~= prefix@);
    true
}

/// Picks the device among the entries of the device directory: the first
/// one whose path begins as a device's does.
pub fn pick(paths: &Vec<String>) -> (found: Option<usize>)
    ensures
        match found {
            Some(index) => {
                &&& index < paths@.len()
                &&& is_device(paths@[index as int]@)
                &&& forall|k: int| 0 <= k < index ==> !is_device(#[trigger] paths@[k]@)
            },
            None => forall|k: int| 0 <= k < paths@.len() ==> !is_device(#[trigger] paths@[k]@),
        },
{
    let prefix = "/dev/cu.usbmodem".as_bytes();
    let mut i: usize = 0;
    while i < paths.len()
        invariant
            i <= paths@.len(),
            prefix@ == device_prefix(),
            forall|k: int| 0 <= k < i ==> !is_device(#[trigger] paths@[k]@),
        decreases paths@.len() - i,
    {
        if starts_with(paths[i].as_str().as_bytes(), prefix) {
            return Some(i);
        }
        i += 1;
    }
    None
}

/// What the relay is told.
#[derive(Debug, PartialEq)]
pub enum Event {
    /// The device was opened.
    Attached,
    /// The device read a message, or failed to.
    Serial(Result<Packet, Error>),
    /// The server sent a message, or reading from it failed.
    Server(Result<Packet, Error>),
    /// Writing to the device failed.
    WriteFailed,
}

/// The mathematical value of an [`Event`].
pub enum EventView {
    Attached,
    Serial(Result<PacketView, Error>),
    Server(Result<PacketView, Error>),
    WriteFailed,
}

impl View for Event {
    type V = EventView;

    open spec fn view(&self) -> EventView {
        match *self {
            Event::Attached => EventView::Attached,
            Event::Serial(Ok(packet)) => EventView::Serial(Ok(packet@)),
            Event::Serial(Err(error)) => EventView::Serial(Err(error)),
            Event::Server(Ok(packet)) => EventView::Server(Ok(packet@)),
            Event::Server(Err(error)) => EventView::Server(Err(error)),
            Event::WriteFailed => EventView::WriteFailed,
        }
    }
}

/// What the relay's caller has to do.
#[derive(Debug, PartialEq)]
pub enum Order {
    /// Write the message to the server.
    ToServer(Packet),
    /// Write the message to the device.
    ToDevice(Packet),
    /// Give the device up and look for it again.
    Search,
    /// End the relay.
    Stop,
}

/// The mathematical value of an [`Order`].
pub enum OrderView {
    ToServer(PacketView),
    ToDevice(PacketView),
    Search,
    Stop,
}

impl View for Order {
    type V = OrderView;

    open spec fn view(&self) -> OrderView {
        match *self {
            Order::ToServer(packet) => OrderView::ToServer(packet@),
            Order::ToDevice(packet) => OrderView::ToDevice(packet@),
            Order::Search => OrderView::Search,
            Order::Stop => OrderView::Stop,
        }
    }
}

/// The relay: whether a device is attached.
#[derive(Clone, Copy, Debug, PartialEq, Eq, Structural)]
pub struct Relay {
    pub attached: bool,
}

/// What the relay does with an event: whether a device is attached
/// afterwards, and what is to be done.
///
/// A message from the device goes to the server as it is; when the device
/// fails, the server gets a soft quit in its place and the device is looked
/// for again. A message from the server goes to the device as it is, if one
/// is attached; when the server fails, the relay ends. A failed write to
/// the device gives the device up.
pub open spec fn relayed(attached: bool, event: EventView) -> (bool, Seq<OrderView>) {
    match event {
        EventView::Attached => (true, Seq::empty()),
        EventView::Serial(Ok(packet)) => (attached, seq![OrderView::ToServer(packet)]),
        EventView::Serial(Err(error)) => (
            false,
            seq![OrderView::ToServer(PacketView::SoftQuit), OrderView::Search],
        ),
        EventView::Server(Ok(packet)) => if attached {
            (attached, seq![OrderView::ToDevice(packet)])
        } else {
            (attached, Seq::empty())
        },
        EventView::Server(Err(error)) => (attached, seq![OrderView::Stop]),
        EventView::WriteFailed => (false, Seq::empty()),
    }
}

/// The values of a list of orders, in order.
pub open spec fn orders(list: Seq<Order>) -> Seq<OrderView> {
    Seq::new(list.len(), |i: int| list[i]@)
}

impl Relay {
    /// A relay without a device.
    pub fn new() -> (relay: Relay)
        ensures
            !relay.attached,
    {
        Relay { attached: false }
    }

    /// Whether the relay takes messages from the server: only while a
    /// device is attached to pass them on to.
    pub fn listens(&self) -> (yes: bool)
        ensures
            yes == self.attached,
    {
        self.attached
    }

    /// Handles one event and says what is to be done about it.
    pub fn handle(&mut self, event: Event) -> (list: Vec<Order>)
        ensures
            final(self).attached == relayed(old(self).attached, event@).0,
            orders(list@) == relayed(old(self).attached, event@).1,
    {
        let mut list: Vec<Order> = Vec::new();
        match event {
            Event::Attached => {
                self.attached = true;
            },
            Event::Serial(Ok(packet)) => {
                list.push(Order::ToServer(packet));
            },
            Event::Serial(Err(_)) => {
                self.attached = false;
                list.push(Order::ToServer(Packet::SoftQuit));
                list.push(Order::Search);
            },
            Event::Server(Ok(packet)) => {
                if self.attached {
                    list.push(Order::ToDevice(packet));
                }
            },
            Event::Server(Err(_)) => {
                list.push(Order::Stop);
            },
            Event::WriteFailed => {
                self.attached = false;
            },
        }
        assert(orders(list@) =~= relayed(old(self).attached, event@).1);
        list
    }
}

} // verus!
