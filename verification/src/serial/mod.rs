//! The direct serial protocol of the first V5 tools: choosing a port, and under
//! `system`, its requests, responses and the brain's commands.
use vstd::prelude::*;
use crate::connection::serial::{SerialPortInfo, V5_USB_PID, VEX_USB_VID};
use crate::text::{contains, occurs_in};

pub mod system;

verus! {

/// The ports a V5 device offers.
#[derive(Copy, Clone, Debug, PartialEq, Eq, Structural)]
pub enum PortType {
    User,
    System,
    Controller,
}

impl PortType {
    /// A name belongs to a port of this type when it holds "User"; "System" or
    /// "Communications"; "Controller" (in that case).
    pub open spec fn spec_match_name(self, name: Seq<char>) -> bool {
        match self {
            PortType::User => occurs_in(name, "User"@),
            PortType::System => occurs_in(name, "System"@) || occurs_in(name, "Communications"@),
            PortType::Controller => occurs_in(name, "Controller"@),
        }
    }

    pub fn match_name(&self, name: &str) -> (m: bool)
        ensures
            m == self.spec_match_name(name@),
    {
        match self {
            PortType::User => contains(name, "User"),
            PortType::System => contains(name, "System") || contains(name, "Communications"),
            PortType::Controller => contains(name, "Controller"),
        }
    }
}

/// A port is taken for a type when it is a V5 USB port whose product name matches the
/// type, or which has no product name.
pub open spec fn port_matches(port: SerialPortInfo, port_type: PortType) -> bool {
    &&& port.is_usb
    &&& port.pid == V5_USB_PID
    &&& port.vid == VEX_USB_VID
    &&& match port.product {
        Some(product) => port_type.spec_match_name(product@),
        None => true,
    }
}

/// `name` is the name of the first port taken for a type, in the order listed.
pub open spec fn first_port_named(ports: Seq<SerialPortInfo>, port_type: PortType, name: Seq<char>) -> bool {
    exists|i: int|
        0 <= i < ports.len() && port_matches(ports[i], port_type) && name == ports[i].port_name@
            && forall|k: int| 0 <= k < i ==> !port_matches(#[trigger] ports[k], port_type)
}

/// The first port taken for a type, in the order listed.
pub fn find_port(ports: &Vec<SerialPortInfo>, port_type: PortType) -> (found: Option<String>)
    ensures
        found matches Some(name) ==> first_port_named(ports@, port_type, name@),
        found is None ==> forall|i: int| 0 <= i < ports@.len() ==> !port_matches(#[trigger] ports@[i], port_type),
{
    let n = ports.len();
    let mut i: usize = 0;
    while i < n
        invariant
            i <= n == ports@.len(),
            forall|k: int| 0 <= k < i ==> !port_matches(#[trigger] ports@[k], port_type),
        decreases n - i,
    {
        let port = &ports[i];
        if port.is_usb && port.pid == V5_USB_PID && port.vid == VEX_USB_VID {
            let taken = match &port.product {
                Some(product) => port_type.match_name(product.as_str()),
                None => true,
            };
            if taken {
                return Some(port.port_name.clone());
            }
        }
        i = i + 1;
    }
    None
}

/// The port to open: the one asked for, or else the first taken for the type.
pub fn choose_port(requested: Option<String>, ports: &Vec<SerialPortInfo>, port_type: PortType) -> (port:
    Option<String>)
    ensures
        requested matches Some(r) ==> port matches Some(p) && p@ == r@,
        requested is None ==> (port is Some <==> exists|i: int|
            0 <= i < ports@.len() && port_matches(#[trigger] ports@[i], port_type)),
        requested is None ==> (port matches Some(name) ==> first_port_named(ports@, port_type, name@)),
{
    match requested {
        Some(r) => Some(r),
        None => find_port(ports, port_type),
    }
}

/// The port a connection to a user program opens: the one asked for, or else the first
/// user port listed; `None` when there is none, where no connection can be opened.
pub fn open_robot_connection(port: Option<String>, ports: &Vec<SerialPortInfo>) -> (chosen: Option<
    String,
>)
    ensures
        port matches Some(r) ==> chosen matches Some(p) && p@ == r@,
        port is None ==> (chosen is Some <==> exists|i: int|
            0 <= i < ports@.len() && port_matches(#[trigger] ports@[i], PortType::User)),
        port is None ==> (chosen matches Some(name) ==> first_port_named(ports@, PortType::User, name@)),
{
    choose_port(port, ports, PortType::User)
}

/// A port is listed when it is a V5 USB port and, where a type is given, its port name
/// matches the type.
pub open spec fn port_listed_spec(port: SerialPortInfo, port_type: Option<PortType>) -> bool {
    &&& port.is_usb
    &&& port.pid == V5_USB_PID
    &&& port.vid == VEX_USB_VID
    &&& match port_type {
        Some(t) => t.spec_match_name(port.port_name@),
        None => true,
    }
}

/// Whether a port is listed.
pub fn port_listed(port: &SerialPortInfo, port_type: &Option<PortType>) -> (listed: bool)
    ensures
        listed == port_listed_spec(*port, *port_type),
{
    port.is_usb && port.pid == V5_USB_PID && port.vid == VEX_USB_VID && match port_type {
        Some(t) => t.match_name(port.port_name.as_str()),
        None => true,
    }
}

} // verus!
