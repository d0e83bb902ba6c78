//! The decisions of a serial connection: which of the ports the system lists belong to a
//! V5 brain, and what each of them is for.
use vstd::prelude::*;
use crate::text::{contains, lowercase, occurs_in, to_lowercase};

verus! {

/// USB vendor id of VEX devices.
pub const VEX_USB_VID: u16 = 0x2888;

/// USB product id of V5 brains and controllers.
pub const V5_USB_PID: u16 = 0x0501;

/// A serial port as the system lists it.
pub struct SerialPortInfo {
    pub port_name: String,
    pub is_usb: bool,
    pub vid: u16,
    pub pid: u16,
    pub product: Option<String>,
}

/// What a V5 serial port is for, judged by its product name.
#[derive(Copy, Clone, Debug, PartialEq, Eq, Structural)]
pub enum PortKind {
    User,
    System,
    Controller,
    Unknown,
}

/// The kind of a port: V5 USB ports with a product name are judged by the name in lower
/// case ("user"; "system" or "communications"; "controller"; anything else); other ports
/// are not V5 ports.
pub open spec fn port_kind(port: SerialPortInfo) -> Option<PortKind> {
    if port.is_usb && port.pid == V5_USB_PID && port.vid == VEX_USB_VID && port.product is Some {
        let lower = lowercase(port.product->0@);
        if occurs_in(lower, "user"@) {
            Some(PortKind::User)
        } else if occurs_in(lower, "system"@) || occurs_in(lower, "communications"@) {
            Some(PortKind::System)
        } else if occurs_in(lower, "controller"@) {
            Some(PortKind::Controller)
        } else {
            Some(PortKind::Unknown)
        }
    } else {
        None
    }
}

/// The names of the ports of a kind, in the order listed.
pub open spec fn names_of_kind(ports: Seq<SerialPortInfo>, kind: PortKind) -> Seq<Seq<char>>
    decreases ports.len(),
{
    if ports.len() == 0 {
        Seq::empty()
    } else {
        let rest = names_of_kind(ports.drop_last(), kind);
        if port_kind(ports.last()) == Some(kind) {
            rest.push(ports.last().port_name@)
        } else {
            rest
        }
    }
}

/// A port is judged by its product name alone: a V5 USB port whose product name, in lower
/// case, holds "user" is a user port; else one that holds "system" or "communications" is
/// a system port; else one that holds "controller" a controller port; any other V5 port
/// with a product name is of unknown kind, and other ports are no V5 ports.
pub proof fn lemma_port_kind_by_product(port: SerialPortInfo)
    ensures
        !(port.is_usb && port.pid == V5_USB_PID && port.vid == VEX_USB_VID) ==> port_kind(port) is None,
        port.product is None ==> port_kind(port) is None,
        port.is_usb && port.pid == V5_USB_PID && port.vid == VEX_USB_VID && port.product is Some ==> {
            let lower = lowercase(port.product->0@);
            &&& occurs_in(lower, "user"@) ==> port_kind(port) == Some(PortKind::User)
            &&& !occurs_in(lower, "user"@) && occurs_in(lower, "system"@) ==> port_kind(port) == Some(
                PortKind::System,
            )
            &&& !occurs_in(lower, "user"@) && occurs_in(lower, "communications"@) ==> port_kind(port)
                == Some(PortKind::System)
            &&& !occurs_in(lower, "user"@) && !occurs_in(lower, "system"@) && !occurs_in(
                lower,
                "communications"@,
            ) && occurs_in(lower, "controller"@) ==> port_kind(port) == Some(PortKind::Controller)
            &&& !occurs_in(lower, "user"@) && !occurs_in(lower, "system"@) && !occurs_in(
                lower,
                "communications"@,
            ) && !occurs_in(lower, "controller"@) ==> port_kind(port) == Some(PortKind::Unknown)
        },
{
}

/// No port of a kind is listed: there are no names of that kind.
proof fn lemma_names_of_kind_empty(ports: Seq<SerialPortInfo>, kind: PortKind)
    requires
        forall|j: int| 0 <= j < ports.len() ==> port_kind(#[trigger] ports[j]) != Some(kind),
    ensures
        names_of_kind(ports, kind).len() == 0,
    decreases ports.len(),
{
    if ports.len() > 0 {
        let front = ports.drop_last();
        assert forall|j: int| 0 <= j < front.len() implies port_kind(#[trigger] front[j]) != Some(kind) by {
            assert(front[j] == ports[j]);
        }
        lemma_names_of_kind_empty(front, kind);
        assert(port_kind(ports[ports.len() - 1]) != Some(kind));
    }
}

/// The first name of a kind is the name of the first port listed with that kind.
proof fn lemma_first_name_of_kind(ports: Seq<SerialPortInfo>, kind: PortKind, first: int)
    requires
        0 <= first < ports.len(),
        port_kind(ports[first]) == Some(kind),
        forall|j: int| 0 <= j < first ==> port_kind(#[trigger] ports[j]) != Some(kind),
    ensures
        names_of_kind(ports, kind).len() > 0,
        names_of_kind(ports, kind)[0] == ports[first].port_name@,
    decreases ports.len(),
{
    let front = ports.drop_last();
    if first == ports.len() - 1 {
        assert forall|j: int| 0 <= j < front.len() implies port_kind(#[trigger] front[j]) != Some(kind) by {
            assert(front[j] == ports[j]);
        }
        lemma_names_of_kind_empty(front, kind);
    } else {
        assert(front[first] == ports[first]);
        assert forall|j: int| 0 <= j < first implies port_kind(#[trigger] front[j]) != Some(kind) by {
            assert(front[j] == ports[j]);
        }
        lemma_first_name_of_kind(front, kind, first);
    }
}

/// Where both a system and a user port are listed, the brain's ports are the first
/// system port and the first user port, whatever else is listed.
pub proof fn lemma_brain_ports_are_first_system_and_user(ports: Seq<SerialPortInfo>, system: int, user: int)
    requires
        0 <= system < ports.len(),
        0 <= user < ports.len(),
        port_kind(ports[system]) == Some(PortKind::System),
        port_kind(ports[user]) == Some(PortKind::User),
        forall|j: int| 0 <= j < system ==> port_kind(#[trigger] ports[j]) != Some(PortKind::System),
        forall|j: int| 0 <= j < user ==> port_kind(#[trigger] ports[j]) != Some(PortKind::User),
    ensures
        chosen_ports(ports) == Some((ports[system].port_name@, ports[user].port_name@)),
{
    lemma_first_name_of_kind(ports, PortKind::System, system);
    lemma_first_name_of_kind(ports, PortKind::User, user);
}

/// The kind of a port.
pub fn classify_port(port: &SerialPortInfo) -> (kind: Option<PortKind>)
    ensures
        kind == port_kind(*port),
{
    if port.is_usb && port.pid == V5_USB_PID && port.vid == VEX_USB_VID {
        match &port.product {
            Some(product) => {
                let lower = to_lowercase(product.as_str());
                let l = lower.as_str();
                if contains(l, "user") {
                    Some(PortKind::User)
                } else if contains(l, "system") || contains(l, "communications") {
                    Some(PortKind::System)
                } else if contains(l, "controller") {
                    Some(PortKind::Controller)
                } else {
                    Some(PortKind::Unknown)
                }
            },
            None => None,
        }
    } else {
        None
    }
}

/// The system and user ports of a brain: the first system and first user port; when
/// either kind is missing, the first two ports of unknown kind; else nothing.
pub open spec fn chosen_ports(ports: Seq<SerialPortInfo>) -> Option<(Seq<char>, Seq<char>)> {
    let system = names_of_kind(ports, PortKind::System);
    let user = names_of_kind(ports, PortKind::User);
    let unknown = names_of_kind(ports, PortKind::Unknown);
    if system.len() == 0 || user.len() == 0 {
        if unknown.len() >= 2 {
            Some((unknown[0], unknown[1]))
        } else {
            None
        }
    } else {
        Some((system[0], user[0]))
    }
}

/// Picks a brain's system and user ports from the listed ports; `None` when no brain is
/// found.
pub fn find_ports(ports: &Vec<SerialPortInfo>) -> (found: Option<(String, String)>)
    ensures
        found is Some <==> chosen_ports(ports@) is Some,
        found matches Some(f) ==> (f.0@, f.1@) == chosen_ports(ports@)->0,
{
    let mut system: Vec<String> = Vec::new();
    let mut user: Vec<String> = Vec::new();
    let mut unknown: Vec<String> = Vec::new();
    let n = ports.len();
    let mut i: usize = 0;
    while i < n
        invariant
            i <= n == ports@.len(),
            system@.map_values(|s: String| s@) == names_of_kind(
                ports@.subrange(0, i as int),
                PortKind::System,
            ),
            user@.map_values(|s: String| s@) == names_of_kind(
                ports@.subrange(0, i as int),
                PortKind::User,
            ),
            unknown@.map_values(|s: String| s@) == names_of_kind(
                ports@.subrange(0, i as int),
                PortKind::Unknown,
            ),
        decreases n - i,
    {
        let port = &ports[i];
        let kind = classify_port(port);
        let ghost front = ports@.subrange(0, i as int);
        let ghost next = ports@.subrange(0, i + 1);
        assert(next.drop_last() =~= front);
        assert(next.last() == ports@[i as int]);
        match kind {
            Some(PortKind::User) => {
                user.push(port.port_name.clone());
                assert(user@.map_values(|s: String| s@) =~= names_of_kind(front, PortKind::User).push(
                    port.port_name@,
                ));
            },
            Some(PortKind::System) => {
                system.push(port.port_name.clone());
                assert(system@.map_values(|s: String| s@) =~= names_of_kind(
                    front,
                    PortKind::System,
                ).push(port.port_name@));
            },
            Some(PortKind::Unknown) => {
                unknown.push(port.port_name.clone());
                assert(unknown@.map_values(|s: String| s@) =~= names_of_kind(
                    front,
                    PortKind::Unknown,
                ).push(port.port_name@));
            },
            _ => {},
        }
        i = i + 1;
    }
    assert(ports@.subrange(0, n as int) =~= ports@);
    if system.len() == 0 || user.len() == 0 {
        if unknown.len() >= 2 {
            assert(unknown@.map_values(|s: String| s@)[0] == unknown@[0]@);
            assert(unknown@.map_values(|s: String| s@)[1] == unknown@[1]@);
            return Some((unknown[0].clone(), unknown[1].clone()));
        }
        return None;
    }
    assert(system@.map_values(|s: String| s@)[0] == system@[0]@);
    assert(user@.map_values(|s: String| s@)[0] == user@[0]@);
    Some((system[0].clone(), user[0].clone()))
}

} // verus!
