//! The seven ports of the China Seas and their menu numbering.

use vstd::prelude::*;

verus! {

/// The seven ports, in canonical menu order.
#[derive(Debug, Clone, Copy, PartialEq, Eq, Structural)]
pub enum Port {
    HongKong,
    Shanghai,
    Nagasaki,
    Saigon,
    Manila,
    Singapore,
    Batavia,
}

/// The port with 1-based menu number `n` (1..=7).
pub open spec fn port_numbered(n: int) -> Port {
    if n == 1 {
        Port::HongKong
    } else if n == 2 {
        Port::Shanghai
    } else if n == 3 {
        Port::Nagasaki
    } else if n == 4 {
        Port::Saigon
    } else if n == 5 {
        Port::Manila
    } else if n == 6 {
        Port::Singapore
    } else {
        Port::Batavia
    }
}

impl Port {
    /// All ports in menu order.
    pub const ALL: [Port; 7] = [
        Port::HongKong,
        Port::Shanghai,
        Port::Nagasaki,
        Port::Saigon,
        Port::Manila,
        Port::Singapore,
        Port::Batavia,
    ];

    /// Home port, where the game starts and the bank and shipyard are.
    pub const HOME: Port = Port::HongKong;

    /// 1-based menu number.
    pub open spec fn number(self) -> int {
        match self {
            Port::HongKong => 1,
            Port::Shanghai => 2,
            Port::Nagasaki => 3,
            Port::Saigon => 4,
            Port::Manila => 5,
            Port::Singapore => 6,
            Port::Batavia => 7,
        }
    }

    /// Display name.
    pub open spec fn title(self) -> Seq<char> {
        match self {
            Port::HongKong => "Hong Kong"@,
            Port::Shanghai => "Shanghai"@,
            Port::Nagasaki => "Nagasaki"@,
            Port::Saigon => "Saigon"@,
            Port::Manila => "Manila"@,
            Port::Singapore => "Singapore"@,
            Port::Batavia => "Batavia"@,
        }
    }

    pub fn name(self) -> (n: &'static str)
        ensures
            n@ == self.title(),
    {
        match self {
            Port::HongKong => "Hong Kong",
            Port::Shanghai => "Shanghai",
            Port::Nagasaki => "Nagasaki",
            Port::Saigon => "Saigon",
            Port::Manila => "Manila",
            Port::Singapore => "Singapore",
            Port::Batavia => "Batavia",
        }
    }

    /// 1-based menu number, as shown to the player.
    pub fn menu_number(self) -> (n: u32)
        ensures
            n == self.number(),
            1 <= n <= 7,
            port_numbered(n as int) == self,
    {
        match self {
            Port::HongKong => 1,
            Port::Shanghai => 2,
            Port::Nagasaki => 3,
            Port::Saigon => 4,
            Port::Manila => 5,
            Port::Singapore => 6,
            Port::Batavia => 7,
        }
    }

    /// The port for a 1-based menu selection, if there is one.
    pub fn from_menu_number(n: u32) -> (p: Option<Port>)
        ensures
            p == (if 1 <= n <= 7 { Some(port_numbered(n as int)) } else { None::<Port> }),
            p matches Some(q) ==> q.number() == n,
    {
        if n == 1 {
            Some(Port::HongKong)
        } else if n == 2 {
            Some(Port::Shanghai)
        } else if n == 3 {
            Some(Port::Nagasaki)
        } else if n == 4 {
            Some(Port::Saigon)
        } else if n == 5 {
            Some(Port::Manila)
        } else if n == 6 {
            Some(Port::Singapore)
        } else if n == 7 {
            Some(Port::Batavia)
        } else {
            None
        }
    }

    /// Separation in menu order between two ports.
    pub fn distance(self, other: Port) -> (d: u32)
        ensures
            d == (if self.number() >= other.number() {
                self.number() - other.number()
            } else {
                other.number() - self.number()
            }),
    {
        let a = self.menu_number();
        let b = other.menu_number();
        if a >= b {
            a - b
        } else {
            b - a
        }
    }
}

/// Menu numbers and ports correspond one to one: reading a port's number back gives
/// the port, and a number in `1..=7` is the number of the port it reads as.
pub proof fn law_menu_number_round_trip(p: Port, n: int)
    ensures
        port_numbered(p.number()) == p,
        1 <= p.number() <= 7,
        1 <= n <= 7 ==> port_numbered(n).number() == n,
{
}

/// Distance is symmetric, and zero exactly between a port and itself.
pub proof fn law_distance(a: Port, b: Port)
    ensures
        (if a.number() >= b.number() { a.number() - b.number() } else { b.number() - a.number() })
            == (if b.number() >= a.number() { b.number() - a.number() } else { a.number() - b.number() }),
        (a.number() == b.number()) <==> a == b,
{
}

} // verus!
