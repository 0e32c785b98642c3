//! The address under which the host is known to the distribution platform.

use vstd::prelude::*;

verus! {

/// The host's network identity.
#[derive(Debug, PartialEq)]
pub struct InterfaceAddr {
    pub ip_address: String,
    /// Hardware address, in upper case.
    pub mac_address: String,
}

/// An `InterfaceAddr` as text.
pub struct InterfaceAddrModel {
    pub ip_address: Seq<char>,
    pub mac_address: Seq<char>,
}

impl DeepView for InterfaceAddr {
    type V = InterfaceAddrModel;

    open spec fn deep_view(&self) -> InterfaceAddrModel {
        InterfaceAddrModel { ip_address: self.ip_address@, mac_address: self.mac_address@ }
    }
}

/// One address of one of the host's network interfaces.
#[derive(Debug, PartialEq)]
pub struct NetworkInterface {
    pub name: String,
    pub ip_address: String,
    pub is_loopback: bool,
    pub is_ipv4: bool,
    /// Hardware address of the interface, if it has one.
    pub mac_address: Option<String>,
}

/// A `NetworkInterface` as text.
pub struct NetworkInterfaceModel {
    pub name: Seq<char>,
    pub ip_address: Seq<char>,
    pub is_loopback: bool,
    pub is_ipv4: bool,
    pub mac_address: Option<Seq<char>>,
}

impl DeepView for NetworkInterface {
    type V = NetworkInterfaceModel;

    open spec fn deep_view(&self) -> NetworkInterfaceModel {
        NetworkInterfaceModel {
            name: self.name@,
            ip_address: self.ip_address@,
            is_loopback: self.is_loopback,
            is_ipv4: self.is_ipv4,
            mac_address: self.mac_address.deep_view(),
        }
    }
}

/// The upper-case form of a text.
pub uninterp spec fn uppercase(text: Seq<char>) -> Seq<char>;

/// Calls `str::to_uppercase` of the standard library. The result is taken
/// to depend on the characters of `text` alone.
#[verifier::external_body]
fn to_uppercase(text: &str) -> (r: String)
    ensures
        r@ == uppercase(text@),
{
    text.to_uppercase()
}

/// Whether an address can serve to reach the host from outside.
pub open spec fn is_routable(interface: NetworkInterfaceModel) -> bool {
    !interface.is_loopback && interface.is_ipv4
}

/// Index of the first routable address, or the number of addresses if
/// there is none.
pub open spec fn first_routable(interfaces: Seq<NetworkInterfaceModel>) -> int
    decreases interfaces.len(),
{
    if interfaces.len() == 0 || is_routable(interfaces[0]) {
        0
    } else {
        1 + first_routable(interfaces.drop_first())
    }
}

/// The identity that the host's addresses give it: the first IPv4 address
/// that is not a loopback, with the hardware address of its interface.
pub open spec fn interface_address(interfaces: Seq<NetworkInterfaceModel>) -> Option<
    InterfaceAddrModel,
> {
    let i = first_routable(interfaces);
    if i < interfaces.len() {
        match interfaces[i].mac_address {
            Some(mac) => Some(
                InterfaceAddrModel {
                    ip_address: interfaces[i].ip_address,
                    mac_address: uppercase(mac),
                },
            ),
            None => None,
        }
    } else {
        None
    }
}

/// Picks the host's network identity among the addresses of its
/// interfaces. `None` if no address is routable or the interface of the
/// first routable one has no hardware address.
pub fn get_interface_address(interfaces: &Vec<NetworkInterface>) -> (r: Option<InterfaceAddr>)
    ensures
        r.deep_view() == interface_address(interfaces.deep_view()),
{
    let ghost all = interfaces.deep_view();
    let mut i: usize = 0;
    assert(all.skip(0) == all);
    while i < interfaces.len() && (interfaces[i].is_loopback || !interfaces[i].is_ipv4)
        invariant
            i <= interfaces.len(),
            all == interfaces.deep_view(),
            first_routable(all) == i + first_routable(all.skip(i as int)),
        decreases interfaces.len() - i,
    {
        assert(all.skip(i as int).drop_first() == all.skip(i + 1));
        i += 1;
    }
    if i == interfaces.len() {
        return None;
    }
    assert(all[i as int] == interfaces@[i as int].deep_view());
    match &interfaces[i].mac_address {
        Some(mac) => Some(
            InterfaceAddr {
                ip_address: interfaces[i].ip_address.clone(),
                mac_address: to_uppercase(mac.as_str()),
            },
        ),
        None => None,
    }
}

} // verus!
