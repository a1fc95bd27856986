//! This host's network interfaces, as the `if_addrs` crate enumerates them.

use if_addrs::Interface as IfInterface;
use vstd::prelude::*;

verus! {

#[verifier::external_type_specification]
#[verifier::external_body]
pub struct ExHostInterface(IfInterface);

/// `if_addrs::get_if_addrs`: this host's interface addresses, or `None` when
/// the operating system refuses to list them. What comes back depends on the
/// machine, so nothing is stated of it.
#[verifier::external_body]
pub(crate) fn host_interfaces() -> (r: Option<Vec<IfInterface>>) {
    if_addrs::get_if_addrs().ok()
}

/// The `name` field of an `if_addrs::Interface`.
#[verifier::external_body]
pub(crate) fn host_interface_name(i: &IfInterface) -> (r: String) {
    i.name.clone()
}

/// The address of an `if_addrs::Interface` with `Interface::is_loopback`:
/// the IPv4 octets when the `addr` field is an IPv4 address (`None` for
/// IPv6), and whether the address is a loopback one. For IPv4,
/// `is_loopback` is std's `Ipv4Addr::is_loopback`, which holds exactly of
/// 127.0.0.0/8; that is the one thing stated.
#[verifier::external_body]
pub(crate) fn host_interface_address(i: &IfInterface) -> (r: (Option<(u8, u8, u8, u8)>, bool))
    ensures
        r.0 matches Some(o) ==> r.1 == (o.0 == 127),
{
    let loopback = i.is_loopback();
    match &i.addr {
        if_addrs::IfAddr::V4(v4) => {
            let o = v4.ip.octets();
            (Some((o[0], o[1], o[2], o[3])), loopback)
        },
        if_addrs::IfAddr::V6(_) => (None, loopback),
    }
}

} // verus!
