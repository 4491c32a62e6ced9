//! Network interfaces as the daemon identifies them.

use crate::address::{Family, IpAddress};
use vstd::prelude::*;

verus! {

/// What identifies an interface: its name, its numeric index where the host
/// reports one, and the address bound to it. Two interfaces may share a name
/// and differ in address or family.
pub struct InterfaceId {
    pub name: Seq<char>,
    pub index: Option<u32>,
    pub addr: IpAddress,
}

/// One address of one network interface of the host.
#[derive(Debug, Hash)]
pub struct Interface {
    pub name: String,
    pub index: Option<u32>,
    pub addr: IpAddress,
}

impl View for Interface {
    type V = InterfaceId;

    open spec fn view(&self) -> InterfaceId {
        InterfaceId { name: self.name@, index: self.index, addr: self.addr }
    }
}

impl InterfaceId {
    /// The scope that selects the interface for IPv6 multicast: its index, or
    /// 0 where the host reported none.
    pub open spec fn scope(self) -> u32 {
        match self.index {
            Some(index) => index,
            None => 0,
        }
    }
}

/// A clone is the same interface.
impl Clone for Interface {
    fn clone(&self) -> (copy: Self)
        ensures
            copy == *self,
    {
        Interface { name: self.name.clone(), index: self.index, addr: self.addr }
    }
}

/// Two interfaces are equal when name, index and address are.
impl PartialEq for Interface {
    fn eq(&self, other: &Self) -> (equal: bool) {
        let same_index = match (self.index, other.index) {
            (Some(a), Some(b)) => a == b,
            (None, None) => true,
            _ => false,
        };
        self.name == other.name && same_index && self.addr == other.addr
    }
}

impl Eq for Interface {}

impl vstd::std_specs::cmp::PartialEqSpecImpl for Interface {
    open spec fn obeys_eq_spec() -> bool {
        true
    }

    open spec fn eq_spec(&self, other: &Self) -> bool {
        self@ == other@
    }
}

impl Interface {
    /// The interface of the given name and index with the given address.
    pub fn new(name: String, index: Option<u32>, addr: IpAddress) -> (interface: Interface)
        ensures
            interface == (Interface { name, index, addr }),
    {
        Interface { name, index, addr }
    }

    /// The address family of the interface's address.
    pub fn family(&self) -> (family: Family)
        ensures
            family == self@.addr.family(),
    {
        self.addr.family()
    }

    /// Whether the interface's address is a loopback address.
    pub fn is_loopback(&self) -> (loopback: bool)
        ensures
            loopback == self@.addr.is_loopback(),
    {
        self.addr.is_loopback()
    }

    /// The interface's index, or 0 where the host reported none.
    pub fn scope(&self) -> (scope: u32)
        ensures
            scope == self@.scope(),
    {
        match self.index {
            Some(index) => index,
            None => 0,
        }
    }
}

/// The identities of a sequence of interfaces, in the same order.
pub open spec fn ids(interfaces: Seq<Interface>) -> Seq<InterfaceId> {
    interfaces.map_values(|interface: Interface| interface@)
}

} // verus!
