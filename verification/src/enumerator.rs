//! The interface enumerator: the host's interfaces without loopback.

use crate::address::IpAddress;
use crate::interface::Interface;
use vstd::prelude::*;

verus! {

/// Whether the daemon may serve an interface: every interface but loopback.
pub open spec fn is_usable(interface: Interface) -> bool {
    !interface.addr.is_loopback()
}

/// The usable interfaces among `all`, in the order of `all`.
pub open spec fn usable(all: Seq<Interface>) -> Seq<Interface> {
    all.filter(|interface: Interface| is_usable(interface))
}

/// What the daemon works with, given the host's answer: the usable
/// interfaces of the answer, or none where the host gave no answer.
pub open spec fn enumerated(answer: Option<Vec<Interface>>) -> Seq<Interface> {
    match answer {
        Some(all) => usable(all@),
        None => Seq::empty(),
    }
}

/// Calls `if_addrs::get_if_addrs` and hands out, for each entry that the host
/// reported, its name, its index and its address: an IPv4 address as the
/// `u32` and an IPv6 address as the `u128` that std converts it to. `None`
/// where the call returned an error. Nothing is claimed of the answer: it is
/// whatever the host reports at the moment of the call.
#[verifier::external_body]
fn host_interfaces() -> (answer: Option<Vec<Interface>>) {
    let mut found = Vec::new();
    for raw in if_addrs::get_if_addrs().ok()? {
        let addr = match raw.addr {
            if_addrs::IfAddr::V4(v4) => IpAddress::V4(u32::from(v4.ip)),
            if_addrs::IfAddr::V6(v6) => IpAddress::V6(u128::from(v6.ip)),
        };
        found.push(Interface { name: raw.name, index: raw.index, addr });
    }
    Some(found)
}

/// Keeps the usable interfaces of `all`, in order.
pub fn without_loopback(all: &Vec<Interface>) -> (kept: Vec<Interface>)
    ensures
        kept@ == usable(all@),
{
    let mut kept: Vec<Interface> = Vec::new();
    let mut i: usize = 0;
    proof {
        reveal(Seq::filter);
        assert(all@.take(0) =~= Seq::<Interface>::empty());
    }
    while i < all.len()
        invariant
            i <= all.len(),
            kept@ == usable(all@.take(i as int)),
        decreases all.len() - i,
    {
        proof {
            let pred = |interface: Interface| is_usable(interface);
            all@.take(i as int).lemma_filter_push(all@[i as int], pred);
            assert(all@.take(i as int).push(all@[i as int]) =~= all@.take(i as int + 1));
        }
        if !all[i].is_loopback() {
            kept.push(all[i].clone());
        }
        i += 1;
    }
    proof {
        assert(all@.take(all.len() as int) =~= all@);
    }
    kept
}

/// Every interface that [`usable`] keeps is usable.
pub proof fn lemma_usable_is_usable(all: Seq<Interface>)
    ensures
        forall|i: int| 0 <= i < usable(all).len() ==> is_usable(#[trigger] usable(all)[i]),
{
    let pred = |interface: Interface| is_usable(interface);
    assert forall|i: int| 0 <= i < usable(all).len() implies is_usable(
        #[trigger] usable(all)[i],
    ) by {
        all.lemma_filter_pred(pred, i);
    }
}

/// The interfaces to work with, given the host's answer to the query: its
/// usable interfaces in the order of the answer. A query that failed is no
/// error: it gives no interface.
pub fn usable_interfaces(answer: Option<Vec<Interface>>) -> (found: Vec<Interface>)
    ensures
        found@ == enumerated(answer),
        forall|i: int| 0 <= i < found.len() ==> is_usable(#[trigger] found[i]),
{
    match answer {
        Some(all) => {
            proof {
                lemma_usable_is_usable(all@);
            }
            without_loopback(&all)
        },
        None => Vec::new(),
    }
}

/// Asks the host for its interfaces and keeps the usable ones. What comes
/// back depends on the host and the moment; whatever it is, it holds no
/// loopback interface.
pub fn enumerate() -> (found: Vec<Interface>)
    ensures
        forall|i: int| 0 <= i < found.len() ==> is_usable(#[trigger] found[i]),
{
    usable_interfaces(host_interfaces())
}

} // verus!
