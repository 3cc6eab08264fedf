use vstd::prelude::*;

verus! {

/// A client address: an IPv4 address as its 32-bit number, or an IPv6
/// address as its 128-bit number.
#[derive(Clone, Copy, Debug, PartialEq, Eq, Hash, Structural)]
pub enum ClientAddr {
    V4(u32),
    V6(u128),
}

/// The first address that parsed among the forwarded-address headers, in
/// request order, or the peer address when none did.
pub open spec fn resolved(forwarded: Seq<Option<ClientAddr>>, peer: Option<ClientAddr>) -> Option<ClientAddr>
    decreases forwarded.len(),
{
    if forwarded.len() == 0 {
        peer
    } else {
        match forwarded[0] {
            Some(a) => Some(a),
            None => resolved(forwarded.drop_first(), peer),
        }
    }
}

/// Resolves the client's address: `forwarded` holds, for each
/// forwarded-address header of the request in order, the address its value
/// parses to, or `None` where it does not parse. The first parsed one wins;
/// otherwise the transport peer address is used, where the transport has one.
pub fn resolve_address(forwarded: &Vec<Option<ClientAddr>>, peer: Option<ClientAddr>) -> (r: Option<ClientAddr>)
    ensures
        r == resolved(forwarded@, peer),
{
    let mut i: usize = 0;
    assert(forwarded@.subrange(0, forwarded@.len() as int) =~= forwarded@);
    while i < forwarded.len()
        invariant
            i <= forwarded@.len(),
            resolved(forwarded@, peer) == resolved(forwarded@.subrange(i as int, forwarded@.len() as int), peer),
        decreases forwarded@.len() - i,
    {
        let ghost rest = forwarded@.subrange(i as int, forwarded@.len() as int);
        assert(rest.drop_first() =~= forwarded@.subrange(i + 1, forwarded@.len() as int));
        if let Some(a) = forwarded[i] {
            return Some(a);
        }
        i = i + 1;
    }
    assert(forwarded@.subrange(i as int, forwarded@.len() as int).len() == 0);
    peer
}

/// Whether `addr` is among `list`.
pub fn contains_addr(list: &Vec<ClientAddr>, addr: ClientAddr) -> (r: bool)
    ensures
        r == list@.contains(addr),
{
    let mut i: usize = 0;
    while i < list.len()
        invariant
            i <= list@.len(),
            forall|k: int| 0 <= k < i ==> list@[k] != addr,
        decreases list@.len() - i,
    {
        if list[i] == addr {
            assert(list@[i as int] == addr);
            return true;
        }
        i = i + 1;
    }
    false
}

} // verus!
