use crate::addr::ClientAddr;
use crate::time::{expiry_of, Timestamp};
use crate::whitelist::{unexpired, valid_at, EntryView};
use vstd::prelude::*;

verus! {

/// A check at the instant of an authorization finds the entry valid, with
/// exactly the headers that were captured. The one exception is an
/// authorization that falls exactly on the cutoff with no days of advance:
/// its entry expires at that very instant.
pub proof fn lemma_check_after_authorize(
    m: Map<ClientAddr, EntryView>,
    addr: ClientAddr,
    h: Seq<(Seq<char>, Seq<char>)>,
    now: Timestamp,
    days: u32,
    hour: u8,
    minute: u8,
)
    requires
        now.wf(),
        hour <= 23,
        minute <= 59,
        days > 0 || now != expiry_of(now, days, hour, minute),
    ensures
        valid_at(m.insert(addr, (expiry_of(now, days, hour, minute), h)), addr, now),
        m.insert(addr, (expiry_of(now, days, hour, minute), h))[addr].1 == h,
{
}

/// Every expiry lies at the cutoff time of day, on a day at least `days`
/// days after the authorization, and at most one day more.
pub proof fn lemma_expiry_aligned(now: Timestamp, days: u32, hour: u8, minute: u8)
    requires
        now.wf(),
        hour <= 23,
        minute <= 59,
    ensures
        expiry_of(now, days, hour, minute).second == hour as int * 3600 + minute as int * 60,
        expiry_of(now, days, hour, minute).nano == 0,
        now.day + days <= expiry_of(now, days, hour, minute).day <= now.day + days + 1,
        expiry_of(now, days, hour, minute).wf() || now.day + days + 1 > i32::MAX,
{
}

/// Once an entry's expiry has passed, a check fails, and a sweep at that
/// instant or later leaves no entry for the address, whether or not the
/// check already removed it.
pub proof fn lemma_expired_check_then_prune(
    m: Map<ClientAddr, EntryView>,
    addr: ClientAddr,
    t: Timestamp,
    later: Timestamp,
)
    requires
        m.contains_key(addr),
        !t.precedes(m[addr].0),
        !later.precedes(t),
    ensures
        !valid_at(m, addr, t),
        !unexpired(m.remove(addr), later).contains_key(addr),
        !unexpired(m, later).contains_key(addr),
        !unexpired(m, t).contains_key(addr),
{
}

/// A sweep keeps every entry whose expiry is still ahead, unchanged.
pub proof fn lemma_prune_keeps_unexpired(m: Map<ClientAddr, EntryView>, now: Timestamp, addr: ClientAddr)
    requires
        m.contains_key(addr),
        now.precedes(m[addr].0),
    ensures
        unexpired(m, now).contains_key(addr),
        unexpired(m, now)[addr] == m[addr],
{
}

/// Sweeping twice at one instant is the same as sweeping once.
pub proof fn lemma_prune_idempotent(m: Map<ClientAddr, EntryView>, now: Timestamp)
    ensures
        unexpired(unexpired(m, now), now) == unexpired(m, now),
{
    assert(unexpired(unexpired(m, now), now) =~= unexpired(m, now));
}

/// Authorizing an address twice at one instant with the same headers leaves
/// the same single entry, with the same expiry, as authorizing it once.
pub proof fn lemma_authorize_idempotent(
    m: Map<ClientAddr, EntryView>,
    addr: ClientAddr,
    h: Seq<(Seq<char>, Seq<char>)>,
    now: Timestamp,
    days: u32,
    hour: u8,
    minute: u8,
)
    ensures
        ({
            let e = (expiry_of(now, days, hour, minute), h);
            &&& m.insert(addr, e).insert(addr, e) == m.insert(addr, e)
            &&& m.insert(addr, e).dom() == m.dom().insert(addr)
        }),
{
    let e = (expiry_of(now, days, hour, minute), h);
    assert(m.insert(addr, e).insert(addr, e) =~= m.insert(addr, e));
}

/// A later authorization replaces the whole entry: the address then holds
/// exactly the later expiry and headers, never a mix with the earlier ones.
pub proof fn lemma_overwrite_whole_entry(
    m: Map<ClientAddr, EntryView>,
    addr: ClientAddr,
    first: EntryView,
    second: EntryView,
)
    ensures
        m.insert(addr, first).insert(addr, second) == m.insert(addr, second),
        m.insert(addr, first).insert(addr, second)[addr] == second,
{
    assert(m.insert(addr, first).insert(addr, second) =~= m.insert(addr, second));
}

} // verus!
