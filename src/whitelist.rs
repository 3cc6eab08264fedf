use crate::addr::ClientAddr;
use crate::headers::{copy_headers, headers_view, HeaderPair};
use crate::time::{expiry, expiry_of, now, Timestamp};
use vstd::prelude::*;

verus! {

/// What an entry stands for: the instant it expires at, and the headers it replays.
pub type EntryView = (Timestamp, Seq<(Seq<char>, Seq<char>)>);

/// The cached record for one client address.
pub struct WhitelistElement {
    pub valid_until: Timestamp,
    pub headers: Vec<HeaderPair>,
}

impl View for WhitelistElement {
    type V = EntryView;

    open spec fn view(&self) -> EntryView {
        (self.valid_until, headers_view(self.headers@))
    }
}

impl WhitelistElement {
    /// A copy of this entry.
    pub fn copy(&self) -> (r: WhitelistElement)
        ensures
            r@ == self@,
    {
        WhitelistElement { valid_until: self.valid_until, headers: copy_headers(&self.headers) }
    }
}

/// The failure of a check: the address has no unexpired entry.
#[derive(Clone, Copy, Debug, PartialEq, Eq, Structural)]
pub struct NotAuthorized;

/// The outcome of a read-only lookup.
pub enum Lookup {
    /// The entry is unexpired; these are its headers.
    Valid(Vec<HeaderPair>),
    /// The entry exists but has expired.
    Expired,
    /// There is no entry for the address.
    Absent,
}

/// The entries of `m` that are still unexpired at `now`.
pub open spec fn unexpired(m: Map<ClientAddr, EntryView>, now: Timestamp) -> Map<ClientAddr, EntryView> {
    Map::new(|a: ClientAddr| m.contains_key(a) && now.precedes(m[a].0), |a: ClientAddr| m[a])
}

/// `m` holds an entry for `addr` that is unexpired at `now`.
pub open spec fn valid_at(m: Map<ClientAddr, EntryView>, addr: ClientAddr, now: Timestamp) -> bool {
    m.contains_key(addr) && now.precedes(m[addr].0)
}

/// `m` holds an entry for `addr` that has expired at `now`.
pub open spec fn expired_at(m: Map<ClientAddr, EntryView>, addr: ClientAddr, now: Timestamp) -> bool {
    m.contains_key(addr) && !valid_at(m, addr, now)
}

/// The cache model after a check of `addr` at `now`: an expired entry is gone.
pub open spec fn after_check(m: Map<ClientAddr, EntryView>, addr: ClientAddr, now: Timestamp) -> Map<
    ClientAddr,
    EntryView,
> {
    if valid_at(m, addr, now) {
        m
    } else {
        m.remove(addr)
    }
}

/// The whitelist cache: at most one entry per client address, each with the
/// instant it expires at, aligned to a daily cutoff.
pub struct IpWhitelist {
    // A list of slots rather than a hash map: an address is an enum over two
    // integer widths, which has no hash-key model to reason with, and the
    // sweep needs to drop entries in one pass.
    list: Vec<(ClientAddr, WhitelistElement)>,
    entries: Ghost<Map<ClientAddr, EntryView>>,
    minute: u8,
    hour: u8,
    days: u32,
}

impl View for IpWhitelist {
    type V = Map<ClientAddr, EntryView>;

    closed spec fn view(&self) -> Map<ClientAddr, EntryView> {
        self.entries@
    }
}

impl IpWhitelist {
    /// The cutoff's minute.
    pub closed spec fn cutoff_minute(&self) -> u8 {
        self.minute
    }

    /// The cutoff's hour.
    pub closed spec fn cutoff_hour(&self) -> u8 {
        self.hour
    }

    /// The least number of days an entry stays valid.
    pub closed spec fn advance_days(&self) -> u32 {
        self.days
    }

    /// The expiry of an entry authorized at `now` in this cache.
    pub open spec fn expiry_at(&self, now: Timestamp) -> Timestamp {
        expiry_of(now, self.advance_days(), self.cutoff_hour(), self.cutoff_minute())
    }

    /// Well-formedness: the cutoff is a time of day, addresses are unique in
    /// the list, and the list holds exactly the entries of the model.
    pub closed spec fn wf(&self) -> bool {
        &&& self.hour <= 23
        &&& self.minute <= 59
        &&& forall|i: int, j: int|
            0 <= i < j < self.list@.len() ==> (#[trigger] self.list@[i]).0 != (#[trigger] self.list@[j]).0
        &&& forall|i: int|
            0 <= i < self.list@.len() ==> self.entries@.contains_key((#[trigger] self.list@[i]).0)
                && self.entries@[self.list@[i].0] == self.list@[i].1@
        &&& forall|a: ClientAddr|
            self.entries@.contains_key(a) ==> exists|i: int|
                0 <= i < self.list@.len() && (#[trigger] self.list@[i]).0 == a
    }

    /// An empty cache whose entries expire at `hour:minute:00`, at least `days` days out.
    pub fn build(minute: u8, hour: u8, days: u32) -> (r: IpWhitelist)
        requires
            hour <= 23,
            minute <= 59,
        ensures
            r.wf(),
            r@ == Map::<ClientAddr, EntryView>::empty(),
            r.cutoff_minute() == minute,
            r.cutoff_hour() == hour,
            r.advance_days() == days,
    {
        IpWhitelist { list: Vec::new(), entries: Ghost(Map::empty()), minute, hour, days }
    }

    /// The position of `addr` in the list, if it has an entry.
    fn find(&self, addr: &ClientAddr) -> (r: Option<usize>)
        requires
            self.wf(),
        ensures
            match r {
                Some(i) => i < self.list@.len() && self.list@[i as int].0 == *addr
                    && self@.contains_key(*addr),
                None => !self@.contains_key(*addr),
            },
    {
        let mut i: usize = 0;
        while i < self.list.len()
            invariant
                self.wf(),
                i <= self.list@.len(),
                forall|k: int| 0 <= k < i ==> (#[trigger] self.list@[k]).0 != *addr,
            decreases self.list@.len() - i,
        {
            if self.list[i].0 == *addr {
                return Some(i);
            }
            i = i + 1;
        }
        None
    }

    /// A copy of the entry for `addr`, if there is one.
    pub fn get_ip(&self, addr: &ClientAddr) -> (r: Option<WhitelistElement>)
        requires
            self.wf(),
        ensures
            match r {
                Some(e) => self@.contains_key(*addr) && e@ == self@[*addr],
                None => !self@.contains_key(*addr),
            },
    {
        match self.find(addr) {
            Some(i) => Some(self.list[i].1.copy()),
            None => None,
        }
    }

    /// Removes the entry for `addr`, if there is one.
    pub fn delete_ip(&mut self, addr: &ClientAddr)
        requires
            old(self).wf(),
        ensures
            final(self).wf(),
            final(self)@ == old(self)@.remove(*addr),
            final(self).cutoff_minute() == old(self).cutoff_minute(),
            final(self).cutoff_hour() == old(self).cutoff_hour(),
            final(self).advance_days() == old(self).advance_days(),
    {
        match self.find(addr) {
            Some(i) => {
                let ghost old_list = self.list@;
                let ghost old_map = self.entries@;
                self.list.remove(i);
                self.entries = Ghost(old_map.remove(*addr));
                assert forall|k: int| 0 <= k < self.list@.len() implies #[trigger] self.list@[k] == (
                if k < i {
                    old_list[k]
                } else {
                    old_list[k + 1]
                }) by {}
                assert forall|a: ClientAddr| self.entries@.contains_key(a) implies exists|k: int|
                    0 <= k < self.list@.len() && (#[trigger] self.list@[k]).0 == a by {
                    let j = choose|j: int| 0 <= j < old_list.len() && (#[trigger] old_list[j]).0 == a;
                    if j < i {
                        assert(self.list@[j].0 == a);
                    } else {
                        assert(j != i);
                        assert(self.list@[j - 1].0 == a);
                    }
                }
            },
            None => {
                assert(self.entries@.remove(*addr) =~= self.entries@);
            },
        }
    }

    /// The expiry for an entry authorized at `now`.
    pub fn new_valid_until(&self, now: Timestamp) -> (r: Timestamp)
        requires
            self.wf(),
            now.wf(),
        ensures
            r == self.expiry_at(now),
    {
        expiry(now, self.days, self.hour, self.minute)
    }

    /// Inserts or replaces the entry for `addr`, with a copy of `headers`,
    /// expiring at the cutoff computed from `now`.
    pub fn allow_at(&mut self, addr: &ClientAddr, headers: &Vec<HeaderPair>, now: Timestamp)
        requires
            old(self).wf(),
            now.wf(),
        ensures
            final(self).wf(),
            final(self)@ == old(self)@.insert(*addr, (old(self).expiry_at(now), headers_view(headers@))),
            final(self).cutoff_minute() == old(self).cutoff_minute(),
            final(self).cutoff_hour() == old(self).cutoff_hour(),
            final(self).advance_days() == old(self).advance_days(),
    {
        let valid_until = self.new_valid_until(now);
        let element = WhitelistElement { valid_until, headers: copy_headers(headers) };
        let ghost old_list = self.list@;
        let ghost old_map = self.entries@;
        let ghost value = element@;
        match self.find(addr) {
            Some(i) => {
                self.list.set(i, (*addr, element));
                self.entries = Ghost(old_map.insert(*addr, value));
                assert forall|k: int| 0 <= k < self.list@.len() && k != i implies #[trigger] self.list@[k]
                    == old_list[k] by {}
                assert forall|a: ClientAddr| self.entries@.contains_key(a) implies exists|k: int|
                    0 <= k < self.list@.len() && (#[trigger] self.list@[k]).0 == a by {
                    if a != *addr {
                        let j = choose|j: int| 0 <= j < old_list.len() && (#[trigger] old_list[j]).0 == a;
                        assert(self.list@[j].0 == a);
                    } else {
                        assert(self.list@[i as int].0 == a);
                    }
                }
            },
            None => {
                self.list.push((*addr, element));
                self.entries = Ghost(old_map.insert(*addr, value));
                assert forall|k: int| 0 <= k < old_list.len() implies #[trigger] self.list@[k]
                    == old_list[k] by {}
                assert forall|a: ClientAddr| self.entries@.contains_key(a) implies exists|k: int|
                    0 <= k < self.list@.len() && (#[trigger] self.list@[k]).0 == a by {
                    if a != *addr {
                        let j = choose|j: int| 0 <= j < old_list.len() && (#[trigger] old_list[j]).0 == a;
                        assert(self.list@[j].0 == a);
                    } else {
                        assert(self.list@[old_list.len() as int].0 == a);
                    }
                }
            },
        }
    }
    /// Inserts or replaces the entry for `addr`, with a copy of `headers`,
    /// expiring at the cutoff computed from the current time. Returns `false`,
    /// and leaves the cache as it is, when the clock cannot be read.
    pub fn allow(&mut self, addr: &ClientAddr, headers: &Vec<HeaderPair>) -> (r: bool)
        requires
            old(self).wf(),
        ensures
            final(self).wf(),
            r ==> exists|t: Timestamp|
                t.wf() && final(self)@ == old(self)@.insert(
                    *addr,
                    (#[trigger] old(self).expiry_at(t), headers_view(headers@)),
                ),
            !r ==> final(self)@ == old(self)@,
            final(self).cutoff_minute() == old(self).cutoff_minute(),
            final(self).cutoff_hour() == old(self).cutoff_hour(),
            final(self).advance_days() == old(self).advance_days(),
    {
        match now() {
            Some(t) => {
                self.allow_at(addr, headers, t);
                true
            },
            None => false,
        }
    }

    /// Looks `addr` up at `now` without changing the cache.
    pub fn lookup_at(&self, addr: &ClientAddr, now: Timestamp) -> (r: Lookup)
        requires
            self.wf(),
        ensures
            match r {
                Lookup::Valid(h) => valid_at(self@, *addr, now) && headers_view(h@) == self@[*addr].1,
                Lookup::Expired => self@.contains_key(*addr) && !valid_at(self@, *addr, now),
                Lookup::Absent => !self@.contains_key(*addr),
            },
    {
        match self.find(addr) {
            Some(i) => {
                if now.is_before(&self.list[i].1.valid_until) {
                    Lookup::Valid(copy_headers(&self.list[i].1.headers))
                } else {
                    Lookup::Expired
                }
            },
            None => Lookup::Absent,
        }
    }

    /// Removes the entry for `addr` if it has expired at `now`; an entry that
    /// is unexpired at `now` (a newer one, say) stays. Returns whether one was removed.
    pub fn remove_expired_at(&mut self, addr: &ClientAddr, now: Timestamp) -> (r: bool)
        requires
            old(self).wf(),
        ensures
            final(self).wf(),
            r == (old(self)@.contains_key(*addr) && !valid_at(old(self)@, *addr, now)),
            final(self)@ == if r {
                old(self)@.remove(*addr)
            } else {
                old(self)@
            },
            final(self).cutoff_minute() == old(self).cutoff_minute(),
            final(self).cutoff_hour() == old(self).cutoff_hour(),
            final(self).advance_days() == old(self).advance_days(),
    {
        match self.find(addr) {
            Some(i) => {
                if now.is_before(&self.list[i].1.valid_until) {
                    false
                } else {
                    self.delete_ip(addr);
                    true
                }
            },
            None => false,
        }
    }

    /// Removes the entry for `addr` if it has expired at the current time.
    /// Returns whether one was removed; when the clock cannot be read, none is.
    pub fn remove_expired(&mut self, addr: &ClientAddr) -> (r: bool)
        requires
            old(self).wf(),
        ensures
            final(self).wf(),
            (exists|t: Timestamp| t.wf() && r == #[trigger] expired_at(old(self)@, *addr, t)) || !r,
            r ==> old(self)@.contains_key(*addr),
            final(self)@ == if r {
                old(self)@.remove(*addr)
            } else {
                old(self)@
            },
            final(self).cutoff_minute() == old(self).cutoff_minute(),
            final(self).cutoff_hour() == old(self).cutoff_hour(),
            final(self).advance_days() == old(self).advance_days(),
    {
        match now() {
            Some(t) => {
                let ghost m = self@;
                let r = self.remove_expired_at(addr, t);
                assert(t.wf() && r == expired_at(m, *addr, t));
                r
            },
            None => false,
        }
    }

    /// The headers of the entry for `addr` if it is unexpired at `now`;
    /// otherwise `NotAuthorized`, and an expired entry is removed.
    pub fn is_allowed_at(&mut self, addr: &ClientAddr, now: Timestamp) -> (r: Result<
        Vec<HeaderPair>,
        NotAuthorized,
    >)
        requires
            old(self).wf(),
        ensures
            final(self).wf(),
            r is Ok <==> valid_at(old(self)@, *addr, now),
            match r {
                Ok(h) => headers_view(h@) == old(self)@[*addr].1,
                Err(_) => true,
            },
            final(self)@ == if valid_at(old(self)@, *addr, now) {
                old(self)@
            } else {
                old(self)@.remove(*addr)
            },
            final(self).cutoff_minute() == old(self).cutoff_minute(),
            final(self).cutoff_hour() == old(self).cutoff_hour(),
            final(self).advance_days() == old(self).advance_days(),
    {
        match self.lookup_at(addr, now) {
            Lookup::Valid(h) => Ok(h),
            Lookup::Expired => {
                self.remove_expired_at(addr, now);
                Err(NotAuthorized)
            },
            Lookup::Absent => {
                assert(self@.remove(*addr) =~= self@);
                Err(NotAuthorized)
            },
        }
    }

    /// The headers of the entry for `addr` if it is unexpired at the current
    /// time; otherwise `NotAuthorized`, and an expired entry is removed. When
    /// the clock cannot be read the answer is `NotAuthorized` and nothing changes.
    pub fn is_allowed(&mut self, addr: &ClientAddr) -> (r: Result<Vec<HeaderPair>, NotAuthorized>)
        requires
            old(self).wf(),
        ensures
            final(self).wf(),
            (exists|t: Timestamp|
                t.wf() && (r is Ok) == valid_at(old(self)@, *addr, t) && final(self)@ == #[trigger] after_check(
                    old(self)@,
                    *addr,
                    t,
                )) || (r is Err && final(self)@ == old(self)@),
            !old(self)@.contains_key(*addr) ==> r is Err,
            match r {
                Ok(h) => old(self)@.contains_key(*addr) && headers_view(h@) == old(self)@[*addr].1
                    && final(self)@ == old(self)@,
                Err(_) => final(self)@ == old(self)@.remove(*addr) || final(self)@ == old(self)@,
            },
            final(self).cutoff_minute() == old(self).cutoff_minute(),
            final(self).cutoff_hour() == old(self).cutoff_hour(),
            final(self).advance_days() == old(self).advance_days(),
    {
        match now() {
            Some(t) => {
                let ghost m = self@;
                let r = self.is_allowed_at(addr, t);
                assert(t.wf() && (r is Ok) == valid_at(m, *addr, t) && self@ == after_check(m, *addr, t));
                r
            },
            None => Err(NotAuthorized),
        }
    }

    /// Removes every entry that has expired at `now`, in one pass.
    pub fn prune_at(&mut self, now: Timestamp)
        requires
            old(self).wf(),
        ensures
            final(self).wf(),
            final(self)@ == unexpired(old(self)@, now),
            final(self).cutoff_minute() == old(self).cutoff_minute(),
            final(self).cutoff_hour() == old(self).cutoff_hour(),
            final(self).advance_days() == old(self).advance_days(),
    {
        let ghost m = self.entries@;
        let ghost p = unexpired(m, now);
        assert forall|a: ClientAddr| #[trigger] p.contains_key(a) == valid_at(m, a, now) && (
        p.contains_key(a) ==> p[a] == m[a]) by {}
        let mut src: Vec<(ClientAddr, WhitelistElement)> = Vec::new();
        std::mem::swap(&mut src, &mut self.list);
        let ghost s = src@;
        assert(s.subrange(0, s.len() as int) =~= s);
        let mut kept: Vec<(ClientAddr, WhitelistElement)> = Vec::new();
        proof {
            reveal(keys_unique);
            reveal(agrees);
            reveal(drawn_from);
            reveal(covers);
        }
        while src.len() > 0
            invariant
                forall|a: ClientAddr| #[trigger] p.contains_key(a) == valid_at(m, a, now) && (
                p.contains_key(a) ==> p[a] == m[a]),
                src@.len() <= s.len(),
                src@ == s.subrange(0, src@.len() as int),
                keys_unique(s),
                forall|i: int| 0 <= i < s.len() ==> m.contains_key((#[trigger] s[i]).0) && m[s[i].0] == s[i].1@,
                forall|a: ClientAddr| m.contains_key(a) ==> exists|j: int| 0 <= j < s.len() && (#[trigger] s[j]).0 == a,
                keys_unique(kept@),
                agrees(kept@, p),
                drawn_from(kept@, s, src@.len() as int),
                covers(kept@, s, src@.len() as int, p),
            decreases src@.len(),
        {
            let ghost n = src@.len() as int;
            let ghost old_kept = kept@;
            let item = src.pop().unwrap();
            assert(item == s[n - 1]);
            if now.is_before(&item.1.valid_until) {
                kept.push(item);
                proof {
                    lemma_kept_push(s, old_kept, kept@, n, p);
                }
            } else {
                proof {
                    lemma_kept_skip(s, kept@, n, p);
                }
            }
        }
        assert(covers(kept@, s, 0, p));
        let ghost kv = kept@;
        self.list = kept;
        self.entries = Ghost(p);
        proof {
            reveal(keys_unique);
            reveal(agrees);
            reveal(covers);
        }
        assert forall|a: ClientAddr| self.entries@.contains_key(a) implies exists|k: int|
            0 <= k < self.list@.len() && (#[trigger] self.list@[k]).0 == a by {
            assert(m.contains_key(a));
            let j = choose|j: int| 0 <= j < s.len() && (#[trigger] s[j]).0 == a;
            assert(p.contains_key(s[j].0));
            let k = choose|k: int| 0 <= k < kv.len() && (#[trigger] kv[k]).0 == s[j].0;
            assert(self.list@[k].0 == a);
        }
    }

    /// Removes every entry that has expired at the current time, in one pass;
    /// nothing when the clock cannot be read.
    pub fn prune(&mut self)
        requires
            old(self).wf(),
        ensures
            final(self).wf(),
            (exists|t: Timestamp| t.wf() && final(self)@ == #[trigger] unexpired(old(self)@, t)) || final(self)@ == old(self)@,
            final(self).cutoff_minute() == old(self).cutoff_minute(),
            final(self).cutoff_hour() == old(self).cutoff_hour(),
            final(self).advance_days() == old(self).advance_days(),
    {
        if let Some(t) = now() {
            self.prune_at(t);
        }
    }
}

/// No two slots of `v` share an address.
#[verifier::opaque]
spec fn keys_unique(v: Seq<(ClientAddr, WhitelistElement)>) -> bool {
    forall|i: int, j: int| 0 <= i < j < v.len() ==> (#[trigger] v[i]).0 != (#[trigger] v[j]).0
}

/// Each slot of `v` holds the entry that `p` has for its address.
#[verifier::opaque]
spec fn agrees(v: Seq<(ClientAddr, WhitelistElement)>, p: Map<ClientAddr, EntryView>) -> bool {
    forall|k: int| 0 <= k < v.len() ==> p.contains_key((#[trigger] v[k]).0) && p[v[k].0] == v[k].1@
}

/// Each address of `v` occurs in `s` at or after position `lo`.
#[verifier::opaque]
spec fn drawn_from(v: Seq<(ClientAddr, WhitelistElement)>, s: Seq<(ClientAddr, WhitelistElement)>, lo: int) -> bool {
    forall|k: int| 0 <= k < v.len() ==> exists|j: int| lo <= j < s.len() && (#[trigger] s[j]).0 == (#[trigger] v[k]).0
}

/// Each address of `s` at or after position `lo` that `p` holds occurs in `v`.
#[verifier::opaque]
spec fn covers(
    v: Seq<(ClientAddr, WhitelistElement)>,
    s: Seq<(ClientAddr, WhitelistElement)>,
    lo: int,
    p: Map<ClientAddr, EntryView>,
) -> bool {
    forall|j: int| lo <= j < s.len() && p.contains_key((#[trigger] s[j]).0) ==> exists|k: int|
        0 <= k < v.len() && (#[trigger] v[k]).0 == s[j].0
}

/// Keeping the slot at `n - 1` of `s` preserves the sweep's invariant.
proof fn lemma_kept_push(
    s: Seq<(ClientAddr, WhitelistElement)>,
    old_kept: Seq<(ClientAddr, WhitelistElement)>,
    kept: Seq<(ClientAddr, WhitelistElement)>,
    n: int,
    p: Map<ClientAddr, EntryView>,
)
    requires
        1 <= n <= s.len(),
        keys_unique(s),
        keys_unique(old_kept),
        agrees(old_kept, p),
        drawn_from(old_kept, s, n),
        covers(old_kept, s, n, p),
        kept == old_kept.push(s[n - 1]),
        p.contains_key(s[n - 1].0),
        p[s[n - 1].0] == s[n - 1].1@,
    ensures
        keys_unique(kept),
        agrees(kept, p),
        drawn_from(kept, s, n - 1),
        covers(kept, s, n - 1, p),
{
    reveal(keys_unique);
    reveal(agrees);
    reveal(drawn_from);
    reveal(covers);
    assert forall|k: int| 0 <= k < old_kept.len() implies #[trigger] kept[k] == old_kept[k] by {}
    assert forall|k: int| 0 <= k < kept.len() implies exists|j: int|
        n - 1 <= j < s.len() && (#[trigger] s[j]).0 == (#[trigger] kept[k]).0 by {
        if k < old_kept.len() {
            let j = choose|j: int| n <= j < s.len() && (#[trigger] s[j]).0 == (#[trigger] old_kept[k]).0;
            assert(s[j].0 == kept[k].0);
        } else {
            assert(s[n - 1].0 == kept[k].0);
        }
    }
    assert forall|i: int, j: int| 0 <= i < j < kept.len() implies (#[trigger] kept[i]).0
        != (#[trigger] kept[j]).0 by {
        if j == old_kept.len() {
            assert(kept[i] == old_kept[i]);
            let jj = choose|jj: int| n <= jj < s.len() && (#[trigger] s[jj]).0 == (#[trigger] old_kept[i]).0;
            assert(s[jj].0 != s[n - 1].0);
        } else {
            assert(kept[i] == old_kept[i]);
            assert(kept[j] == old_kept[j]);
        }
    }
    assert forall|j: int| n - 1 <= j < s.len() && p.contains_key((#[trigger] s[j]).0) implies exists|k: int|
        0 <= k < kept.len() && (#[trigger] kept[k]).0 == s[j].0 by {
        if j == n - 1 {
            assert(kept[old_kept.len() as int].0 == s[j].0);
        } else {
            let k = choose|k: int| 0 <= k < old_kept.len() && (#[trigger] old_kept[k]).0 == s[j].0;
            assert(kept[k].0 == s[j].0);
        }
    }
}

/// Dropping the slot at `n - 1` of `s`, which `p` does not hold, preserves the sweep's invariant.
proof fn lemma_kept_skip(
    s: Seq<(ClientAddr, WhitelistElement)>,
    kept: Seq<(ClientAddr, WhitelistElement)>,
    n: int,
    p: Map<ClientAddr, EntryView>,
)
    requires
        1 <= n <= s.len(),
        drawn_from(kept, s, n),
        covers(kept, s, n, p),
        !p.contains_key(s[n - 1].0),
    ensures
        drawn_from(kept, s, n - 1),
        covers(kept, s, n - 1, p),
{
    reveal(drawn_from);
    reveal(covers);
    assert forall|k: int| 0 <= k < kept.len() implies exists|j: int|
        n - 1 <= j < s.len() && (#[trigger] s[j]).0 == (#[trigger] kept[k]).0 by {
        let j = choose|j: int| n <= j < s.len() && (#[trigger] s[j]).0 == (#[trigger] kept[k]).0;
    }
}

} // verus!
