use crate::addr::ClientAddr;
use crate::handler::{check_shared_now, handle_authorize_now, route, route_of, Reply, Route};
use crate::headers::HeaderPair;
use crate::settings::Settings;
use crate::whitelist::IpWhitelist;
use vstd::prelude::*;
use vstd::rwlock::{RwLock, RwLockPredicate};

verus! {

/// The lock invariant of the shared cache: the cache is well-formed and keeps
/// the cutoff it was built with.
pub struct CacheInvariant {
    pub minute: u8,
    pub hour: u8,
    pub days: u32,
}

impl RwLockPredicate<IpWhitelist> for CacheInvariant {
    open spec fn inv(self, v: IpWhitelist) -> bool {
        &&& v.wf()
        &&& v.cutoff_minute() == self.minute
        &&& v.cutoff_hour() == self.hour
        &&& v.advance_days() == self.days
    }
}

/// The whitelist cache shared between worker threads and the sweeper, behind
/// one read/write lock. Checks of unexpired entries take the shared lock;
/// authorizations, sweeps and the removal of an expired entry take the
/// exclusive one.
pub struct SharedWhitelist {
    lock: RwLock<IpWhitelist, CacheInvariant>,
}

impl SharedWhitelist {
    /// The cutoff the cache was built with.
    pub closed spec fn cutoff(&self) -> (u8, u8, u32) {
        (self.lock.pred().hour, self.lock.pred().minute, self.lock.pred().days)
    }

    /// An empty shared cache whose entries expire at `hour:minute:00`, at
    /// least `days` days out.
    pub fn build(minute: u8, hour: u8, days: u32) -> (r: SharedWhitelist)
        requires
            hour <= 23,
            minute <= 59,
        ensures
            r.cutoff() == (hour, minute, days),
    {
        let w = IpWhitelist::build(minute, hour, days);
        SharedWhitelist { lock: RwLock::new(w, Ghost(CacheInvariant { minute, hour, days })) }
    }

    /// Answers a check for `addr` at the current time. An expired entry seen
    /// under the shared lock is removed under the exclusive lock only if it
    /// is still expired then, so an entry authorized meanwhile stays.
    pub fn check(&self, settings: &Settings, addr: ClientAddr) -> (r: Reply)
        ensures
            settings.allow_list@.contains(addr) ==> r.spec_status() == 200 && r.replayed() == Seq::<
                (Seq<char>, Seq<char>),
            >::empty(),
            r.spec_status() == 200 || r.spec_status() == 403 || r.spec_status() == 503,
    {
        let handle = self.lock.acquire_read();
        let (reply, expired) = check_shared_now(settings, handle.borrow(), addr);
        handle.release_read();
        if expired {
            let (mut w, write) = self.lock.acquire_write();
            w.remove_expired(&addr);
            write.release_write(w);
        }
        reply
    }

    /// Authorizes `addr` at the current time with the listed headers of the
    /// request, replacing any earlier entry as a whole.
    pub fn authorize(&self, settings: &Settings, addr: ClientAddr, request_headers: &Vec<HeaderPair>) -> (r: Reply)
        ensures
            r.spec_status() == 200 || r.spec_status() == 503,
            r.replayed() == Seq::<(Seq<char>, Seq<char>)>::empty(),
    {
        let (mut w, write) = self.lock.acquire_write();
        let reply = handle_authorize_now(settings, &mut w, addr, request_headers);
        write.release_write(w);
        reply
    }

    /// Answers a request for `path` from `addr`, carrying `request_headers`,
    /// at the current time: `/allowed` checks, `/authorize` authorizes, any
    /// other path is not found and leaves the cache alone.
    pub fn handle(
        &self,
        settings: &Settings,
        path: &str,
        addr: ClientAddr,
        request_headers: &Vec<HeaderPair>,
    ) -> (r: Reply)
        ensures
            route_of(path@) == Route::NotFound ==> r.spec_status() == 404,
            route_of(path@) == Route::Allowed ==> r.spec_status() == 200 || r.spec_status() == 403
                || r.spec_status() == 503,
            route_of(path@) == Route::Allowed && settings.allow_list@.contains(addr) ==> r.spec_status()
                == 200 && r.replayed() == Seq::<(Seq<char>, Seq<char>)>::empty(),
            route_of(path@) == Route::Authorize ==> (r.spec_status() == 200 || r.spec_status() == 503)
                && r.replayed() == Seq::<(Seq<char>, Seq<char>)>::empty(),
    {
        match route(path) {
            Route::Allowed => self.check(settings, addr),
            Route::Authorize => self.authorize(settings, addr, request_headers),
            Route::NotFound => Reply::NotFound,
        }
    }

    /// Removes every entry that has expired at the current time.
    pub fn prune(&self) {
        let (mut w, write) = self.lock.acquire_write();
        w.prune();
        write.release_write(w);
    }
}

} // verus!
