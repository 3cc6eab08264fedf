use crate::addr::{contains_addr, ClientAddr};
use crate::headers::{filter_headers, headers_view, kept, HeaderPair};
use crate::settings::Settings;
use crate::time::{now, Timestamp};
use crate::whitelist::{after_check, valid_at, EntryView, IpWhitelist, Lookup};
use vstd::prelude::*;

verus! {

/// Where a request goes, by its path.
#[derive(Clone, Copy, Debug, PartialEq, Eq, Structural)]
pub enum Route {
    Allowed,
    Authorize,
    NotFound,
}

/// The route of a path: `/allowed`, `/authorize`, or neither.
pub open spec fn route_of(path: Seq<char>) -> Route {
    if path == "/allowed"@ {
        Route::Allowed
    } else if path == "/authorize"@ {
        Route::Authorize
    } else {
        Route::NotFound
    }
}

/// The answer to a request.
pub enum Reply {
    /// Approved, replaying these headers.
    Approved(Vec<HeaderPair>),
    /// The address is not (or no longer) authorized.
    Forbidden,
    /// The path is unknown.
    NotFound,
    /// The system clock could not be read, so no expiry could be decided.
    Unavailable,
}

impl Reply {
    /// The HTTP status of the reply.
    pub open spec fn spec_status(&self) -> u16 {
        match self {
            Reply::Approved(_) => 200,
            Reply::Forbidden => 403,
            Reply::NotFound => 404,
            Reply::Unavailable => 503,
        }
    }

    /// The HTTP status of the reply.
    pub fn status(&self) -> (r: u16)
        ensures
            r == self.spec_status(),
    {
        match self {
            Reply::Approved(_) => 200,
            Reply::Forbidden => 403,
            Reply::NotFound => 404,
            Reply::Unavailable => 503,
        }
    }

    /// The body text of the reply.
    pub fn body(&self) -> (r: &'static str)
        ensures
            r@ == match self {
                Reply::Approved(_) => "Ok"@,
                Reply::Forbidden => "Please (re)authenticate yourself"@,
                Reply::NotFound => "not found"@,
                Reply::Unavailable => "clock unavailable"@,
            },
    {
        match self {
            Reply::Approved(_) => "Ok",
            Reply::Forbidden => "Please (re)authenticate yourself",
            Reply::NotFound => "not found",
            Reply::Unavailable => "clock unavailable",
        }
    }

    /// The headers the reply carries: those replayed on approval, else none.
    pub open spec fn replayed(&self) -> Seq<(Seq<char>, Seq<char>)> {
        match self {
            Reply::Approved(h) => headers_view(h@),
            _ => seq![],
        }
    }
}

/// Whether two strings hold the same characters.
pub fn same_text(a: &str, b: &str) -> (r: bool)
    ensures
        r == (a@ == b@),
{
    let n = a.unicode_len();
    let m = b.unicode_len();
    if n != m {
        return false;
    }
    let mut i: usize = 0;
    while i < n
        invariant
            i <= n,
            n == a@.len(),
            m == b@.len(),
            n == m,
            forall|k: int| 0 <= k < i ==> a@[k] == b@[k],
        decreases n - i,
    {
        if a.get_char(i) != b.get_char(i) {
            return false;
        }
        i = i + 1;
    }
    assert(a@ =~= b@);
    true
}

/// The route of a request path.
pub fn route(path: &str) -> (r: Route)
    ensures
        r == route_of(path@),
{
    if same_text(path, "/allowed") {
        Route::Allowed
    } else if same_text(path, "/authorize") {
        Route::Authorize
    } else {
        Route::NotFound
    }
}

/// What a check of `addr` at `now` answers against the allow-list `allow`
/// and the cache model `m`: the reply, and whether an expired entry was seen.
pub open spec fn check_outcome(
    allow: Seq<ClientAddr>,
    m: Map<ClientAddr, EntryView>,
    addr: ClientAddr,
    now: Timestamp,
    r: (Reply, bool),
) -> bool {
    if allow.contains(addr) {
        &&& r.0.spec_status() == 200
        &&& r.0.replayed() == Seq::<(Seq<char>, Seq<char>)>::empty()
        &&& !r.1
    } else {
        &&& r.0.spec_status() == if valid_at(m, addr, now) {
            200u16
        } else {
            403u16
        }
        &&& valid_at(m, addr, now) ==> r.0.replayed() == m[addr].1
        &&& r.1 == (m.contains_key(addr) && !valid_at(m, addr, now))
    }
}

/// Answers a check for `addr` at `now` from a shared view of the cache.
/// Returns the reply, and whether an expired entry for `addr` was seen and
/// should be removed.
pub fn check_shared(settings: &Settings, whitelist: &IpWhitelist, addr: ClientAddr, now: Timestamp) -> (r: (
    Reply,
    bool,
))
    requires
        whitelist.wf(),
    ensures
        check_outcome(settings.allow_list@, whitelist@, addr, now, r),
{
    if contains_addr(&settings.allow_list, addr) {
        let r = (Reply::Approved(Vec::new()), false);
        assert(r.0.replayed() =~= Seq::empty());
        return r;
    }
    match whitelist.lookup_at(&addr, now) {
        Lookup::Valid(h) => (Reply::Approved(h), false),
        Lookup::Expired => (Reply::Forbidden, true),
        Lookup::Absent => (Reply::Forbidden, false),
    }
}

/// Answers a check for `addr` at the current time from a shared view of the
/// cache, as `check_shared` does.
pub fn check_shared_now(settings: &Settings, whitelist: &IpWhitelist, addr: ClientAddr) -> (r: (
    Reply,
    bool,
))
    requires
        whitelist.wf(),
    ensures
        (exists|t: Timestamp| t.wf() && #[trigger] check_outcome(settings.allow_list@, whitelist@, addr, t, r))
            || (!settings.allow_list@.contains(addr) && r.0.spec_status() == 503 && !r.1),
        settings.allow_list@.contains(addr) ==> r.0.spec_status() == 200 && !r.1,
        !settings.allow_list@.contains(addr) && !whitelist@.contains_key(addr) ==> r.0.spec_status() != 200 && !r.1,
{
    match now() {
        Some(t) => check_shared(settings, whitelist, addr, t),
        None => {
            if contains_addr(&settings.allow_list, addr) {
                let r = (Reply::Approved(Vec::new()), false);
                assert(r.0.replayed() =~= Seq::empty());
                assert(check_outcome(settings.allow_list@, whitelist@, addr, Timestamp { day: 0, second: 0, nano: 0 }, r));
                r
            } else {
                (Reply::Unavailable, false)
            }
        },
    }
}

/// What a check of `addr` at `now` answers against the allow-list `allow`
/// and the cache model `m`, and the model `after` it leaves.
pub open spec fn allowed_outcome(
    allow: Seq<ClientAddr>,
    m: Map<ClientAddr, EntryView>,
    addr: ClientAddr,
    now: Timestamp,
    r: Reply,
    after: Map<ClientAddr, EntryView>,
) -> bool {
    if allow.contains(addr) {
        &&& r.spec_status() == 200
        &&& r.replayed() == Seq::<(Seq<char>, Seq<char>)>::empty()
        &&& after == m
    } else {
        &&& r.spec_status() == if valid_at(m, addr, now) {
            200u16
        } else {
            403u16
        }
        &&& valid_at(m, addr, now) ==> r.replayed() == m[addr].1
        &&& after == after_check(m, addr, now)
    }
}

/// Answers a check for `addr` at `now`: allow-listed addresses are approved
/// without the cache; otherwise the entry's headers are replayed while it is
/// unexpired, and an expired entry is removed.
pub fn handle_allowed(settings: &Settings, whitelist: &mut IpWhitelist, addr: ClientAddr, now: Timestamp) -> (r: Reply)
    requires
        old(whitelist).wf(),
    ensures
        final(whitelist).wf(),
        allowed_outcome(settings.allow_list@, old(whitelist)@, addr, now, r, final(whitelist)@),
        final(whitelist).cutoff_minute() == old(whitelist).cutoff_minute(),
        final(whitelist).cutoff_hour() == old(whitelist).cutoff_hour(),
        final(whitelist).advance_days() == old(whitelist).advance_days(),
{
    let (reply, expired) = check_shared(settings, whitelist, addr, now);
    if expired {
        whitelist.remove_expired_at(&addr, now);
    } else {
        assert(!settings.allow_list@.contains(addr) && !valid_at(whitelist@, addr, now) ==> whitelist@.remove(addr) =~= whitelist@);
    }
    reply
}

/// Authorizes `addr` at `now`: the request's headers whose names the
/// settings list are captured, and replace any earlier entry.
pub fn handle_authorize(
    settings: &Settings,
    whitelist: &mut IpWhitelist,
    addr: ClientAddr,
    request_headers: &Vec<HeaderPair>,
    now: Timestamp,
) -> (r: Reply)
    requires
        old(whitelist).wf(),
        now.wf(),
    ensures
        final(whitelist).wf(),
        r.spec_status() == 200,
        r.replayed() == Seq::<(Seq<char>, Seq<char>)>::empty(),
        final(whitelist)@ == old(whitelist)@.insert(
            addr,
            (old(whitelist).expiry_at(now), kept(settings.headers@, headers_view(request_headers@))),
        ),
        final(whitelist).cutoff_minute() == old(whitelist).cutoff_minute(),
        final(whitelist).cutoff_hour() == old(whitelist).cutoff_hour(),
        final(whitelist).advance_days() == old(whitelist).advance_days(),
{
    let captured = filter_headers(&settings.headers, request_headers);
    whitelist.allow_at(&addr, &captured, now);
    Reply::Approved(Vec::new())
}

/// Authorizes `addr` at the current time, as `handle_authorize` does.
pub fn handle_authorize_now(
    settings: &Settings,
    whitelist: &mut IpWhitelist,
    addr: ClientAddr,
    request_headers: &Vec<HeaderPair>,
) -> (r: Reply)
    requires
        old(whitelist).wf(),
    ensures
        final(whitelist).wf(),
        r.spec_status() == 200 || r.spec_status() == 503,
        r.replayed() == Seq::<(Seq<char>, Seq<char>)>::empty(),
        r.spec_status() == 503 ==> final(whitelist)@ == old(whitelist)@,
        r.spec_status() == 200 ==> exists|t: Timestamp|
            t.wf() && final(whitelist)@ == old(whitelist)@.insert(
                addr,
                (#[trigger] old(whitelist).expiry_at(t), kept(settings.headers@, headers_view(request_headers@))),
            ),
        final(whitelist).cutoff_minute() == old(whitelist).cutoff_minute(),
        final(whitelist).cutoff_hour() == old(whitelist).cutoff_hour(),
        final(whitelist).advance_days() == old(whitelist).advance_days(),
{
    match now() {
        Some(t) => handle_authorize(settings, whitelist, addr, request_headers, t),
        None => Reply::Unavailable,
    }
}

/// Answers a request for `path` from `addr` at `now`, carrying `request_headers`.
pub fn handle(
    settings: &Settings,
    whitelist: &mut IpWhitelist,
    path: &str,
    addr: ClientAddr,
    request_headers: &Vec<HeaderPair>,
    now: Timestamp,
) -> (r: Reply)
    requires
        old(whitelist).wf(),
        now.wf(),
    ensures
        final(whitelist).wf(),
        route_of(path@) == Route::NotFound ==> r.spec_status() == 404 && final(whitelist)@ == old(
            whitelist,
        )@,
        route_of(path@) == Route::Allowed ==> allowed_outcome(
            settings.allow_list@,
            old(whitelist)@,
            addr,
            now,
            r,
            final(whitelist)@,
        ),
        route_of(path@) == Route::Authorize ==> r.spec_status() == 200 && final(whitelist)@ == old(
            whitelist,
        )@.insert(
            addr,
            (old(whitelist).expiry_at(now), kept(settings.headers@, headers_view(request_headers@))),
        ),
        final(whitelist).cutoff_minute() == old(whitelist).cutoff_minute(),
        final(whitelist).cutoff_hour() == old(whitelist).cutoff_hour(),
        final(whitelist).advance_days() == old(whitelist).advance_days(),
{
    match route(path) {
        Route::Allowed => handle_allowed(settings, whitelist, addr, now),
        Route::Authorize => handle_authorize(settings, whitelist, addr, request_headers, now),
        Route::NotFound => Reply::NotFound,
    }
}

} // verus!
