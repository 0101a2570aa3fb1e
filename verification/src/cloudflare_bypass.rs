//! Settings and state of the measures against Cloudflare: proxy rotation,
//! saved sessions, fingerprint spoofing and CAPTCHA service selection.
//! Reading and writing files and talking to services is left to the
//! application.

use crate::clock::{elapsed_nanos, secs_since_epoch, system_now};
use crate::text::{chars_of, eq_str, has_sub, join_chars, join_seq, views};
use std::time::SystemTime;
use vstd::prelude::*;

verus! {

/// All Cloudflare-related settings.
pub struct CloudflareConfig {
    pub proxy: ProxyConfig,
    pub browser: BrowserConfig,
    pub fingerprint: FingerprintConfig,
    pub captcha: CaptchaConfig,
    pub session: SessionConfig,
}

/// Proxy settings.
pub struct ProxyConfig {
    pub enabled: bool,
    pub proxies: Vec<String>,
    pub rotation_interval_secs: u64,
}

/// Browser settings for the bypass.
pub struct BrowserConfig {
    pub headless: bool,
    pub window_size: String,
    pub disable_webrtc: bool,
    pub disable_geolocation: bool,
}

/// Which fingerprints are spoofed.
pub struct FingerprintConfig {
    pub enabled: bool,
    pub spoof_webgl: bool,
    pub spoof_canvas: bool,
    pub spoof_audio: bool,
    pub spoof_fonts: bool,
    pub random_user_agent: bool,
}

/// CAPTCHA solving settings.
pub struct CaptchaConfig {
    pub enabled: bool,
    pub service: String,
    pub api_key: String,
    pub max_solve_time_secs: u64,
}

/// Session persistence settings.
pub struct SessionConfig {
    pub enabled: bool,
    pub cookie_file: String,
    pub session_lifetime_secs: u64,
}

/// The cookies saved for one URL, and when they were saved.
pub struct SessionData {
    pub url: String,
    pub cookies: Vec<Cookie>,
    pub created_at: u64,
}

/// A browser cookie.
pub struct Cookie {
    pub name: String,
    pub value: String,
    pub domain: String,
    pub path: String,
    pub expires: Option<u64>,
}

impl Cookie {
    /// A copy of this cookie.
    pub fn duplicate(&self) -> (c: Cookie)
        ensures
            c == *self,
    {
        Cookie {
            name: self.name.clone(),
            value: self.value.clone(),
            domain: self.domain.clone(),
            path: self.path.clone(),
            expires: self.expires,
        }
    }
}

impl SessionData {
    /// A copy of this session.
    pub fn duplicate(&self) -> (s: SessionData)
        ensures
            s.url == self.url,
            s.cookies@ == self.cookies@,
            s.created_at == self.created_at,
    {
        let mut cookies: Vec<Cookie> = Vec::new();
        let mut i: usize = 0;
        while i < self.cookies.len()
            invariant
                i <= self.cookies@.len(),
                cookies@ == self.cookies@.take(i as int),
            decreases self.cookies@.len() - i,
        {
            cookies.push(self.cookies[i].duplicate());
            i = i + 1;
            assert(cookies@ =~= self.cookies@.take(i as int));
        }
        assert(self.cookies@.take(self.cookies@.len() as int) =~= self.cookies@);
        SessionData { url: self.url.clone(), cookies, created_at: self.created_at }
    }
}

// ---------------------------------------------------------------------------
// Proxy rotation
// ---------------------------------------------------------------------------

/// Rotates through a list of proxies at a fixed interval.
pub struct ProxyRotator {
    proxies: Vec<String>,
    current_index: usize,
    last_rotation: SystemTime,
    rotation_interval_secs: u64,
}

impl ProxyRotator {
    /// The index of the proxy in use is in range whenever there is a proxy.
    #[verifier::type_invariant]
    spec fn index_in_range(self) -> bool {
        self.proxies@.len() == 0 || self.current_index < self.proxies@.len()
    }

    /// The proxies, in rotation order.
    pub closed spec fn proxy_list(self) -> Seq<String> {
        self.proxies@
    }

    /// The index of the proxy in use.
    pub closed spec fn index(self) -> nat {
        self.current_index as nat
    }

    /// Seconds between rotations.
    pub closed spec fn interval_secs(self) -> u64 {
        self.rotation_interval_secs
    }

    /// When the rotator last moved on (or was made).
    pub closed spec fn last_rotation(self) -> SystemTime {
        self.last_rotation
    }

    /// A rotator over `proxies` that starts with the first one.
    pub fn new(proxies: Vec<String>, rotation_interval_secs: u64) -> (r: Self)
        ensures
            r.proxy_list() == proxies@,
            r.index() == 0,
            r.interval_secs() == rotation_interval_secs,
    {
        ProxyRotator {
            proxies,
            current_index: 0,
            last_rotation: system_now(),
            rotation_interval_secs,
        }
    }

    /// The proxy to use, given how long ago (in nanoseconds) the last rotation
    /// was, `None` standing for a clock that went backwards (taken as no time
    /// at all). When a full interval has passed, the rotator moves on to the
    /// next proxy (cyclically) and counts the interval from `now`.
    pub fn get_current_at(&mut self, elapsed: Option<u128>, now: SystemTime) -> (r: Option<&str>)
        ensures
            final(self).proxy_list() == old(self).proxy_list(),
            final(self).interval_secs() == old(self).interval_secs(),
            old(self).proxy_list().len() == 0 ==> r is None && final(self).index() == old(self).index()
                && final(self).last_rotation() == old(self).last_rotation(),
            old(self).proxy_list().len() > 0 ==> {
                let e = match elapsed {
                    Some(n) => n as int,
                    None => 0,
                };
                let due = e >= old(self).interval_secs() * 1_000_000_000;
                &&& final(self).index() == (if due {
                    (old(self).index() + 1) % old(self).proxy_list().len()
                } else {
                    old(self).index()
                })
                &&& final(self).last_rotation() == (if due {
                    now
                } else {
                    old(self).last_rotation()
                })
                &&& final(self).index() < old(self).proxy_list().len()
                &&& r matches Some(p) && p@ == old(self).proxy_list()[final(self).index() as int]@
            },
    {
        proof {
            use_type_invariant(&*self);
        }
        if self.proxies.len() == 0 {
            return None;
        }
        let e: u128 = match elapsed {
            Some(n) => n,
            None => 0,
        };
        let interval: u128 = (self.rotation_interval_secs as u128) * 1_000_000_000;
        if e >= interval {
            let next = if self.current_index + 1 < self.proxies.len() {
                self.current_index + 1
            } else {
                0
            };
            proof {
                let n = self.proxies@.len() as int;
                let c = self.current_index as int;
                if c + 1 < n {
                    vstd::arithmetic::div_mod::lemma_small_mod((c + 1) as nat, n as nat);
                } else {
                    vstd::arithmetic::div_mod::lemma_mod_self_0(n);
                }
            }
            self.current_index = next;
            self.last_rotation = now;
        }
        Some(self.proxies[self.current_index].as_str())
    }

    /// The proxy to use now, rotating first when the interval has passed: the
    /// rotator either stays on its proxy or moves on to the next one
    /// (cyclically), always moving on with a zero interval, and the proxy it
    /// then stands on is returned. Whether the interval has passed is read
    /// from the clock and is not stated otherwise.
    pub fn get_current(&mut self) -> (r: Option<&str>)
        ensures
            final(self).proxy_list() == old(self).proxy_list(),
            final(self).interval_secs() == old(self).interval_secs(),
            (r is None) == (old(self).proxy_list().len() == 0),
            old(self).proxy_list().len() == 0 ==> final(self).index() == old(self).index()
                && final(self).last_rotation() == old(self).last_rotation(),
            old(self).proxy_list().len() > 0 ==> {
                &&& final(self).index() == old(self).index() || final(self).index() == (old(
                    self,
                ).index() + 1) % old(self).proxy_list().len()
                &&& final(self).last_rotation() == old(self).last_rotation() || final(self).index() == (
                old(self).index() + 1) % old(self).proxy_list().len()
                &&& old(self).interval_secs() == 0 ==> final(self).index() == (old(self).index()
                    + 1) % old(self).proxy_list().len()
                &&& final(self).index() < old(self).proxy_list().len()
                &&& r matches Some(p) && p@ == old(self).proxy_list()[final(self).index() as int]@
            },
            r matches Some(p) ==> exists|i: int|
                0 <= i < old(self).proxy_list().len() && p@ == old(self).proxy_list()[i]@,
    {
        let elapsed = elapsed_nanos(&self.last_rotation);
        let now = system_now();
        self.get_current_at(elapsed, now)
    }
}

// ---------------------------------------------------------------------------
// Sessions
// ---------------------------------------------------------------------------

/// Keeps the cookies of solved challenges, per URL.
pub struct SessionManager {
    sessions: Vec<(String, SessionData)>,
    config: SessionConfig,
}

/// The position of `url` among the keys of `entries`, if present.
pub open spec fn entry_index(entries: Seq<(String, SessionData)>, url: Seq<char>) -> Option<int>
    decreases entries.len(),
{
    if entries.len() == 0 {
        None
    } else if entries.last().0@ == url {
        Some(entries.len() - 1)
    } else {
        entry_index(entries.drop_last(), url)
    }
}

/// The session stored for `url` in `entries`, the last one where there are
/// several.
pub open spec fn stored_session(entries: Seq<(String, SessionData)>, url: Seq<char>) -> Option<SessionData> {
    match entry_index(entries, url) {
        Some(i) => Some(entries[i].1),
        None => None,
    }
}

/// No URL is a key twice.
pub open spec fn unique_keys(entries: Seq<(String, SessionData)>) -> bool {
    forall|i: int, j: int| 0 <= i < j < entries.len() ==> entries[i].0@ != entries[j].0@
}

proof fn lemma_entry_index(entries: Seq<(String, SessionData)>, url: Seq<char>)
    ensures
        entry_index(entries, url) matches Some(i) ==> 0 <= i < entries.len() && entries[i].0@
            == url,
        entry_index(entries, url) is None ==> forall|k: int|
            0 <= k < entries.len() ==> entries[k].0@ != url,
    decreases entries.len(),
{
    if entries.len() > 0 {
        lemma_entry_index(entries.drop_last(), url);
        assert forall|k: int| 0 <= k < entries.len() - 1 implies entries[k] == entries.drop_last()[k] by {}
    }
}

proof fn lemma_entry_index_unique(entries: Seq<(String, SessionData)>, url: Seq<char>, k: int)
    requires
        unique_keys(entries),
        0 <= k < entries.len(),
        entries[k].0@ == url,
    ensures
        entry_index(entries, url) == Some(k),
    decreases entries.len(),
{
    if k < entries.len() - 1 {
        assert(entries.last().0@ != url);
        lemma_entry_index_unique(entries.drop_last(), url, k);
    }
}

/// Whether a session saved at `created_at` is still valid at `now`: the
/// elapsed seconds, computed with wrapping as the unchecked `u64`
/// subtraction of the original does in release builds, are within the
/// lifetime.
pub open spec fn session_fresh(created_at: u64, now: u64, lifetime: u64) -> bool {
    (if now >= created_at {
        now - created_at
    } else {
        now - created_at + 0x1_0000_0000_0000_0000
    }) <= lifetime
}

/// What a lookup of `url` at `now` finds: the saved session, when sessions
/// are enabled, one is saved for `url` and it is still fresh.
pub open spec fn session_lookup(m: SessionManager, url: Seq<char>, now: u64) -> Option<SessionData> {
    if !m.settings().enabled {
        None
    } else {
        match m.saved(url) {
            Some(d) => if session_fresh(d.created_at, now, m.settings().session_lifetime_secs) {
                Some(d)
            } else {
                None
            },
            None => None,
        }
    }
}

impl SessionManager {
    #[verifier::type_invariant]
    spec fn keys_unique(self) -> bool {
        unique_keys(self.sessions@)
    }

    /// The saved sessions, keyed by URL.
    pub closed spec fn entries(self) -> Seq<(String, SessionData)> {
        self.sessions@
    }

    /// The session settings.
    pub closed spec fn settings(self) -> SessionConfig {
        self.config
    }

    /// The session saved for `url`, if any.
    pub open spec fn saved(self, url: Seq<char>) -> Option<SessionData> {
        match entry_index(self.entries(), url) {
            Some(i) => Some(self.entries()[i].1),
            None => None,
        }
    }

    fn insert_entry(&mut self, url: String, data: SessionData)
        ensures
            final(self).settings() == old(self).settings(),
            final(self).saved(url@) == Some(data),
            forall|u: Seq<char>| u != url@ ==> #[trigger] final(self).saved(u) == old(self).saved(u),
    {
        proof {
            use_type_invariant(&*self);
            lemma_entry_index(self.sessions@, url@);
        }
        let ghost old_entries = self.sessions@;
        let mut i: usize = 0;
        let mut found: Option<usize> = None;
        while i < self.sessions.len()
            invariant
                i <= self.sessions@.len(),
                self.sessions@ == old_entries,
                found matches Some(k) ==> k < i && old_entries[k as int].0@ == url@,
                found is None ==> forall|k: int| 0 <= k < i ==> old_entries[k].0@ != url@,
            decreases self.sessions@.len() - i,
        {
            if found.is_none() && self.sessions[i].0 == url {
                found = Some(i);
            }
            i = i + 1;
        }
        let mut entries: Vec<(String, SessionData)> = Vec::new();
        std::mem::swap(&mut entries, &mut self.sessions);
        match found {
            Some(k) => {
                proof {
                    lemma_entry_index_unique(old_entries, url@, k as int);
                }
                let key = url;
                entries.set(k, (key, data));
                proof {
                    assert(unique_keys(entries@)) by {
                        assert forall|a: int, b: int| 0 <= a < b < entries@.len() implies entries@[a].0@
                            != entries@[b].0@ by {
                            if a == k {
                                assert(old_entries[b].0@ != old_entries[k as int].0@);
                            } else if b == k {
                                assert(old_entries[a].0@ != old_entries[k as int].0@);
                            }
                        }
                    }
                    lemma_entry_index_unique(entries@, url@, k as int);
                    assert forall|u: Seq<char>| u != url@ implies entry_index(entries@, u) == entry_index(
                        old_entries,
                        u,
                    ) && (entry_index(entries@, u) matches Some(j) ==> entries@[j].1
                        == old_entries[j].1) by {
                        lemma_entry_index(old_entries, u);
                        lemma_entry_index(entries@, u);
                        if let Some(j) = entry_index(old_entries, u) {
                            lemma_entry_index_unique(entries@, u, j);
                        } else {
                            if let Some(j) = entry_index(entries@, u) {
                                assert(old_entries[j].0@ == u);
                            }
                        }
                    }
                }
            },
            None => {
                let ghost e0 = entries@;
                let ghost kv = (url, data);
                entries.push((url, data));
                proof {
                    let n = e0.len();
                    assert(entries@.drop_last() =~= e0);
                    assert(entries@.last() == kv);
                    assert(entry_index(entries@, url@) == Some(n as int));
                    assert forall|u: Seq<char>| u != url@ implies entry_index(entries@, u) == entry_index(
                        e0,
                        u,
                    ) && (entry_index(entries@, u) matches Some(j) ==> entries@[j].1 == e0[j].1) by {
                        lemma_entry_index(e0, u);
                    }
                    assert(unique_keys(entries@)) by {
                        assert forall|a: int, b: int| 0 <= a < b < entries@.len() implies entries@[a].0@
                            != entries@[b].0@ by {
                            if b == n {
                                assert(old_entries[a].0@ != url@);
                            }
                        }
                    }
                }
            },
        }
        self.sessions = entries;
    }

    /// A manager for the given settings, holding the sessions that were saved
    /// before (when sessions are enabled; a later entry for a URL wins).
    pub fn new(config: SessionConfig, stored: Vec<(String, SessionData)>) -> (m: Self)
        ensures
            m.settings() == config,
            !config.enabled ==> m.entries().len() == 0,
            config.enabled ==> forall|u: Seq<char>| #[trigger] m.saved(u) == stored_session(stored@, u),
            config.enabled ==> forall|u: Seq<char>|
                #[trigger] m.saved(u) is Some <==> exists|i: int|
                    0 <= i < stored@.len() && stored@[i].0@ == u,
    {
        let enabled = config.enabled;
        let mut m = SessionManager { sessions: Vec::new(), config };
        if enabled {
            let mut rest = stored;
            let ghost all = rest@;
            let ghost mut taken: Seq<(String, SessionData)> = Seq::empty();
            while rest.len() > 0
                invariant
                    m.settings() == config,
                    all == taken + rest@,
                    forall|u: Seq<char>| #[trigger] m.saved(u) == stored_session(taken, u),
                decreases rest@.len(),
            {
                let ghost r0 = rest@;
                let (url, data) = rest.remove(0);
                let ghost key = url@;
                let ghost kv = (url, data);
                let ghost before = taken;
                m.insert_entry(url, data);
                proof {
                    taken = taken.push(kv);
                    assert(taken.drop_last() =~= before);
                    assert(r0 =~= seq![kv] + rest@);
                    assert(all =~= taken + rest@);
                    assert forall|u: Seq<char>| #[trigger] m.saved(u) == stored_session(taken, u) by {
                        if u != key {
                            assert(taken.last() == kv);
                            assert(entry_index(taken, u) == entry_index(before, u));
                            lemma_entry_index(before, u);
                            assert(stored_session(taken, u) == stored_session(before, u));
                        }
                    }
                }
            }
            proof {
                assert(taken + rest@ =~= taken);
                assert forall|u: Seq<char>|
                    #[trigger] m.saved(u) is Some <==> exists|i: int|
                        0 <= i < all.len() && all[i].0@ == u by {
                    lemma_entry_index(all, u);
                    if exists|i: int| 0 <= i < all.len() && all[i].0@ == u {
                        let i = choose|i: int| 0 <= i < all.len() && all[i].0@ == u;
                        assert(all[i].0@ == u);
                    }
                }
            }
        }
        m
    }

    /// The session saved for `url` if sessions are enabled and it is still
    /// fresh at `now` (seconds since the epoch); a copy is returned.
    pub fn get_session_at(&self, url: &str, now: u64) -> (r: Option<SessionData>)
        ensures
            r is None <==> session_lookup(*self, url@, now) is None,
            r matches Some(s) ==> (session_lookup(*self, url@, now) matches Some(d) && s.url == d.url
                && s.cookies@ == d.cookies@ && s.created_at == d.created_at),
    {
        proof {
            use_type_invariant(self);
            lemma_entry_index(self.sessions@, url@);
        }
        if !self.config.enabled {
            return None;
        }
        let key = chars_of(url);
        let mut i: usize = self.sessions.len();
        assert(self.sessions@.take(i as int) =~= self.sessions@);
        while i > 0
            invariant
                i <= self.sessions@.len(),
                key@ == url@,
                self.config.enabled,
                entry_index(self.sessions@, url@) == entry_index(self.sessions@.take(i as int), url@),
            decreases i,
        {
            assert(self.sessions@.take(i as int).drop_last() =~= self.sessions@.take(i - 1));
            assert(self.sessions@.take(i as int).last() == self.sessions@[i - 1]);
            if eq_str(&key, self.sessions[i - 1].0.as_str()) {
                assert(entry_index(self.sessions@.take(i as int), url@) == Some(i - 1));
                let d = &self.sessions[i - 1].1;
                let elapsed = now.wrapping_sub(d.created_at);
                if elapsed > self.config.session_lifetime_secs {
                    return None;
                }
                return Some(d.duplicate());
            }
            i = i - 1;
        }
        None
    }

    /// The saved, fresh session for `url`, judged by the clock: the lookup at
    /// the clock's reading, in seconds since the epoch. Where the clock reads
    /// before the epoch (the original panics there), no session is returned.
    /// Which reading the clock gives is not stated.
    pub fn get_session(&self, url: &str) -> (r: Option<SessionData>)
        ensures
            r matches Some(s) ==> (self.saved(url@) matches Some(d) && s.url == d.url
                && s.cookies@ == d.cookies@ && s.created_at == d.created_at),
            r matches Some(s) ==> exists|now: u64|
                #[trigger] session_lookup(*self, url@, now) matches Some(d) && s.url == d.url
                    && s.cookies@ == d.cookies@ && s.created_at == d.created_at,
            !self.settings().enabled ==> r is None,
    {
        let now = system_now();
        match secs_since_epoch(&now) {
            Some(secs) => self.get_session_at(url, secs),
            None => None,
        }
    }

    /// Saves the cookies for `url` as created at `now`, replacing any earlier
    /// session for it; nothing happens when sessions are disabled.
    pub fn save_session_at(&mut self, url: String, cookies: Vec<Cookie>, now: u64)
        ensures
            final(self).settings() == old(self).settings(),
            !old(self).settings().enabled ==> final(self).entries() == old(self).entries(),
            old(self).settings().enabled ==> {
                &&& final(self).saved(url@) matches Some(d)
                &&& d.url == url
                &&& d.cookies == cookies
                &&& d.created_at == now
            },
            old(self).settings().enabled ==> forall|u: Seq<char>|
                u != url@ ==> #[trigger] final(self).saved(u) == old(self).saved(u),
    {
        if !self.config.enabled {
            return;
        }
        let session = SessionData { url: url.clone(), cookies, created_at: now };
        self.insert_entry(url, session);
    }

    /// Saves the cookies for `url` as created now, the clock's reading in
    /// seconds since the epoch, replacing any earlier session for it; nothing
    /// happens when sessions are disabled. Where the clock reads before the
    /// epoch (the original panics there), nothing is saved. Which reading the
    /// clock gives is not stated.
    pub fn save_session(&mut self, url: String, cookies: Vec<Cookie>)
        ensures
            final(self).settings() == old(self).settings(),
            !old(self).settings().enabled ==> final(self).entries() == old(self).entries(),
            old(self).settings().enabled ==> final(self).entries() == old(self).entries() || ({
                &&& final(self).saved(url@) matches Some(d)
                &&& d.url == url
                &&& d.cookies == cookies
                &&& forall|u: Seq<char>| u != url@ ==> #[trigger] final(self).saved(u) == old(self).saved(u)
            }),
    {
        let now = system_now();
        match secs_since_epoch(&now) {
            Some(secs) => self.save_session_at(url, cookies, secs),
            None => {},
        }
    }

    /// The session settings.
    pub fn config(&self) -> (c: &SessionConfig)
        ensures
            *c == self.settings(),
    {
        &self.config
    }

    /// The saved sessions, keyed by URL, for writing them out.
    pub fn sessions(&self) -> (s: &Vec<(String, SessionData)>)
        ensures
            s@ == self.entries(),
    {
        &self.sessions
    }
}

/// What a save leaves is found again: after the cookies for `url` were saved
/// at `t` (with sessions enabled), a lookup of `url` at any time from `t` to
/// `t` plus the lifetime finds exactly that session, and lookups of other URLs
/// find what they found before.
pub proof fn lemma_save_then_get(
    before: SessionManager,
    after: SessionManager,
    url: String,
    cookies: Vec<Cookie>,
    t: u64,
    later: u64,
    other: Seq<char>,
)
    requires
        before.settings().enabled,
        after.settings() == before.settings(),
        after.saved(url@) matches Some(d) && d.url == url && d.cookies == cookies && d.created_at
            == t,
        forall|u: Seq<char>| u != url@ ==> #[trigger] after.saved(u) == before.saved(u),
        t <= later,
        later - t <= before.settings().session_lifetime_secs,
        other != url@,
    ensures
        session_lookup(after, url@, later) == Some(SessionData { url, cookies, created_at: t }),
        session_lookup(after, other, later) == session_lookup(before, other, later),
{
    assert(after.saved(other) == before.saved(other));
}

} // verus!

verus! {

// ---------------------------------------------------------------------------
// Default settings
// ---------------------------------------------------------------------------

impl CloudflareConfig {
    /// The default settings: no proxies (rotating every 300 s), a visible
    /// 1920,1080 browser without WebRTC and geolocation, every fingerprint
    /// spoofed with random user agents, CAPTCHA solving off (2captcha, no key,
    /// 120 s), sessions on in cloudflare_sessions.json for an hour.
    pub fn default() -> (c: Self)
        ensures
            !c.proxy.enabled,
            c.proxy.proxies@.len() == 0,
            c.proxy.rotation_interval_secs == 300,
            !c.browser.headless,
            c.browser.window_size@ == "1920,1080"@,
            c.browser.disable_webrtc,
            c.browser.disable_geolocation,
            c.fingerprint.enabled,
            c.fingerprint.spoof_webgl,
            c.fingerprint.spoof_canvas,
            c.fingerprint.spoof_audio,
            c.fingerprint.spoof_fonts,
            c.fingerprint.random_user_agent,
            !c.captcha.enabled,
            c.captcha.service@ == "2captcha"@,
            c.captcha.api_key@.len() == 0,
            c.captcha.max_solve_time_secs == 120,
            c.session.enabled,
            c.session.cookie_file@ == "cloudflare_sessions.json"@,
            c.session.session_lifetime_secs == 3600,
    {
        CloudflareConfig {
            proxy: ProxyConfig { enabled: false, proxies: Vec::new(), rotation_interval_secs: 300 },
            browser: BrowserConfig {
                headless: false,
                window_size: String::from_str("1920,1080"),
                disable_webrtc: true,
                disable_geolocation: true,
            },
            fingerprint: FingerprintConfig {
                enabled: true,
                spoof_webgl: true,
                spoof_canvas: true,
                spoof_audio: true,
                spoof_fonts: true,
                random_user_agent: true,
            },
            captcha: CaptchaConfig {
                enabled: false,
                service: String::from_str("2captcha"),
                api_key: String::new(),
                max_solve_time_secs: 120,
            },
            session: SessionConfig {
                enabled: true,
                cookie_file: String::from_str("cloudflare_sessions.json"),
                session_lifetime_secs: 3600,
            },
        }
    }
}

// ---------------------------------------------------------------------------
// Fingerprint spoofing
// ---------------------------------------------------------------------------

/// Replaces the WebGL vendor and renderer strings.
pub const WEBGL_SPOOF_SCRIPT: &'static str = r#"
            // Spoof WebGL
            const getParameter = WebGLRenderingContext.prototype.getParameter;
            WebGLRenderingContext.prototype.getParameter = function(parameter) {
                if (parameter === 37445) {
                    return 'Intel Inc.';
                }
                if (parameter === 37446) {
                    return 'Intel(R) Iris(TM) Plus Graphics 640';
                }
                return getParameter.call(this, parameter);
            };
        "#;
/// Perturbs canvas read-backs.
pub const CANVAS_SPOOF_SCRIPT: &'static str = r#"
            // Spoof Canvas fingerprint
            const originalToDataURL = HTMLCanvasElement.prototype.toDataURL;
            HTMLCanvasElement.prototype.toDataURL = function() {
                const context = this.getContext('2d');
                if (context) {
                    const imageData = context.getImageData(0, 0, this.width, this.height);
                    for (let i = 0; i < imageData.data.length; i += 4) {
                        imageData.data[i] = imageData.data[i] ^ 0x1;
                    }
                    context.putImageData(imageData, 0, 0);
                }
                return originalToDataURL.apply(this, arguments);
            };
        "#;
/// Wraps the audio oscillator.
pub const AUDIO_SPOOF_SCRIPT: &'static str = r#"
            // Spoof Audio Context
            const AudioContext = window.AudioContext || window.webkitAudioContext;
            if (AudioContext) {
                const originalCreateOscillator = AudioContext.prototype.createOscillator;
                AudioContext.prototype.createOscillator = function() {
                    const oscillator = originalCreateOscillator.call(this);
                    const originalStart = oscillator.start;
                    oscillator.start = function() {
                        originalStart.apply(this, arguments);
                    };
                    return oscillator;
                };
            }
        "#;
/// Replaces the font-enumeration API.
pub const FONTS_SPOOF_SCRIPT: &'static str = r#"
            // Spoof Font fingerprinting
            Object.defineProperty(navigator, 'fonts', {
                get: () => ({
                    ready: Promise.resolve(),
                    check: () => true,
                    load: () => Promise.resolve([]),
                    clear: () => {},
                    delete: () => true,
                    entries: () => [][Symbol.iterator](),
                    forEach: () => {},
                    has: () => true,
                    keys: () => [][Symbol.iterator](),
                    values: () => [][Symbol.iterator](),
                    size: 0
                })
            });
        "#;
/// Hides `navigator.webdriver`, plugins, languages and Selenium markers.
pub const AUTOMATION_HIDING_SCRIPT: &'static str = r#"
        Object.defineProperty(navigator, 'webdriver', {
            get: () => undefined
        });

        // Remove chrome automation flags
        window.chrome = {
            runtime: {}
        };

        // Overwrite the `plugins` property to use a custom getter
        Object.defineProperty(navigator, 'plugins', {
            get: () => [1, 2, 3, 4, 5]
        });

        // Overwrite the `languages` property to use a custom getter
        Object.defineProperty(navigator, 'languages', {
            get: () => ['en-US', 'en']
        });

        // Remove Selenium indicators
        delete window.cdc_adoQpoasnfa76pfcZLmcfl_Array;
        delete window.cdc_adoQpoasnfa76pfcZLmcfl_Promise;
        delete window.cdc_adoQpoasnfa76pfcZLmcfl_Symbol;
    "#;

/// The scripts injected for a fingerprint configuration: each enabled
/// spoofing script in the order WebGL, canvas, audio, fonts, then always the
/// automation-hiding script.
pub open spec fn spoofing_scripts(c: FingerprintConfig) -> Seq<Seq<char>> {
    let s1 = if c.spoof_webgl {
        seq![WEBGL_SPOOF_SCRIPT@]
    } else {
        Seq::empty()
    };
    let s2 = if c.spoof_canvas {
        s1.push(CANVAS_SPOOF_SCRIPT@)
    } else {
        s1
    };
    let s3 = if c.spoof_audio {
        s2.push(AUDIO_SPOOF_SCRIPT@)
    } else {
        s2
    };
    let s4 = if c.spoof_fonts {
        s3.push(FONTS_SPOOF_SCRIPT@)
    } else {
        s3
    };
    s4.push(AUTOMATION_HIDING_SCRIPT@)
}

/// Generates the fingerprint spoofing JavaScript: the scripts of
/// `spoofing_scripts` joined by newlines.
pub fn get_fingerprint_spoofing_script(config: &FingerprintConfig) -> (r: String)
    ensures
        r@ == join_seq(spoofing_scripts(*config), "\n"@),
{
    let mut scripts: Vec<Vec<char>> = Vec::new();
    if config.spoof_webgl {
        scripts.push(chars_of(WEBGL_SPOOF_SCRIPT));
    }
    if config.spoof_canvas {
        scripts.push(chars_of(CANVAS_SPOOF_SCRIPT));
    }
    if config.spoof_audio {
        scripts.push(chars_of(AUDIO_SPOOF_SCRIPT));
    }
    if config.spoof_fonts {
        scripts.push(chars_of(FONTS_SPOOF_SCRIPT));
    }
    scripts.push(chars_of(AUTOMATION_HIDING_SCRIPT));
    assert(views(scripts@) =~= spoofing_scripts(*config));
    let joined = join_chars(&scripts, &chars_of("\n"));
    crate::text::string_of(&joined)
}

// ---------------------------------------------------------------------------
// User agents
// ---------------------------------------------------------------------------

/// Realistic desktop user agents.
pub const BYPASS_USER_AGENTS: [&'static str; 5] = [
    "Mozilla/5.0 (Windows NT 10.0; Win64; x64) AppleWebKit/537.36 (KHTML, like Gecko) Chrome/120.0.0.0 Safari/537.36",
    "Mozilla/5.0 (Windows NT 10.0; Win64; x64) AppleWebKit/537.36 (KHTML, like Gecko) Chrome/119.0.0.0 Safari/537.36",
    "Mozilla/5.0 (Macintosh; Intel Mac OS X 10_15_7) AppleWebKit/537.36 (KHTML, like Gecko) Chrome/120.0.0.0 Safari/537.36",
    "Mozilla/5.0 (Windows NT 10.0; Win64; x64; rv:121.0) Gecko/20100101 Firefox/121.0",
    "Mozilla/5.0 (Macintosh; Intel Mac OS X 10_15_7) AppleWebKit/605.1.15 (KHTML, like Gecko) Version/17.1 Safari/605.1.15",
];

/// The user agent for a clock reading of `now_secs` seconds since the epoch:
/// entry `now_secs mod 5` (after the cast to `usize`) of the list.
pub fn user_agent_for_time(now_secs: u64) -> (ua: &'static str)
    ensures
        ua == BYPASS_USER_AGENTS@[((now_secs as usize) % 5) as int],
{
    BYPASS_USER_AGENTS[(now_secs as usize) % 5]
}

/// A user agent chosen by the clock's current second. Where the clock reads
/// before the epoch (the original panics there), the first one is given.
pub fn get_random_user_agent() -> (ua: &'static str)
    ensures
        exists|i: int| 0 <= i < 5 && ua == BYPASS_USER_AGENTS@[i],
{
    let now = system_now();
    match secs_since_epoch(&now) {
        Some(secs) => user_agent_for_time(secs),
        None => user_agent_for_time(0),
    }
}

// ---------------------------------------------------------------------------
// CAPTCHA solving
// ---------------------------------------------------------------------------

/// The CAPTCHA solving services.
#[derive(Debug, PartialEq, Eq, Structural)]
pub enum CaptchaService {
    TwoCaptcha,
    AntiCaptcha,
    CapSolver,
}

/// The service a configuration selects, or the error it is refused with:
/// solving must be enabled and the service one of 2captcha, anticaptcha and
/// capsolver.
pub open spec fn captcha_service_spec(enabled: bool, service: Seq<char>) -> Result<CaptchaService, Seq<char>> {
    if !enabled {
        Err("CAPTCHA solving is not enabled"@)
    } else if service == "2captcha"@ {
        Ok(CaptchaService::TwoCaptcha)
    } else if service == "anticaptcha"@ {
        Ok(CaptchaService::AntiCaptcha)
    } else if service == "capsolver"@ {
        Ok(CaptchaService::CapSolver)
    } else {
        Err("Unsupported CAPTCHA service: "@ + service)
    }
}

/// Selects the CAPTCHA service of a configuration.
pub fn select_captcha_service(config: &CaptchaConfig) -> (r: Result<CaptchaService, String>)
    ensures
        match r {
            Ok(s) => captcha_service_spec(config.enabled, config.service@) == Ok::<CaptchaService, Seq<char>>(s),
            Err(m) => captcha_service_spec(config.enabled, config.service@) == Err::<CaptchaService, Seq<char>>(m@),
        },
{
    if !config.enabled {
        return Err(String::from_str("CAPTCHA solving is not enabled"));
    }
    let s = chars_of(config.service.as_str());
    if eq_str(&s, "2captcha") {
        Ok(CaptchaService::TwoCaptcha)
    } else if eq_str(&s, "anticaptcha") {
        Ok(CaptchaService::AntiCaptcha)
    } else if eq_str(&s, "capsolver") {
        Ok(CaptchaService::CapSolver)
    } else {
        let mut m = String::from_str("Unsupported CAPTCHA service: ");
        m.append(config.service.as_str());
        Err(m)
    }
}

/// What a 2captcha endpoint answered.
#[derive(Debug)]
pub enum TwoCaptchaReply {
    /// "OK|" followed by the payload (a request id or a solution).
    Accepted(String),
    /// "CAPCHA_NOT_READY": poll again.
    NotReady,
    /// Anything else: the service's error text.
    Error(String),
}

/// How a 2captcha answer is read.
pub open spec fn two_captcha_reply_spec(text: Seq<char>) -> (Seq<char>, int) {
    if text.len() >= 3 && text.take(3) == "OK|"@ {
        (text.skip(3), 0)
    } else if text == "CAPCHA_NOT_READY"@ {
        (text, 1)
    } else {
        (text, 2)
    }
}

/// Reads an answer of the 2captcha service.
pub fn parse_two_captcha_reply(text: &str) -> (r: TwoCaptchaReply)
    ensures
        match r {
            TwoCaptchaReply::Accepted(p) => two_captcha_reply_spec(text@) == (p@, 0int),
            TwoCaptchaReply::NotReady => two_captcha_reply_spec(text@).1 == 1,
            TwoCaptchaReply::Error(e) => two_captcha_reply_spec(text@) == (e@, 2int),
        },
{
    let t = chars_of(text);
    let n = t.len();
    if n >= 3 && t[0] == 'O' && t[1] == 'K' && t[2] == '|' {
        proof {
            reveal_strlit("OK|");
            assert(t@.take(3) =~= "OK|"@);
        }
        let mut rest: Vec<char> = Vec::new();
        let mut i: usize = 3;
        while i < n
            invariant
                3 <= i <= n,
                n == t@.len(),
                rest@ == t@.subrange(3, i as int),
            decreases n - i,
        {
            rest.push(t[i]);
            i = i + 1;
            assert(rest@ =~= t@.subrange(3, i as int));
        }
        assert(rest@ =~= t@.skip(3));
        return TwoCaptchaReply::Accepted(crate::text::string_of(&rest));
    }
    proof {
        reveal_strlit("OK|");
        if n >= 3 {
            assert(t@.take(3) != "OK|"@) by {
                if t@.take(3) == "OK|"@ {
                    assert(t@.take(3)[0] == 'O');
                    assert(t@.take(3)[1] == 'K');
                    assert(t@.take(3)[2] == '|');
                }
            }
        }
    }
    if eq_str(&t, "CAPCHA_NOT_READY") {
        TwoCaptchaReply::NotReady
    } else {
        TwoCaptchaReply::Error(crate::text::string_of(&t))
    }
}

/// The 2captcha submission URL for a reCAPTCHA on a page.
pub fn two_captcha_submit_url(api_key: &str, site_key: &str, page_url: &str) -> (u: String)
    ensures
        u@ == "https://2captcha.com/in.php?key="@ + api_key@ + "&method=userrecaptcha&googlekey="@
            + site_key@ + "&pageurl="@ + page_url@,
{
    let mut u = String::from_str("https://2captcha.com/in.php?key=");
    u.append(api_key);
    u.append("&method=userrecaptcha&googlekey=");
    u.append(site_key);
    u.append("&pageurl=");
    u.append(page_url);
    u
}

/// The 2captcha URL polled for the result of a submitted CAPTCHA.
pub fn two_captcha_result_url(api_key: &str, captcha_id: &str) -> (u: String)
    ensures
        u@ == "https://2captcha.com/res.php?key="@ + api_key@ + "&action=get&id="@ + captcha_id@,
{
    let mut u = String::from_str("https://2captcha.com/res.php?key=");
    u.append(api_key);
    u.append("&action=get&id=");
    u.append(captcha_id);
    u
}


/// How many times 2captcha is asked for a solution before giving up.
pub const TWO_CAPTCHA_MAX_POLLS: u32 = 30;

/// The seconds waited before each request for a solution.
pub const TWO_CAPTCHA_POLL_SECS: u64 = 5;

/// What a CAPTCHA solve does next.
#[derive(Debug)]
pub enum CaptchaStep {
    /// Wait, then request this URL for the solution.
    Poll(String),
    /// The solution.
    Solved(String),
    /// The solve failed with this message.
    Failed(String),
}

/// The step after 2captcha answered the submission: poll for the solution
/// of the accepted request, else fail with the answer.
pub fn two_captcha_after_submit(api_key: &str, response: &str) -> (r: CaptchaStep)
    ensures
        two_captcha_reply_spec(response@).1 == 0 ==> (r matches CaptchaStep::Poll(u) && u@
            == "https://2captcha.com/res.php?key="@ + api_key@ + "&action=get&id="@
            + two_captcha_reply_spec(response@).0),
        two_captcha_reply_spec(response@).1 != 0 ==> (r matches CaptchaStep::Failed(m) && m@
            == "2Captcha submit error: "@ + response@),
{
    match parse_two_captcha_reply(response) {
        TwoCaptchaReply::Accepted(id) => CaptchaStep::Poll(two_captcha_result_url(api_key, id.as_str())),
        _ => {
            let mut m = String::from_str("2Captcha submit error: ");
            m.append(response);
            CaptchaStep::Failed(m)
        },
    }
}

/// The step after the `polls_done`-th request for a solution was answered:
/// the solution where it is ready; another poll while it is not and fewer
/// than the maximum were made, else a timeout; a failure with the answer
/// otherwise.
pub fn two_captcha_after_poll(polls_done: u32, result_url: &str, response: &str) -> (r: CaptchaStep)
    ensures
        two_captcha_reply_spec(response@).1 == 0 ==> (r matches CaptchaStep::Solved(v) && v@
            == two_captcha_reply_spec(response@).0),
        two_captcha_reply_spec(response@).1 == 1 && polls_done < TWO_CAPTCHA_MAX_POLLS ==> (
        r matches CaptchaStep::Poll(u) && u@ == result_url@),
        two_captcha_reply_spec(response@).1 == 1 && polls_done >= TWO_CAPTCHA_MAX_POLLS ==> (
        r matches CaptchaStep::Failed(m) && m@ == "2Captcha timeout"@),
        two_captcha_reply_spec(response@).1 == 2 ==> (r matches CaptchaStep::Failed(m) && m@
            == "2Captcha solve error: "@ + response@),
{
    match parse_two_captcha_reply(response) {
        TwoCaptchaReply::Accepted(v) => CaptchaStep::Solved(v),
        TwoCaptchaReply::NotReady => {
            if polls_done < TWO_CAPTCHA_MAX_POLLS {
                CaptchaStep::Poll(String::from_str(result_url))
            } else {
                CaptchaStep::Failed(String::from_str("2Captcha timeout"))
            }
        },
        TwoCaptchaReply::Error(_) => {
            let mut m = String::from_str("2Captcha solve error: ");
            m.append(response);
            CaptchaStep::Failed(m)
        },
    }
}

/// The error of a service that has no solver here, or `None` for 2captcha.
pub fn unsupported_solver_error(service: &CaptchaService) -> (r: Option<String>)
    ensures
        match service {
            CaptchaService::TwoCaptcha => r is None,
            CaptchaService::AntiCaptcha => r matches Some(m) && m@ == "Anti-Captcha not implemented yet"@,
            CaptchaService::CapSolver => r matches Some(m) && m@ == "CapSolver not implemented yet"@,
        },
{
    match service {
        CaptchaService::TwoCaptcha => None,
        CaptchaService::AntiCaptcha => Some(String::from_str("Anti-Captcha not implemented yet")),
        CaptchaService::CapSolver => Some(String::from_str("CapSolver not implemented yet")),
    }
}

} // verus!
