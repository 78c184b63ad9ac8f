//! HTTP middleware: CORS, rate limiting, request validation and compression.
use vstd::prelude::*;
use crate::text::{owned, push_owned, strings_view, push_str, str_eq, contains_str, push_char, push_decimal, dec_of};
use crate::guards::{debug_strings, debug_of_strings};

verus! {

/// CORS configuration.
#[derive(Debug)]
pub struct CorsConfig {
    pub allowed_origins: Vec<String>,
    pub allowed_methods: Vec<String>,
    pub allowed_headers: Vec<String>,
    pub exposed_headers: Vec<String>,
    pub allow_credentials: bool,
    pub max_age: usize,
}

/// The origins allowed by default: any.
pub fn default_origins() -> (r: Vec<String>)
    ensures
        strings_view(r@) == seq!["*"@],
{
    let mut v: Vec<String> = Vec::new();
    push_owned(&mut v, "*");
    assert(strings_view(Seq::<String>::empty()) =~= Seq::<Seq<char>>::empty());
    v
}

/// The methods allowed by default.
pub fn default_methods() -> (r: Vec<String>)
    ensures
        strings_view(r@) == seq!["GET"@, "POST"@, "PUT"@, "DELETE"@, "OPTIONS"@],
{
    let mut v: Vec<String> = Vec::new();
    assert(strings_view(v@) =~= Seq::<Seq<char>>::empty());
    push_owned(&mut v, "GET");
    push_owned(&mut v, "POST");
    push_owned(&mut v, "PUT");
    push_owned(&mut v, "DELETE");
    push_owned(&mut v, "OPTIONS");
    assert(strings_view(v@) =~= seq!["GET"@, "POST"@, "PUT"@, "DELETE"@, "OPTIONS"@]);
    v
}

/// The headers allowed by default.
pub fn default_headers() -> (r: Vec<String>)
    ensures
        strings_view(r@) == seq![
            "accept"@, "accept-language"@, "authorization"@, "content-type"@, "dnt"@, "origin"@,
            "user-agent"@, "x-csrftoken"@, "x-requested-with"@,
        ],
{
    let mut v: Vec<String> = Vec::new();
    assert(strings_view(v@) =~= Seq::<Seq<char>>::empty());
    push_owned(&mut v, "accept");
    push_owned(&mut v, "accept-language");
    push_owned(&mut v, "authorization");
    push_owned(&mut v, "content-type");
    push_owned(&mut v, "dnt");
    push_owned(&mut v, "origin");
    push_owned(&mut v, "user-agent");
    push_owned(&mut v, "x-csrftoken");
    push_owned(&mut v, "x-requested-with");
    assert(strings_view(v@) =~= seq![
        "accept"@, "accept-language"@, "authorization"@, "content-type"@, "dnt"@, "origin"@,
        "user-agent"@, "x-csrftoken"@, "x-requested-with"@,
    ]);
    v
}

/// Credentials are not allowed by default.
pub fn default_allow_credentials() -> (r: bool)
    ensures
        r == false,
{
    false
}

/// Preflight results may be cached for a day by default.
pub fn default_max_age() -> (r: usize)
    ensures
        r == 86400,
{
    86400
}

impl Default for CorsConfig {
    fn default() -> (r: Self)
        ensures
            strings_view(r.allowed_origins@) == seq!["*"@],
            strings_view(r.allowed_methods@) == seq!["GET"@, "POST"@, "PUT"@, "DELETE"@, "OPTIONS"@],
            strings_view(r.allowed_headers@) == seq![
                "accept"@, "accept-language"@, "authorization"@, "content-type"@, "dnt"@, "origin"@,
                "user-agent"@, "x-csrftoken"@, "x-requested-with"@,
            ],
            r.exposed_headers@.len() == 0,
            r.allow_credentials == false,
            r.max_age == 86400,
    {
        CorsConfig {
            allowed_origins: default_origins(),
            allowed_methods: default_methods(),
            allowed_headers: default_headers(),
            exposed_headers: Vec::new(),
            allow_credentials: false,
            max_age: 86400,
        }
    }
}

impl CorsConfig {
    /// A strict configuration: no origin allowed, few methods and headers.
    pub fn strict() -> (r: Self)
        ensures
            r.allowed_origins@.len() == 0,
            strings_view(r.allowed_methods@) == seq!["POST"@, "GET"@, "OPTIONS"@],
            strings_view(r.allowed_headers@) == seq!["authorization"@, "content-type"@, "x-request-id"@],
            r.exposed_headers@.len() == 0,
            r.allow_credentials == false,
            r.max_age == 3600,
    {
        let mut methods: Vec<String> = Vec::new();
        assert(strings_view(methods@) =~= Seq::<Seq<char>>::empty());
        push_owned(&mut methods, "POST");
        push_owned(&mut methods, "GET");
        push_owned(&mut methods, "OPTIONS");
        let mut headers: Vec<String> = Vec::new();
        assert(strings_view(headers@) =~= Seq::<Seq<char>>::empty());
        push_owned(&mut headers, "authorization");
        push_owned(&mut headers, "content-type");
        push_owned(&mut headers, "x-request-id");
        assert(strings_view(methods@) =~= seq!["POST"@, "GET"@, "OPTIONS"@]);
        assert(strings_view(headers@) =~= seq!["authorization"@, "content-type"@, "x-request-id"@]);
        CorsConfig {
            allowed_origins: Vec::new(),
            allowed_methods: methods,
            allowed_headers: headers,
            exposed_headers: Vec::new(),
            allow_credentials: false,
            max_age: 3600,
        }
    }

    /// A permissive configuration: the default one.
    pub fn permissive() -> (r: Self)
        ensures
            strings_view(r.allowed_origins@) == seq!["*"@],
            strings_view(r.allowed_methods@) == seq!["GET"@, "POST"@, "PUT"@, "DELETE"@, "OPTIONS"@],
            r.exposed_headers@.len() == 0,
            r.allow_credentials == false,
            r.max_age == 86400,
    {
        Self::default()
    }

    /// `true` iff the configuration allows any origin (a single `*`).
    pub fn allows_any_origin(&self) -> (r: bool)
        ensures
            r == (strings_view(self.allowed_origins@) == seq!["*"@]),
    {
        if self.allowed_origins.len() != 1 {
            proof {
                let v = strings_view(self.allowed_origins@);
                assert(v.len() != seq!["*"@].len());
            }
            return false;
        }
        let r = str_eq(self.allowed_origins[0].as_str(), "*");
        proof {
            let v = strings_view(self.allowed_origins@);
            assert(v[0] == self.allowed_origins@[0]@);
            if r {
                assert(v =~= seq!["*"@]);
            }
            if v == seq!["*"@] {
                assert(v[0] == "*"@);
            }
        }
        r
    }
}

/// Rate limiting configuration.
#[derive(Debug, Clone, Copy)]
pub struct RateLimitConfig {
    pub max_requests: usize,
    pub window_seconds: u64,
    pub use_ip: bool,
    pub use_api_key: bool,
    pub burst_size: usize,
}

/// Requests per window by default.
pub fn default_max_requests() -> (r: usize)
    ensures
        r == 100,
{
    100
}

/// Window length by default, in seconds.
pub fn default_window_seconds() -> (r: u64)
    ensures
        r == 60,
{
    60
}

/// Limit by client address by default.
pub fn default_use_ip() -> (r: bool)
    ensures
        r == true,
{
    true
}

/// Allowed burst by default.
pub fn default_burst_size() -> (r: usize)
    ensures
        r == 10,
{
    10
}

impl Default for RateLimitConfig {
    fn default() -> (r: Self)
        ensures
            r.max_requests == 100,
            r.window_seconds == 60,
            r.use_ip,
            !r.use_api_key,
            r.burst_size == 10,
    {
        RateLimitConfig {
            max_requests: default_max_requests(),
            window_seconds: default_window_seconds(),
            use_ip: true,
            use_api_key: false,
            burst_size: default_burst_size(),
        }
    }
}

impl RateLimitConfig {
    /// A restrictive limit: ten requests a minute.
    pub fn restrictive() -> (r: Self)
        ensures
            r.max_requests == 10,
            r.window_seconds == 60,
            r.use_ip,
            !r.use_api_key,
            r.burst_size == 5,
    {
        RateLimitConfig { max_requests: 10, window_seconds: 60, use_ip: true, use_api_key: false, burst_size: 5 }
    }

    /// A permissive limit: a thousand requests a minute.
    pub fn permissive() -> (r: Self)
        ensures
            r.max_requests == 1000,
            r.window_seconds == 60,
            r.use_ip,
            !r.use_api_key,
            r.burst_size == 100,
    {
        RateLimitConfig { max_requests: 1000, window_seconds: 60, use_ip: true, use_api_key: false, burst_size: 100 }
    }
}

/// A refused request: the limit and when to retry.
#[derive(Debug)]
pub struct RateLimitError {
    pub limit: usize,
    pub window_seconds: u64,
    pub retry_after: u64,
}

/// A client's request count in its current window.
#[derive(Debug)]
pub struct RateWindow {
    /// The client identifier.
    pub identifier: String,
    /// Requests admitted in the window.
    pub count: usize,
    /// When the window started, in milliseconds.
    pub window_start_ms: u64,
}

/// The abstract content of a client window.
pub struct RateWindowView {
    pub identifier: Seq<char>,
    pub count: nat,
    pub start: nat,
}

impl View for RateWindow {
    type V = RateWindowView;

    open spec fn view(&self) -> RateWindowView {
        RateWindowView { identifier: self.identifier@, count: self.count as nat, start: self.window_start_ms as nat }
    }
}

/// The views of a sequence of windows.
pub open spec fn windows_of(s: Seq<RateWindow>) -> Seq<RateWindowView> {
    Seq::new(s.len(), |i: int| s[i]@)
}

/// The window length in milliseconds.
pub open spec fn window_ms(config: RateLimitConfig) -> int {
    config.window_seconds * 1000
}

/// A window is still open at `now`.
pub open spec fn is_live(config: RateLimitConfig, now: nat, x: RateWindowView) -> bool {
    now - x.start < window_ms(config)
}

/// The windows still open at `now`, in order.
pub open spec fn live_windows(config: RateLimitConfig, now: nat, s: Seq<RateWindowView>) -> Seq<RateWindowView>
    decreases s.len(),
{
    if s.len() == 0 {
        s
    } else {
        let rest = live_windows(config, now, s.drop_last());
        if is_live(config, now, s.last()) {
            rest.push(s.last())
        } else {
            rest
        }
    }
}

/// The position of the window of `id` in `s`, or -1.
pub open spec fn window_index(s: Seq<RateWindowView>, id: Seq<char>) -> int
    decreases s.len(),
{
    if s.len() == 0 {
        -1
    } else if s.last().identifier == id {
        s.len() - 1
    } else {
        window_index(s.drop_last(), id)
    }
}

/// Requests already admitted for `id` in its open window.
pub open spec fn used_in(s: Seq<RateWindowView>, id: Seq<char>) -> nat {
    let i = window_index(s, id);
    if i >= 0 { s[i].count } else { 0 }
}

/// When the open window of `id` started (now, if it has none).
pub open spec fn start_of(s: Seq<RateWindowView>, id: Seq<char>, now: nat) -> nat {
    let i = window_index(s, id);
    if i >= 0 { s[i].start } else { now }
}

/// The windows after one request of `id` at `now`, given the open windows `live`.
pub open spec fn after_request(live: Seq<RateWindowView>, id: Seq<char>, now: nat, max: nat) -> Seq<RateWindowView> {
    let i = window_index(live, id);
    if i >= 0 {
        if live[i].count < max {
            live.update(i, RateWindowView { count: live[i].count + 1, ..live[i] })
        } else {
            live
        }
    } else {
        live.push(RateWindowView { identifier: id, count: if 0 < max { 1 } else { 0 }, start: now })
    }
}

proof fn lemma_window_index_bounds(s: Seq<RateWindowView>, id: Seq<char>)
    ensures
        -1 <= window_index(s, id) < s.len(),
        window_index(s, id) >= 0 ==> s[window_index(s, id)].identifier == id,
        window_index(s, id) < 0 ==> forall|k: int| 0 <= k < s.len() ==> s[k].identifier != id,
    decreases s.len(),
{
    if s.len() > 0 {
        lemma_window_index_bounds(s.drop_last(), id);
        if s.last().identifier != id && window_index(s.drop_last(), id) < 0 {
            assert forall|k: int| 0 <= k < s.len() implies s[k].identifier != id by {
                if k < s.len() - 1 {
                    assert(s.drop_last()[k] == s[k]);
                }
            }
        }
    }
}

proof fn lemma_window_index_unique(s: Seq<RateWindowView>, id: Seq<char>, k: int)
    requires
        0 <= k < s.len(),
        s[k].identifier == id,
        forall|a: int, b: int| 0 <= a < b < s.len() ==> s[a].identifier != s[b].identifier,
    ensures
        window_index(s, id) == k,
    decreases s.len(),
{
    if k < s.len() - 1 {
        assert(s.drop_last()[k] == s[k]);
        lemma_window_index_unique(s.drop_last(), id, k);
    }
}

proof fn lemma_live_subseq(config: RateLimitConfig, now: nat, s: Seq<RateWindowView>)
    ensures
        forall|k: int| 0 <= k < live_windows(config, now, s).len() ==>
            (exists|j: int| 0 <= j < s.len() && s[j] == #[trigger] live_windows(config, now, s)[k]),
        forall|k: int| 0 <= k < live_windows(config, now, s).len() ==>
            is_live(config, now, #[trigger] live_windows(config, now, s)[k]),
        (forall|a: int, b: int| 0 <= a < b < s.len() ==> s[a].identifier != s[b].identifier) ==>
            (forall|a: int, b: int| 0 <= a < b < live_windows(config, now, s).len() ==>
                live_windows(config, now, s)[a].identifier != live_windows(config, now, s)[b].identifier),
    decreases s.len(),
{
    if s.len() > 0 {
        let r = live_windows(config, now, s.drop_last());
        lemma_live_subseq(config, now, s.drop_last());
        assert forall|k: int| #![trigger r[k]] 0 <= k < r.len() implies
            (exists|j: int| #![trigger s[j]] 0 <= j < s.len() && s[j] == r[k]) by {
            let j = choose|j: int| 0 <= j < s.drop_last().len() && s.drop_last()[j] == r[k];
            assert(s[j] == r[k]);
        }
        if is_live(config, now, s.last()) {
            let l = r.push(s.last());
            assert(live_windows(config, now, s) == l);
            assert forall|k: int| #![trigger l[k]] 0 <= k < l.len() implies
                (exists|j: int| #![trigger s[j]] 0 <= j < s.len() && s[j] == l[k]) by {
                if k == r.len() {
                    assert(s[s.len() - 1] == l[k]);
                } else {
                    assert(l[k] == r[k]);
                }
            }
            if forall|a: int, b: int| 0 <= a < b < s.len() ==> s[a].identifier != s[b].identifier {
                assert forall|a: int, b: int| 0 <= a < b < s.drop_last().len() implies
                    s.drop_last()[a].identifier != s.drop_last()[b].identifier by {
                    assert(s.drop_last()[a] == s[a] && s.drop_last()[b] == s[b]);
                }
                assert forall|a: int, b: int| 0 <= a < b < l.len() implies l[a].identifier != l[b].identifier by {
                    if b == r.len() {
                        let j = choose|j: int| 0 <= j < s.drop_last().len() && s.drop_last()[j] == r[a];
                        assert(s[j] == r[a]);
                        assert(l[a] == r[a]);
                    } else {
                        assert(l[a] == r[a] && l[b] == r[b]);
                    }
                }
            }
        } else {
            if forall|a: int, b: int| 0 <= a < b < s.len() ==> s[a].identifier != s[b].identifier {
                assert forall|a: int, b: int| 0 <= a < b < s.drop_last().len() implies
                    s.drop_last()[a].identifier != s.drop_last()[b].identifier by {
                    assert(s.drop_last()[a] == s[a] && s.drop_last()[b] == s[b]);
                }
            }
        }
    }
}

/// Decides, for each client, whether a request fits in its window.
///
/// Time is given by the caller, in milliseconds of a monotonic clock.
#[derive(Debug)]
pub struct RateLimiter {
    config: RateLimitConfig,
    windows: Vec<RateWindow>,
}

impl RateLimiter {
    /// The configuration.
    pub closed spec fn config_view(&self) -> RateLimitConfig {
        self.config
    }

    /// The tracked windows.
    pub closed spec fn windows_view(&self) -> Seq<RateWindowView> {
        windows_of(self.windows@)
    }

    /// No window counts more requests than the limit, and identifiers are distinct.
    pub closed spec fn wf(&self) -> bool {
        let s = self.windows_view();
        &&& forall|i: int| 0 <= i < s.len() ==> #[trigger] s[i].count <= self.config.max_requests
        &&& forall|a: int, b: int| 0 <= a < b < s.len() ==> s[a].identifier != s[b].identifier
    }

    /// A limiter with no client tracked yet.
    pub fn new(config: RateLimitConfig) -> (r: Self)
        ensures
            r.wf(),
            r.config_view() == config,
            r.windows_view().len() == 0,
    {
        RateLimiter { config, windows: Vec::new() }
    }

    /// The configuration.
    pub fn config(&self) -> (r: &RateLimitConfig)
        ensures
            *r == self.config_view(),
    {
        &self.config
    }

    /// Admits or refuses one request of `identifier` at time `now_ms`.
    ///
    /// Windows that have ended are dropped; a request is refused when its
    /// client has used up `max_requests` in its current window.
    pub fn check_rate_limit(&mut self, identifier: &str, now_ms: u64) -> (r: Result<(), RateLimitError>)
        requires
            old(self).wf(),
            old(self).config_view().window_seconds <= u64::MAX / 1000,
            forall|i: int| 0 <= i < old(self).windows_view().len() ==>
                #[trigger] old(self).windows_view()[i].start <= now_ms,
        ensures
            final(self).wf(),
            final(self).config_view() == old(self).config_view(),
            ({
                let c = old(self).config_view();
                let live = live_windows(c, now_ms as nat, old(self).windows_view());
                &&& final(self).windows_view() == after_request(live, identifier@, now_ms as nat, c.max_requests as nat)
                &&& (r is Ok) == (used_in(live, identifier@) < c.max_requests)
                &&& r matches Err(e) ==> e.limit == c.max_requests
                    && e.window_seconds == c.window_seconds
                    && e.retry_after == c.window_seconds - (now_ms - start_of(live, identifier@, now_ms as nat)) / 1000
            }),
    {
        let w: u64 = self.config.window_seconds * 1000;
        let ghost c = self.config;
        let ghost old_w = self.windows_view();
        proof {
            lemma_live_subseq(c, now_ms as nat, old_w);
        }
        // Drop the windows that have ended.
        let mut kept: Vec<RateWindow> = Vec::new();
        let mut i: usize = 0;
        assert(old_w.take(0) =~= Seq::<RateWindowView>::empty());
        assert(windows_of(kept@) =~= Seq::<RateWindowView>::empty());
        while i < self.windows.len()
            invariant
                i <= self.windows@.len(),
                windows_of(self.windows@) == old_w,
                self.config == c,
                w == c.window_seconds * 1000,
                forall|k: int| 0 <= k < old_w.len() ==> #[trigger] old_w[k].start <= now_ms,
                windows_of(kept@) == live_windows(c, now_ms as nat, old_w.take(i as int)),
            decreases self.windows@.len() - i,
        {
            assert(old_w.take(i + 1).drop_last() =~= old_w.take(i as int));
            assert(old_w.take(i + 1).last() == old_w[i as int]);
            assert(old_w[i as int] == self.windows@[i as int]@);
            assert(old_w[i as int].start <= now_ms);
            if now_ms - self.windows[i].window_start_ms < w {
                let x = RateWindow {
                    identifier: self.windows[i].identifier.clone(),
                    count: self.windows[i].count,
                    window_start_ms: self.windows[i].window_start_ms,
                };
                let ghost before = kept@;
                kept.push(x);
                assert(windows_of(kept@) =~= windows_of(before).push(x@));
            }
            i = i + 1;
        }
        assert(old_w.take(i as int) =~= old_w);
        let ghost live = windows_of(kept@);
        // Find the client's window.
        let mut j: usize = 0;
        while j < kept.len()
            invariant
                j <= kept@.len(),
                live == windows_of(kept@),
                forall|k: int| 0 <= k < j ==> live[k].identifier != identifier@,
            ensures
                j <= kept@.len(),
                forall|k: int| 0 <= k < j ==> live[k].identifier != identifier@,
                j < kept@.len() ==> live[j as int].identifier == identifier@,
            decreases kept@.len() - j,
        {
            if str_eq(kept[j].identifier.as_str(), identifier) {
                break;
            }
            j = j + 1;
        }
        proof {
            lemma_window_index_bounds(live, identifier@);
            if j < kept@.len() {
                assert(live[j as int].identifier == identifier@);
                lemma_window_index_unique(live, identifier@, j as int);
            } else {
                assert(window_index(live, identifier@) < 0);
            }
        }
        if j == kept.len() {
            kept.push(RateWindow { identifier: owned(identifier), count: 0, window_start_ms: now_ms });
        }
        let ghost mid = windows_of(kept@);
        let count = kept[j].count;
        let start = kept[j].window_start_ms;
        if count >= self.config.max_requests {
            let ghost fin = windows_of(kept@);
            self.windows = kept;
            proof {
                if j < live.len() {
                    assert(fin =~= live);
                } else {
                    assert(fin =~= live.push(RateWindowView { identifier: identifier@, count: 0, start: now_ms as nat }));
                }
            }
            return Err(RateLimitError {
                limit: self.config.max_requests,
                window_seconds: self.config.window_seconds,
                retry_after: self.config.window_seconds - (now_ms - start) / 1000,
            });
        }
        let updated = RateWindow { identifier: owned(identifier), count: count + 1, window_start_ms: start };
        kept.set(j, updated);
        let ghost fin = windows_of(kept@);
        self.windows = kept;
        proof {
            if j < live.len() {
                assert(fin =~= live.update(j as int, RateWindowView { count: live[j as int].count + 1, ..live[j as int] }));
            } else {
                assert(fin =~= live.push(RateWindowView { identifier: identifier@, count: 1, start: now_ms as nat }));
            }
        }
        Ok(())
    }
}

/// The identifier a request is counted under: its API key when enabled and
/// present, else its address when enabled, else one global bucket.
pub fn extract_identifier(config: &RateLimitConfig, api_key: Option<&str>, ip: &str) -> (r: String)
    ensures
        config.use_api_key && api_key is Some ==> r@ == "apikey:"@ + api_key.unwrap()@,
        !(config.use_api_key && api_key is Some) && config.use_ip ==> r@ == "ip:"@ + ip@,
        !(config.use_api_key && api_key is Some) && !config.use_ip ==> r@ == "global"@,
{
    if config.use_api_key {
        if let Some(key) = api_key {
            let mut r = owned("apikey:");
            push_str(&mut r, key);
            return r;
        }
    }
    if config.use_ip {
        let mut r = owned("ip:");
        push_str(&mut r, ip);
        r
    } else {
        owned("global")
    }
}

/// Request validation configuration.
#[derive(Debug)]
pub struct ValidationConfig {
    pub max_body_size: usize,
    pub allowed_content_types: Vec<String>,
    pub validate_jsonrpc: bool,
    pub validate_schema: bool,
}

/// The largest body accepted by default: 10 MiB.
pub fn default_max_body_size() -> (r: usize)
    ensures
        r == 10 * 1024 * 1024,
{
    10 * 1024 * 1024
}

/// The content types accepted by default.
pub fn default_content_types() -> (r: Vec<String>)
    ensures
        strings_view(r@) == seq!["application/json"@, "application/jsonrpc"@],
{
    let mut v: Vec<String> = Vec::new();
    assert(strings_view(v@) =~= Seq::<Seq<char>>::empty());
    push_owned(&mut v, "application/json");
    push_owned(&mut v, "application/jsonrpc");
    assert(strings_view(v@) =~= seq!["application/json"@, "application/jsonrpc"@]);
    v
}

/// JSON-RPC framing is validated by default.
pub fn default_validate_jsonrpc() -> (r: bool)
    ensures
        r == true,
{
    true
}

impl Default for ValidationConfig {
    fn default() -> (r: Self)
        ensures
            r.max_body_size == 10 * 1024 * 1024,
            strings_view(r.allowed_content_types@) == seq!["application/json"@, "application/jsonrpc"@],
            r.validate_jsonrpc,
            !r.validate_schema,
    {
        ValidationConfig {
            max_body_size: default_max_body_size(),
            allowed_content_types: default_content_types(),
            validate_jsonrpc: true,
            validate_schema: false,
        }
    }
}

impl ValidationConfig {
    /// A strict configuration: 1 MiB bodies, JSON only, schemas validated.
    pub fn strict() -> (r: Self)
        ensures
            r.max_body_size == 1024 * 1024,
            strings_view(r.allowed_content_types@) == seq!["application/json"@],
            r.validate_jsonrpc,
            r.validate_schema,
    {
        let mut v: Vec<String> = Vec::new();
        assert(strings_view(v@) =~= Seq::<Seq<char>>::empty());
        push_owned(&mut v, "application/json");
        assert(strings_view(v@) =~= seq!["application/json"@]);
        ValidationConfig { max_body_size: 1024 * 1024, allowed_content_types: v, validate_jsonrpc: true, validate_schema: true }
    }
}

/// A request refused by validation.
#[derive(Debug)]
pub struct ValidationError {
    pub field: String,
    pub message: String,
}

/// The index of the first `;` of `s` at or after `i`, or its length.
pub open spec fn first_semi(s: Seq<char>, i: int) -> int
    decreases s.len() - i,
{
    if i >= s.len() || i < 0 { s.len() as int } else if s[i] == ';' { i } else { first_semi(s, i + 1) }
}

/// The media type of a content type header: the text before its first `;`.
pub open spec fn media_type(ct: Seq<char>) -> Seq<char> {
    ct.take(first_semi(ct, 0))
}

/// The value of a run of decimal digits.
pub open spec fn digits_num(d: Seq<char>) -> nat
    decreases d.len(),
{
    if d.len() == 0 { 0 } else { digits_num(d.drop_last()) * 10 + (d.last() as nat - '0' as nat) as nat }
}

/// Every character is an ASCII digit.
pub open spec fn all_digits(d: Seq<char>) -> bool {
    forall|i: int| 0 <= i < d.len() ==> '0' <= #[trigger] d[i] <= '9'
}

/// What `str::parse::<usize>` gives: an optional `+`, then at least one
/// digit and nothing else, of a value that fits in `usize`.
pub open spec fn parsed_usize(s: Seq<char>) -> Option<nat> {
    let d = if s.len() > 0 && s[0] == '+' { s.drop_first() } else { s };
    if d.len() > 0 && all_digits(d) && digits_num(d) <= usize::MAX { Some(digits_num(d)) } else { None }
}

/// The media type of a content type header.
pub fn media_type_of(ct: &str) -> (r: String)
    ensures
        r@ == media_type(ct@),
{
    let s = crate::text::chars_of(ct);
    let mut r = String::new();
    let mut i: usize = 0;
    while i < s.len() && s[i] != ';'
        invariant
            s@ == ct@,
            i <= s@.len(),
            first_semi(s@, 0) == first_semi(s@, i as int),
            r@ == s@.take(i as int),
        decreases s@.len() - i,
    {
        assert(s@.take(i + 1) =~= s@.take(i as int).push(s@[i as int]));
        push_char(&mut r, s[i]);
        i = i + 1;
    }
    r
}

/// Appending a digit multiplies the value by ten and adds the digit.
proof fn lemma_digits_grow(d: Seq<char>, c: char)
    requires
        '0' <= c <= '9',
    ensures
        digits_num(d.push(c)) >= digits_num(d) * 10,
        digits_num(d.push(c)) == digits_num(d) * 10 + (c as nat - '0' as nat),
{
    assert(d.push(c).drop_last() =~= d);
}

/// `str::parse::<usize>`.
pub fn parse_usize(t: &str) -> (r: Option<usize>)
    ensures
        match parsed_usize(t@) {
            Some(n) => r == Some(n as usize),
            None => r is None,
        },
{
    let s = crate::text::chars_of(t);
    let start: usize = if s.len() > 0 && s[0] == '+' { 1 } else { 0 };
    let ghost d = if t@.len() > 0 && t@[0] == '+' { t@.drop_first() } else { t@ };
    assert(d =~= s@.subrange(start as int, s@.len() as int));
    if start >= s.len() {
        return None;
    }
    let cap: u128 = 18446744073709551616u128;
    let mut acc: u128 = 0;
    let mut i: usize = start;
    while i < s.len()
        invariant
            start <= i <= s@.len(),
            d =~= s@.subrange(start as int, s@.len() as int),
            d == (if t@.len() > 0 && t@[0] == '+' { t@.drop_first() } else { t@ }),
            all_digits(s@.subrange(start as int, i as int)),
            acc as int == if digits_num(s@.subrange(start as int, i as int)) < cap as int {
                digits_num(s@.subrange(start as int, i as int)) as int
            } else {
                cap as int
            },
            cap == 18446744073709551616u128,
        decreases s@.len() - i,
    {
        let c = s[i];
        if c < '0' || c > '9' {
            assert(d[i - start] == c);
            return None;
        }
        let ghost pre = s@.subrange(start as int, i as int);
        assert(s@.subrange(start as int, i + 1) =~= pre.push(c));
        proof { lemma_digits_grow(pre, c); }
        let dig: u128 = (c as u32 - 48) as u128;
        let next: u128 = if acc >= cap { cap } else { acc * 10 + dig };
        proof {
            if acc >= cap {
                assert(digits_num(pre) >= cap);
                assert(digits_num(pre) * 10 >= cap) by (nonlinear_arith)
                    requires digits_num(pre) >= cap;
            }
        }
        acc = if next < cap { next } else { cap };
        i = i + 1;
    }
    assert(s@.subrange(start as int, i as int) =~= d);
    if acc > 18446744073709551615u128 || acc > usize::MAX as u128 {
        return None;
    }
    Some(acc as usize)
}

/// What validation of a request says: its content type, when given, must
/// name an allowed media type; its length, when given and a number, must not
/// exceed the largest body.
pub open spec fn validation_outcome(config: ValidationConfig, content_type: Option<Seq<char>>,
    content_length: Option<Seq<char>>) -> Result<(), (Seq<char>, Seq<char>)> {
    match content_type {
        Some(ct) if !strings_view(config.allowed_content_types@).contains(media_type(ct)) => Err((
            "content-type"@,
            "Content type '"@ + ct + "' not allowed. Allowed: "@
                + debug_of_strings(strings_view(config.allowed_content_types@)),
        )),
        _ => match content_length {
            Some(cl) => match parsed_usize(cl) {
                Some(n) => if n > config.max_body_size {
                    Err(("content-length"@, "Request body too large: "@ + dec_of(n) + " bytes (max: "@
                        + dec_of(config.max_body_size as nat) + ")"@))
                } else {
                    Ok(())
                },
                None => Ok(()),
            },
            None => Ok(()),
        },
    }
}

/// Validates a request's content type and length headers (their text, where
/// present and readable) against `config`.
pub fn validate_request(config: &ValidationConfig, content_type: Option<&str>, content_length: Option<&str>)
    -> (r: Result<(), ValidationError>)
    ensures
        match validation_outcome(*config, match content_type { Some(c) => Some(c@), None => None },
            match content_length { Some(c) => Some(c@), None => None }) {
            Ok(()) => r is Ok,
            Err((f, m)) => r matches Err(e) && e.field@ == f && e.message@ == m,
        },
{
    if let Some(ct) = content_type {
        let main = media_type_of(ct);
        if !contains_str(&config.allowed_content_types, main.as_str()) {
            let mut m = owned("Content type '");
            push_str(&mut m, ct);
            push_str(&mut m, "' not allowed. Allowed: ");
            let allowed = debug_strings(&config.allowed_content_types);
            push_str(&mut m, allowed.as_str());
            return Err(ValidationError { field: owned("content-type"), message: m });
        }
    }
    if let Some(cl) = content_length {
        if let Some(len) = parse_usize(cl) {
            if len > config.max_body_size {
                let mut m = owned("Request body too large: ");
                push_decimal(len as u64, &mut m);
                push_str(&mut m, " bytes (max: ");
                push_decimal(config.max_body_size as u64, &mut m);
                push_str(&mut m, ")");
                return Err(ValidationError { field: owned("content-length"), message: m });
            }
        }
    }
    Ok(())
}

/// Compression configuration.
#[derive(Debug, Clone, Copy)]
pub struct CompressionConfig {
    pub enabled: bool,
    pub level: u8,
    pub min_size: usize,
    pub compressible: bool,
}

/// Compression is enabled by default.
pub fn default_enabled() -> (r: bool)
    ensures
        r == true,
{
    true
}

/// Compression level by default: balanced.
pub fn default_level() -> (r: u8)
    ensures
        r == 6,
{
    6
}

/// Smallest response compressed by default: 1 KiB.
pub fn default_min_size() -> (r: usize)
    ensures
        r == 1024,
{
    1024
}

/// Compress by content type by default.
pub fn default_compressible() -> (r: bool)
    ensures
        r == true,
{
    true
}

impl Default for CompressionConfig {
    fn default() -> (r: Self)
        ensures
            r.enabled,
            r.level == 6,
            r.min_size == 1024,
            r.compressible,
    {
        CompressionConfig { enabled: true, level: 6, min_size: 1024, compressible: true }
    }
}

impl CompressionConfig {
    /// Fast compression: low level, small threshold.
    pub fn fast() -> (r: Self)
        ensures
            r.enabled,
            r.level == 3,
            r.min_size == 512,
            r.compressible,
    {
        CompressionConfig { enabled: true, level: 3, min_size: 512, compressible: true }
    }

    /// Maximum compression: highest level, smallest threshold.
    pub fn max() -> (r: Self)
        ensures
            r.enabled,
            r.level == 9,
            r.min_size == 256,
            r.compressible,
    {
        CompressionConfig { enabled: true, level: 9, min_size: 256, compressible: true }
    }
}

} // verus!
