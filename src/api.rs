//! Types of the external admin surface, token authentication and the
//! per-client rate limiter.

use vstd::prelude::*;
use crate::text::join2;

verus! {

/// Settings of the HTTP gateway.
#[derive(Debug, Clone)]
pub struct ApiConfig {
    pub host: String,
    pub port: u16,
    pub enable_cors: bool,
    pub require_auth: bool,
}

impl Default for ApiConfig {
    fn default() -> (r: ApiConfig)
        ensures
            r.host@ == "127.0.0.1"@,
            r.port == 8080,
            r.enable_cors,
            r.require_auth,
    {
        ApiConfig { host: String::from_str("127.0.0.1"), port: 8080, enable_cors: true, require_auth: true }
    }
}

/// Request to create a session.
#[derive(Debug, Clone)]
pub struct SessionCreateRequest {
    pub name: String,
}

/// A session as the gateway reports it.
#[derive(Debug, Clone)]
pub struct SessionResponse {
    pub id: String,
    pub name: String,
    pub status: String,
}

/// A command sent through the gateway.
#[derive(Debug, Clone)]
pub struct CommandRequest {
    pub command: String,
    pub session_id: Option<String>,
}

/// The gateway's answer to a command.
#[derive(Debug, Clone)]
pub struct CommandResponse {
    pub success: bool,
    pub message: Option<String>,
    pub error: Option<String>,
}

/// Counters of the gateway.
#[derive(Debug, Clone, Copy, Default, PartialEq, Eq, Structural)]
pub struct ApiMetrics {
    pub active_connections: u32,
    pub total_requests: u64,
    pub active_sessions: usize,
}

/// A websocket client of the gateway.
#[derive(Debug, Clone)]
pub struct WebSocketConnection {
    pub id: String,
    pub session_id: Option<String>,
    /// Connection time, in milliseconds since the Unix epoch.
    pub connected_at: i64,
}

/// Settings of the rate limiter: tokens refilled per second and bucket size.
#[derive(Debug, Clone, Copy, PartialEq, Eq, Structural)]
pub struct RateLimitConfig {
    pub requests_per_second: u32,
    pub burst_size: u32,
}

impl Default for RateLimitConfig {
    fn default() -> (r: RateLimitConfig)
        ensures
            r == (RateLimitConfig { requests_per_second: 100, burst_size: 150 }),
    {
        RateLimitConfig { requests_per_second: 100, burst_size: 150 }
    }
}

/// Bucket of one client: tokens left and the time of the last refill (ms).
#[derive(Debug, Clone)]
pub struct ClientBucket {
    pub client_id: String,
    pub tokens: u32,
    pub last_refill: i64,
}

/// Tokens refilled after `elapsed_ms` at `rate` per second (rounded down).
pub open spec fn refill(elapsed_ms: nat, rate: nat) -> nat {
    elapsed_ms * rate / 1000
}

/// The bucket of `client_id` among `s`, if any.
pub open spec fn bucket_of(s: Seq<ClientBucket>, client_id: Seq<char>) -> Option<ClientBucket> {
    if exists|i: int| 0 <= i < s.len() && (#[trigger] s[i]).client_id@ == client_id {
        Some(s[choose|i: int| 0 <= i < s.len() && (#[trigger] s[i]).client_id@ == client_id])
    } else {
        None
    }
}

/// Tokens the bucket `b` of a client holds at time `now`, before the
/// request is served: a new client (no bucket) starts full; otherwise the
/// tokens refilled for the time since the last refill are added, capped at
/// the bucket size.
pub open spec fn refilled(b: Option<ClientBucket>, now: i64, cfg: RateLimitConfig) -> nat {
    match b {
        Some(b) => {
            let elapsed: nat = if now >= b.last_refill { (now - b.last_refill) as nat } else { 0 };
            let add = refill(elapsed, cfg.requests_per_second as nat);
            if add > 0 {
                if b.tokens + add <= cfg.burst_size {
                    (b.tokens + add) as nat
                } else {
                    cfg.burst_size as nat
                }
            } else {
                b.tokens as nat
            }
        },
        None => cfg.burst_size as nat,
    }
}

/// The buckets `s1` and `s2` hold the same bucket at the same positions for
/// client `c`.
pub open spec fn same_for(s1: Seq<ClientBucket>, s2: Seq<ClientBucket>, c: Seq<char>) -> bool {
    forall|i: int|
        ((0 <= i < s1.len() && (#[trigger] s1[i]).client_id@ == c) <==> (0 <= i < s2.len()
            && s2[i].client_id@ == c)) && (0 <= i < s1.len() && s1[i].client_id@ == c ==> s2[i]
            == s1[i])
}

/// One bucket per client in `s`.
pub open spec fn ids_unique(s: Seq<ClientBucket>) -> bool {
    forall|i: int, j: int|
        0 <= i < s.len() && 0 <= j < s.len() && i != j ==> (#[trigger] s[i]).client_id@ != (
        #[trigger] s[j]).client_id@
}

/// With one bucket per client, a bucket found at a position is the one
/// `bucket_of` names.
pub proof fn lemma_bucket_at(s: Seq<ClientBucket>, c: Seq<char>, i: int)
    requires
        ids_unique(s),
        0 <= i < s.len(),
        s[i].client_id@ == c,
    ensures
        bucket_of(s, c) == Some(s[i]),
{
    let k = choose|k: int| 0 <= k < s.len() && (#[trigger] s[k]).client_id@ == c;
    if k != i {
        assert(s[k].client_id@ != s[i].client_id@);
    }
}

/// Sequences that agree on client `c` name the same bucket for it.
pub proof fn lemma_bucket_same(s1: Seq<ClientBucket>, s2: Seq<ClientBucket>, c: Seq<char>)
    requires
        ids_unique(s1),
        ids_unique(s2),
        same_for(s1, s2, c),
    ensures
        bucket_of(s2, c) == bucket_of(s1, c),
{
    if exists|i: int| 0 <= i < s1.len() && (#[trigger] s1[i]).client_id@ == c {
        let i = choose|i: int| 0 <= i < s1.len() && (#[trigger] s1[i]).client_id@ == c;
        lemma_bucket_at(s1, c, i);
        lemma_bucket_at(s2, c, i);
    } else if exists|j: int| 0 <= j < s2.len() && (#[trigger] s2[j]).client_id@ == c {
        let j = choose|j: int| 0 <= j < s2.len() && (#[trigger] s2[j]).client_id@ == c;
        assert(s1[j].client_id@ == c);
    }
}

/// A token bucket per client: each admitted request takes a token; tokens
/// come back at `requests_per_second`, up to `burst_size`.
pub struct RateLimiter {
    config: RateLimitConfig,
    clients: Vec<ClientBucket>,
}

impl RateLimiter {
    /// The settings.
    pub closed spec fn settings(&self) -> RateLimitConfig {
        self.config
    }

    /// The buckets.
    pub closed spec fn buckets(&self) -> Seq<ClientBucket> {
        self.clients@
    }

    /// One bucket per client.
    pub closed spec fn wf(&self) -> bool {
        &&& forall|i: int, j: int|
            0 <= i < self.clients@.len() && 0 <= j < self.clients@.len() && i != j
                ==> (#[trigger] self.clients@[i]).client_id@ != (#[trigger] self.clients@[j]).client_id@
        &&& forall|i: int| 0 <= i < self.clients@.len() ==> (#[trigger] self.clients@[i]).tokens <= self.config.burst_size
    }

    /// A limiter with no client yet.
    pub fn new(config: RateLimitConfig) -> (r: RateLimiter)
        ensures
            r.wf(),
            r.settings() == config,
            r.buckets().len() == 0,
    {
        RateLimiter { config, clients: Vec::new() }
    }

    fn find(&self, client_id: &str) -> (r: Option<usize>)
        ensures
            r is Some ==> r->0 < self.clients@.len() && self.clients@[r->0 as int].client_id@ == client_id@,
            r is None ==> forall|j: int| 0 <= j < self.clients@.len() ==> (#[trigger] self.clients@[j]).client_id@ != client_id@,
    {
        let wanted = String::from_str(client_id);
        let mut i: usize = 0;
        while i < self.clients.len()
            invariant
                i <= self.clients@.len(),
                wanted@ == client_id@,
                forall|j: int| 0 <= j < i ==> (#[trigger] self.clients@[j]).client_id@ != client_id@,
            decreases self.clients@.len() - i,
        {
            if self.clients[i].client_id.eq(&wanted) {
                return Some(i);
            }
            i = i + 1;
        }
        None
    }

    /// Admits or refuses a request of `client_id` at time `now` (ms). A new
    /// client starts with a full bucket. Tokens are refilled for the time
    /// elapsed since the last refill, capped at the bucket size; the request
    /// is refused ("Rate limit exceeded") when no token is left, else it
    /// takes one.
    pub fn check_rate_limit_at(&mut self, client_id: &str, now: i64) -> (r: Result<(), String>)
        requires
            old(self).wf(),
        ensures
            final(self).wf(),
            final(self).settings() == old(self).settings(),
            r is Ok <==> refilled(bucket_of(old(self).buckets(), client_id@), now, old(self).settings()) > 0,
            bucket_of(final(self).buckets(), client_id@) is Some,
            bucket_of(final(self).buckets(), client_id@)->0.tokens == refilled(
                bucket_of(old(self).buckets(), client_id@),
                now,
                old(self).settings(),
            ) - (if r is Ok { 1int } else { 0int }),
            bucket_of(final(self).buckets(), client_id@)->0.tokens <= old(self).settings().burst_size,
            forall|c: Seq<char>| c != client_id@ ==> #[trigger] bucket_of(final(self).buckets(), c) == bucket_of(
                old(self).buckets(),
                c,
            ),
    {
        let rate = self.config.requests_per_second as u128;
        let burst = self.config.burst_size;
        let ghost mut existed = true;
        let idx = match self.find(client_id) {
            Some(i) => {
                proof {
                    let c = choose|c: int| 0 <= c < self.clients@.len() && (#[trigger] self.clients@[c]).client_id@ == client_id@;
                    if c != i {
                        assert(self.clients@[c].client_id@ != self.clients@[i as int].client_id@);
                    }
                }
                i
            },
            None => {
                proof {
                    existed = false;
                }
                self.clients.push(ClientBucket { client_id: String::from_str(client_id), tokens: burst, last_refill: now });
                proof {
                    assert forall|a: int, b: int|
                        0 <= a < self.clients@.len() && 0 <= b < self.clients@.len() && a != b
                            implies (#[trigger] self.clients@[a]).client_id@ != (#[trigger] self.clients@[b]).client_id@ by {
                        if a < self.clients@.len() - 1 && b < self.clients@.len() - 1 {
                            assert(old(self).clients@[a] == self.clients@[a]);
                            assert(old(self).clients@[b] == self.clients@[b]);
                        } else if a < self.clients@.len() - 1 {
                            assert(old(self).clients@[a] == self.clients@[a]);
                        } else if b < self.clients@.len() - 1 {
                            assert(old(self).clients@[b] == self.clients@[b]);
                        }
                    }
                }
                self.clients.len() - 1
            },
        };
        let ghost mid = self.clients@;
        let mut bucket = self.clients.remove(idx);
        let elapsed: u128 = if now >= bucket.last_refill {
            (now as i128 - bucket.last_refill as i128) as u128
        } else {
            0
        };
        proof {
            assert(elapsed * rate <= 0x1_0000_0000_0000_0000 * 0x1_0000_0000) by (nonlinear_arith)
                requires elapsed <= 0x1_0000_0000_0000_0000, rate <= 0x1_0000_0000;
        }
        let add = elapsed * rate / 1000;
        if add > 0 {
            bucket.tokens = if bucket.tokens as u128 + add <= burst as u128 {
                (bucket.tokens as u128 + add) as u32
            } else {
                burst
            };
            bucket.last_refill = now;
        }
        let result = if bucket.tokens == 0 {
            Err(String::from_str("Rate limit exceeded"))
        } else {
            bucket.tokens = bucket.tokens - 1;
            Ok(())
        };
        let ghost b2 = bucket;
        self.clients.insert(idx, bucket);
        proof {
            assert(self.clients@ =~= mid.update(idx as int, b2));
            assert forall|a: int, b: int|
                0 <= a < self.clients@.len() && 0 <= b < self.clients@.len() && a != b
                    implies (#[trigger] self.clients@[a]).client_id@ != (#[trigger] self.clients@[b]).client_id@ by {
                assert(mid[a].client_id@ != mid[b].client_id@);
            }
            let o = old(self).clients@;
            let f = self.clients@;
            assert(ids_unique(o));
            assert(ids_unique(f));
            lemma_bucket_at(f, client_id@, idx as int);
            if existed {
                lemma_bucket_at(o, client_id@, idx as int);
                assert(mid =~= o);
            } else {
                assert(mid =~= o.push(mid[idx as int]));
            }
            assert forall|c: Seq<char>| c != client_id@ implies #[trigger] bucket_of(f, c) == bucket_of(o, c) by {
                assert forall|i: int|
                    ((0 <= i < o.len() && (#[trigger] o[i]).client_id@ == c) <==> (0 <= i < f.len()
                        && f[i].client_id@ == c)) && (0 <= i < o.len() && o[i].client_id@ == c ==> f[i]
                        == o[i]) by {
                    if 0 <= i < o.len() {
                        assert(mid[i] == o[i]);
                    }
                }
                lemma_bucket_same(o, f, c);
            }
        }
        result
    }

    /// Admits or refuses a request of `client_id` now; see
    /// `check_rate_limit_at`.
    pub fn check_rate_limit(&mut self, client_id: &str) -> (r: Result<(), String>)
        requires
            old(self).wf(),
        ensures
            final(self).wf(),
            final(self).settings() == old(self).settings(),
            exists|now: i64|
                (r is Ok <==> #[trigger] refilled(bucket_of(old(self).buckets(), client_id@), now, old(self).settings())
                    > 0) && bucket_of(final(self).buckets(), client_id@) is Some && bucket_of(
                    final(self).buckets(),
                    client_id@,
                )->0.tokens == refilled(bucket_of(old(self).buckets(), client_id@), now, old(self).settings())
                    - (if r is Ok { 1int } else { 0int }),
            forall|c: Seq<char>| c != client_id@ ==> #[trigger] bucket_of(final(self).buckets(), c) == bucket_of(
                old(self).buckets(),
                c,
            ),
    {
        let now = crate::sources::now_millis();
        self.check_rate_limit_at(client_id, now)
    }

    /// Forgets `client_id`, whose next request starts with a full bucket.
    pub fn reset_client(&mut self, client_id: &str)
        requires
            old(self).wf(),
        ensures
            final(self).wf(),
            final(self).settings() == old(self).settings(),
            forall|j: int| 0 <= j < final(self).buckets().len() ==> (#[trigger] final(self).buckets()[j]).client_id@ != client_id@,
    {
        let mut i: usize = 0;
        let ghost mut removed: Seq<ClientBucket> = Seq::empty();
        while i < self.clients.len()
            invariant
                i <= self.clients@.len(),
                self.config == old(self).config,
                self.wf(),
                forall|j: int| 0 <= j < i ==> (#[trigger] self.clients@[j]).client_id@ != client_id@,
            decreases self.clients@.len() - i,
        {
            let same = self.clients[i].client_id.eq(&String::from_str(client_id));
            if same {
                let ghost before = self.clients@;
                self.clients.remove(i);
                proof {
                    assert forall|j: int| 0 <= j < i implies (#[trigger] self.clients@[j]).client_id@ != client_id@ by {
                        assert(self.clients@[j] == before[j]);
                    }
                    assert forall|a: int, b: int|
                        0 <= a < self.clients@.len() && 0 <= b < self.clients@.len() && a != b
                            implies (#[trigger] self.clients@[a]).client_id@ != (#[trigger] self.clients@[b]).client_id@ by {
                        let a2 = if a < i { a } else { a + 1 };
                        let b2 = if b < i { b } else { b + 1 };
                        assert(self.clients@[a] == before[a2]);
                        assert(self.clients@[b] == before[b2]);
                    }
                }
            } else {
                i = i + 1;
            }
        }
    }
}


/// Validates bearer tokens by membership in a set.
pub struct AuthService {
    tokens: Vec<String>,
}

impl AuthService {
    /// The accepted tokens.
    pub closed spec fn accepted(&self) -> Set<Seq<char>> {
        self.tokens@.map_values(|t: String| t@).to_set()
    }

    /// A service accepting only the development token, `dev-token-local`.
    pub fn new() -> (r: AuthService)
        ensures
            r.accepted() == set!["dev-token-local"@],
    {
        let mut tokens: Vec<String> = Vec::new();
        tokens.push(String::from_str("dev-token-local"));
        let r = AuthService { tokens };
        proof {
            let s = r.tokens@.map_values(|t: String| t@);
            assert(s =~= seq!["dev-token-local"@]);
            assert(s.to_set() =~= set!["dev-token-local"@]) by {
                assert forall|x: Seq<char>| s.to_set().contains(x) <==> x == "dev-token-local"@ by {
                    if x == "dev-token-local"@ {
                        assert(s[0] == x);
                    }
                }
            }
        }
        r
    }

    fn position(&self, token: &str) -> (r: Option<usize>)
        ensures
            r is Some ==> r->0 < self.tokens@.len() && self.tokens@[r->0 as int]@ == token@,
            r is None <==> !self.accepted().contains(token@),
    {
        let wanted = String::from_str(token);
        let mut i: usize = 0;
        while i < self.tokens.len()
            invariant
                i <= self.tokens@.len(),
                wanted@ == token@,
                forall|j: int| 0 <= j < i ==> (#[trigger] self.tokens@[j])@ != token@,
            decreases self.tokens@.len() - i,
        {
            if self.tokens[i].eq(&wanted) {
                proof {
                    let s = self.tokens@.map_values(|t: String| t@);
                    assert(s[i as int] == token@);
                }
                return Some(i);
            }
            i = i + 1;
        }
        proof {
            let s = self.tokens@.map_values(|t: String| t@);
            if s.to_set().contains(token@) {
                let j = choose|j: int| 0 <= j < s.len() && s[j] == token@;
                assert(self.tokens@[j]@ == token@);
            }
        }
        None
    }

    /// Whether `token` is accepted.
    pub fn validate_token(&self, token: &str) -> (r: bool)
        ensures
            r == self.accepted().contains(token@),
    {
        self.position(token).is_some()
    }

    /// Accepts `token` from now on.
    pub fn add_token(&mut self, token: String) -> (r: Result<(), String>)
        ensures
            r is Ok,
            final(self).accepted() == old(self).accepted().insert(token@),
    {
        if self.position(token.as_str()).is_none() {
            let ghost before = self.tokens@.map_values(|t: String| t@);
            let ghost tv = token@;
            self.tokens.push(token);
            proof {
                let s = self.tokens@.map_values(|t: String| t@);
                assert(s =~= before.push(tv));
                assert(s.to_set() =~= before.to_set().insert(tv)) by {
                    assert forall|x: Seq<char>| s.to_set().contains(x) <==> before.to_set().insert(tv).contains(x) by {
                        if before.to_set().contains(x) {
                            let j = choose|j: int| 0 <= j < before.len() && before[j] == x;
                            assert(s[j] == x);
                        }
                        if x == tv {
                            assert(s[s.len() - 1] == x);
                        }
                        if s.to_set().contains(x) {
                            let j = choose|j: int| 0 <= j < s.len() && s[j] == x;
                            if j < before.len() {
                                assert(before[j] == x);
                            }
                        }
                    }
                }
            }
        } else {
            proof {
                assert(old(self).accepted().insert(token@) =~= old(self).accepted());
            }
        }
        Ok(())
    }

    /// Stops accepting `token`; fails with "Token not found" when it was not
    /// accepted.
    pub fn remove_token(&mut self, token: &str) -> (r: Result<(), String>)
        ensures
            r is Ok <==> old(self).accepted().contains(token@),
            !final(self).accepted().contains(token@),
            forall|x: Seq<char>| x != token@ ==> (final(self).accepted().contains(x) == old(self).accepted().contains(x)),
    {
        let mut found = false;
        let mut i: usize = 0;
        let wanted = String::from_str(token);
        while i < self.tokens.len()
            invariant
                i <= self.tokens@.len(),
                wanted@ == token@,
                forall|j: int| 0 <= j < i ==> (#[trigger] self.tokens@[j])@ != token@,
                forall|x: Seq<char>| x != token@ ==> (self.tokens@.map_values(|t: String| t@).to_set().contains(x) == old(self).accepted().contains(x)),
                found ==> old(self).accepted().contains(token@),
                !found ==> self.tokens@ == old(self).tokens@,
            decreases self.tokens@.len() - i,
        {
            if self.tokens[i].eq(&wanted) {
                let ghost before = self.tokens@;
                proof {
                    let s = before.map_values(|t: String| t@);
                    assert(s[i as int] == token@);
                }
                self.tokens.remove(i);
                found = true;
                proof {
                    let s0 = before.map_values(|t: String| t@);
                    let s1 = self.tokens@.map_values(|t: String| t@);
                    assert forall|x: Seq<char>| x != token@ implies (s1.to_set().contains(x) == s0.to_set().contains(x)) by {
                        if s0.to_set().contains(x) {
                            let j = choose|j: int| 0 <= j < s0.len() && s0[j] == x;
                            assert(j != i);
                            if j < i {
                                assert(s1[j] == x);
                            } else {
                                assert(s1[j - 1] == x);
                            }
                        }
                        if s1.to_set().contains(x) {
                            let j = choose|j: int| 0 <= j < s1.len() && s1[j] == x;
                            if j < i {
                                assert(s0[j] == x);
                            } else {
                                assert(s0[j + 1] == x);
                            }
                        }
                    }
                    assert forall|j: int| 0 <= j < i implies (#[trigger] self.tokens@[j])@ != token@ by {
                        assert(self.tokens@[j] == before[j]);
                    }
                }
            } else {
                i = i + 1;
            }
        }
        proof {
            let s = self.tokens@.map_values(|t: String| t@);
            if s.to_set().contains(token@) {
                let j = choose|j: int| 0 <= j < s.len() && s[j] == token@;
                assert(self.tokens@[j]@ == token@);
            }
            if !found {
                assert(!old(self).accepted().contains(token@));
            }
        }
        if found {
            Ok(())
        } else {
            Err(String::from_str("Token not found"))
        }
    }

    /// Makes up a new token, `token-` and a random identifier, and accepts
    /// it.
    pub fn generate_token(&mut self) -> (r: String)
        ensures
            final(self).accepted() == old(self).accepted().insert(r@),
    {
        let token = join2("token-", crate::sources::fresh_id_text().as_str());
        let copy = token.clone();
        let _ = self.add_token(token);
        copy
    }
}

} // verus!
