//! Federated token verification with result caching.
//!
//! A verifier knows the deployment mode, the auth hub's public key once it
//! has been fetched, and a cache of verified results that expire sixty
//! seconds after verification. The signature check itself and the key fetch
//! are outside work; the decisions around them — which key to use, when the
//! cache answers, when a fetch is needed, and when the instance is
//! misconfigured — are the library's.

use crate::chat::{parse_uuid, uuid_of, uuid_str_of, uuid_to_string};
use crate::config::ServerMode;
use crate::error::AppError;
use crate::models::Claims;
use vstd::prelude::*;

verus! {

/// How long a verified result is served from the cache, in milliseconds.
pub const TOKEN_CACHE_TTL_MS: u64 = 60_000;

/// A cached verification result.
pub struct TokenEntry {
    pub user_id: u128,
    pub username: String,
    /// Clock reading (ms) at verification time.
    pub cached_at_ms: u64,
}

/// A cached result answers for strictly less than the TTL after it was
/// recorded.
pub open spec fn entry_fresh(e: TokenEntry, now_ms: u64) -> bool {
    e.cached_at_ms <= now_ms < e.cached_at_ms + TOKEN_CACHE_TTL_MS
}

/// First entry bound to token text `k`, if any.
pub open spec fn tok_lookup(s: Seq<(String, TokenEntry)>, k: Seq<char>) -> Option<TokenEntry>
    decreases s.len(),
{
    if s.len() == 0 {
        None
    } else if s[0].0@ == k {
        Some(s[0].1)
    } else {
        tok_lookup(s.skip(1), k)
    }
}

pub open spec fn tok_unique(s: Seq<(String, TokenEntry)>) -> bool {
    forall|i: int, j: int| 0 <= i < j < s.len() ==> s[i].0@ != s[j].0@
}

proof fn lemma_tok_lookup_some(s: Seq<(String, TokenEntry)>, k: Seq<char>)
    ensures
        tok_lookup(s, k) is Some <==> exists|i: int| 0 <= i < s.len() && s[i].0@ == k,
    decreases s.len(),
{
    if s.len() > 0 {
        lemma_tok_lookup_some(s.skip(1), k);
        if s[0].0@ != k {
            if tok_lookup(s.skip(1), k) is Some {
                let i = choose|i: int| 0 <= i < s.skip(1).len() && s.skip(1)[i].0@ == k;
                assert(s[i + 1].0@ == k);
            }
            if exists|i: int| 0 <= i < s.len() && s[i].0@ == k {
                let i = choose|i: int| 0 <= i < s.len() && s[i].0@ == k;
                assert(s.skip(1)[i - 1].0@ == k);
            }
        }
    }
}

proof fn lemma_tok_lookup_index(s: Seq<(String, TokenEntry)>, i: int)
    requires
        tok_unique(s),
        0 <= i < s.len(),
    ensures
        tok_lookup(s, s[i].0@) == Some(s[i].1),
    decreases s.len(),
{
    if i > 0 {
        assert(s[0].0@ != s[i].0@);
        assert(s.skip(1)[i - 1] == s[i]);
        lemma_tok_lookup_index(s.skip(1), i - 1);
    }
}

proof fn lemma_tok_remove(s: Seq<(String, TokenEntry)>, i: int, k: Seq<char>)
    requires
        tok_unique(s),
        0 <= i < s.len(),
        s[i].0@ == k,
    ensures
        tok_unique(s.remove(i)),
        forall|k2: Seq<char>| k2 != k ==> tok_lookup(s.remove(i), k2) == tok_lookup(s, k2),
        forall|j: int| 0 <= j < s.remove(i).len() ==> s.remove(i)[j].0@ != k,
{
    let t = s.remove(i);
    assert forall|j: int| 0 <= j < t.len() implies t[j].0@ != k by {
        if j < i {
            assert(t[j] == s[j]);
        } else {
            assert(t[j] == s[j + 1]);
        }
    }
    assert forall|k2: Seq<char>| k2 != k implies tok_lookup(t, k2) == tok_lookup(s, k2) by {
        lemma_tok_remove_other(s, i, k2);
    }
}

proof fn lemma_tok_remove_other(s: Seq<(String, TokenEntry)>, i: int, k2: Seq<char>)
    requires
        0 <= i < s.len(),
        s[i].0@ != k2,
    ensures
        tok_lookup(s.remove(i), k2) == tok_lookup(s, k2),
    decreases s.len(),
{
    if i == 0 {
        assert(s.remove(0) =~= s.skip(1));
    } else {
        if s[0].0@ == k2 {
            assert(s.remove(i)[0] == s[0]);
        } else {
            assert(s.remove(i).skip(1) =~= s.skip(1).remove(i - 1));
            lemma_tok_remove_other(s.skip(1), i - 1, k2);
        }
    }
}

proof fn lemma_tok_push(s: Seq<(String, TokenEntry)>, p: (String, TokenEntry))
    requires
        tok_unique(s),
        forall|j: int| 0 <= j < s.len() ==> s[j].0@ != p.0@,
    ensures
        tok_unique(s.push(p)),
        tok_lookup(s.push(p), p.0@) == Some(p.1),
        forall|k2: Seq<char>| k2 != p.0@ ==> tok_lookup(s.push(p), k2) == tok_lookup(s, k2),
    decreases s.len(),
{
    let t = s.push(p);
    if s.len() == 0 {
        assert(t[0] == p);
        assert(t.skip(1) =~= Seq::<(String, TokenEntry)>::empty());
        assert forall|k2: Seq<char>| k2 != p.0@ implies tok_lookup(t, k2) == tok_lookup(s, k2) by {
            assert(tok_lookup(t, k2) == tok_lookup(t.skip(1), k2));
        }
    } else {
        assert(t[0] == s[0]);
        assert(t.skip(1) =~= s.skip(1).push(p));
        lemma_tok_push(s.skip(1), p);
        lemma_tok_lookup_some(s.skip(1).push(p), p.0@);
        assert forall|k2: Seq<char>| k2 != p.0@ implies tok_lookup(t, k2) == tok_lookup(s, k2) by {
            if s[0].0@ != k2 {
                assert(tok_lookup(t, k2) == tok_lookup(t.skip(1), k2));
                assert(tok_lookup(t.skip(1), k2) == tok_lookup(s.skip(1), k2));
            }
        }
    }
}

/// What the next verification step is, given the mode and what is cached.
#[derive(Debug, Clone, Copy, PartialEq, Eq, Structural)]
pub enum VerifyPlan {
    /// Auth hub or standalone: check against the locally held public key.
    UseLocalKey,
    /// Community with the hub key already fetched: check locally against it;
    /// the hub is not contacted, reachable or not.
    UseCachedHubKey,
    /// Community without the key: it must be fetched from the hub first.
    FetchHubKey,
    /// Community without the key and without a hub URL: every validation
    /// fails with an internal error, distinguishable from an invalid token.
    Misconfigured,
}

pub struct TokenVerifier {
    pub mode: ServerMode,
    /// Whether a non-empty auth hub URL is configured.
    pub hub_url_configured: bool,
    /// The hub's public key PEM, once fetched; kept indefinitely.
    pub hub_key: Option<Vec<u8>>,
    /// token text -> verified result, each token bound at most once.
    pub cache: Vec<(String, TokenEntry)>,
}

impl TokenVerifier {
    pub open spec fn wf(&self) -> bool {
        tok_unique(self.cache@)
    }

    /// The cached result for a token text.
    pub open spec fn cached(&self, k: Seq<char>) -> Option<TokenEntry> {
        tok_lookup(self.cache@, k)
    }

    pub open spec fn same_policy(&self, other: &Self) -> bool {
        &&& self.mode == other.mode
        &&& self.hub_url_configured == other.hub_url_configured
        &&& self.hub_key == other.hub_key
    }

    pub fn new(mode: ServerMode, hub_url_configured: bool) -> (r: Self)
        ensures
            r.wf(),
            r.mode == mode,
            r.hub_url_configured == hub_url_configured,
            r.hub_key is None,
            forall|k: Seq<char>| r.cached(k) is None,
    {
        let r = TokenVerifier { mode, hub_url_configured, hub_key: None, cache: Vec::new() };
        proof {
            assert forall|k: Seq<char>| r.cached(k) is None by {
                lemma_tok_lookup_some(r.cache@, k);
            }
        }
        r
    }

    /// Which verification step applies. Once the hub key is cached a
    /// community instance never needs the hub again; before the first fetch
    /// it needs the hub, or is misconfigured when no hub URL is set.
    pub fn plan(&self) -> (r: VerifyPlan)
        ensures
            r is UseLocalKey <==> !(self.mode is Community),
            r is UseCachedHubKey <==> (self.mode is Community && self.hub_key is Some),
            r is FetchHubKey <==> (self.mode is Community && self.hub_key is None
                && self.hub_url_configured),
            r is Misconfigured <==> (self.mode is Community && self.hub_key is None
                && !self.hub_url_configured),
    {
        match self.mode {
            ServerMode::Community => {
                if self.hub_key.is_some() {
                    VerifyPlan::UseCachedHubKey
                } else if self.hub_url_configured {
                    VerifyPlan::FetchHubKey
                } else {
                    VerifyPlan::Misconfigured
                }
            },
            _ => VerifyPlan::UseLocalKey,
        }
    }

    /// The cached hub key, if fetched.
    pub fn hub_key_pem(&self) -> (r: Option<&Vec<u8>>)
        ensures
            match r {
                Some(v) => self.hub_key == Some(*v),
                None => self.hub_key is None,
            },
    {
        self.hub_key.as_ref()
    }

    /// Take in what the key fetch produced: the key is kept indefinitely on
    /// success; a failed fetch is an internal error — never mistaken for an
    /// invalid token — and changes nothing.
    pub fn on_fetch_result(&mut self, result: Option<Vec<u8>>) -> (r: Result<(), AppError>)
        requires
            old(self).wf(),
        ensures
            final(self).wf(),
            final(self).cache == old(self).cache,
            final(self).mode == old(self).mode,
            final(self).hub_url_configured == old(self).hub_url_configured,
            match result {
                Some(pem) => r is Ok && final(self).hub_key == Some(pem),
                None => r == Err::<(), AppError>(AppError::Internal) && final(self).hub_key == old(
                    self,
                ).hub_key,
            },
    {
        match result {
            Some(pem) => {
                self.hub_key = Some(pem);
                Ok(())
            },
            None => Err(AppError::Internal),
        }
    }

    fn cache_index_of(&self, token: &String) -> (r: Option<usize>)
        ensures
            match r {
                Some(i) => i < self.cache@.len() && self.cache@[i as int].0@ == token@ && (forall|
                    j: int,
                |
                    0 <= j < i ==> self.cache@[j].0@ != token@),
                None => forall|j: int| 0 <= j < self.cache@.len() ==> self.cache@[j].0@ != token@,
            },
    {
        let mut i: usize = 0;
        while i < self.cache.len()
            invariant
                i <= self.cache@.len(),
                forall|j: int| 0 <= j < i ==> self.cache@[j].0@ != token@,
            decreases self.cache@.len() - i,
        {
            if self.cache[i].0 == *token {
                return Some(i);
            }
            i = i + 1;
        }
        None
    }

    /// Look the token up in the cache. A result recorded strictly less than
    /// sixty seconds ago answers without any signature check; an older one
    /// is evicted and the lookup misses.
    pub fn check_cache(&mut self, token: &String, now_ms: u64) -> (r: Option<(u128, String)>)
        requires
            old(self).wf(),
        ensures
            final(self).wf(),
            final(self).same_policy(old(self)),
            forall|k2: Seq<char>|
                k2 != token@ ==> final(self).cached(k2) == old(self).cached(k2),
            match old(self).cached(token@) {
                Some(e) => {
                    if entry_fresh(e, now_ms) {
                        r == Some((e.user_id, e.username)) && *final(self) == *old(self)
                    } else {
                        r is None && final(self).cached(token@) is None
                    }
                },
                None => r is None && *final(self) == *old(self),
            },
    {
        let ghost pre = self.cache@;
        match self.cache_index_of(token) {
            Some(i) => {
                proof {
                    lemma_tok_lookup_index(pre, i as int);
                }
                let fresh = self.cache[i].1.cached_at_ms <= now_ms && now_ms
                    - self.cache[i].1.cached_at_ms < TOKEN_CACHE_TTL_MS;
                if fresh {
                    let user_id = self.cache[i].1.user_id;
                    let username = self.cache[i].1.username.clone();
                    Some((user_id, username))
                } else {
                    proof {
                        lemma_tok_remove(pre, i as int, token@);
                    }
                    self.cache.remove(i);
                    proof {
                        lemma_tok_lookup_some(self.cache@, token@);
                    }
                    None
                }
            },
            None => {
                proof {
                    lemma_tok_lookup_some(pre, token@);
                }
                None
            },
        }
    }

    /// Record a verified result at the current clock reading (also for
    /// results verified elsewhere, such as by the hub's validate endpoint).
    pub fn record(&mut self, token: &String, user_id: u128, username: String, now_ms: u64)
        requires
            old(self).wf(),
        ensures
            final(self).wf(),
            final(self).same_policy(old(self)),
            final(self).cached(token@) == Some(
                TokenEntry { user_id, username, cached_at_ms: now_ms },
            ),
            forall|k2: Seq<char>|
                k2 != token@ ==> final(self).cached(k2) == old(self).cached(k2),
    {
        let ghost pre = self.cache@;
        let entry = TokenEntry { user_id, username, cached_at_ms: now_ms };
        let key = token.clone();
        match self.cache_index_of(token) {
            Some(i) => {
                proof {
                    lemma_tok_remove(pre, i as int, token@);
                }
                self.cache.remove(i);
                proof {
                    lemma_tok_push(self.cache@, (key, entry));
                }
                self.cache.push((key, entry));
            },
            None => {
                proof {
                    lemma_tok_push(pre, (key, entry));
                }
                self.cache.push((key, entry));
            },
        }
    }

    /// Fix the verification result for each decoder outcome: a rejected
    /// token is unauthorized and changes nothing; accepted claims whose
    /// subject is not an identifier are an internal error and change
    /// nothing; otherwise the identity comes back and is cached at `now_ms`.
    pub fn on_decode_result(
        &mut self,
        token: &String,
        outcome: Option<(String, String)>,
        now_ms: u64,
    ) -> (r: Result<(u128, String), AppError>)
        requires
            old(self).wf(),
        ensures
            final(self).wf(),
            final(self).same_policy(old(self)),
            forall|k2: Seq<char>|
                k2 != token@ ==> final(self).cached(k2) == old(self).cached(k2),
            match outcome {
                None => r == Err::<(u128, String), AppError>(AppError::Unauthorized)
                    && *final(self) == *old(self),
                Some((sub, username)) => match uuid_of(sub@) {
                    None => r == Err::<(u128, String), AppError>(AppError::Internal)
                        && *final(self) == *old(self),
                    Some(user_id) => r == Ok::<(u128, String), AppError>((user_id, username))
                        && final(self).cached(token@) == Some(
                        TokenEntry { user_id, username, cached_at_ms: now_ms },
                    ),
                },
            },
    {
        match outcome {
            None => Err(AppError::Unauthorized),
            Some((sub, username)) => {
                match parse_uuid(sub.as_str()) {
                    None => Err(AppError::Internal),
                    Some(user_id) => {
                        let returned = username.clone();
                        self.record(token, user_id, username, now_ms);
                        Ok((user_id, returned))
                    },
                }
            },
        }
    }

    /// Check a token against a PEM public key and cache the result. A PEM
    /// that is not an RSA public key is an internal error — never mistaken
    /// for an invalid token; under a parsed key, the outside signature check
    /// decides, and `on_decode_result` fixes the result for each outcome: a
    /// rejected token is unauthorized, a malformed subject claim internal,
    /// and a verified identity is returned and cached at `now_ms`.
    pub fn verify_with_key(&mut self, pem: &Vec<u8>, token: &String, now_ms: u64) -> (r: Result<
        (u128, String),
        AppError,
    >)
        requires
            old(self).wf(),
        ensures
            final(self).wf(),
            final(self).same_policy(old(self)),
            forall|k2: Seq<char>|
                k2 != token@ ==> final(self).cached(k2) == old(self).cached(k2),
            !rsa_pem_parses(pem@) ==> r == Err::<(u128, String), AppError>(AppError::Internal),
            r matches Err(e) && e is Unauthorized ==> rsa_pem_parses(pem@),
            match r {
                Ok((user_id, username)) => final(self).cached(token@) == Some(
                    TokenEntry { user_id, username, cached_at_ms: now_ms },
                ) && rsa_pem_parses(pem@),
                Err(e) => (e is Unauthorized || e is Internal) && *final(self) == *old(self),
            },
    {
        match decode_claims_rs256(pem.as_slice(), token.as_str()) {
            Err(DecodeFailure::BadKey) => Err(AppError::Internal),
            Err(DecodeFailure::BadToken) => self.on_decode_result(token, None, now_ms),
            Ok(pair) => self.on_decode_result(token, Some(pair), now_ms),
        }
    }
}

/// Why the outside decoder rejected: the public key did not parse, or the
/// token failed its signature, format or expiry checks.
#[derive(Debug, Clone, Copy, PartialEq, Eq, Structural)]
pub enum DecodeFailure {
    BadKey,
    BadToken,
}

/// Whether a byte string parses as an RSA public key PEM
/// (`DecodingKey::from_rsa_pem`); a function of the bytes alone.
pub uninterp spec fn rsa_pem_parses(pem: Seq<u8>) -> bool;

/// Build the claims of an identity token: the subject is the user id in
/// canonical text (it parses back to the same id), and the expiry is the
/// issue time plus the configured lifetime. The signer at the process edge
/// encodes exactly these claims.
pub fn build_claims(user_id: u128, username: String, now_s: i64, expiry_s: u64) -> (r: Claims)
    requires
        now_s >= 0,
        expiry_s <= 0x7fff_ffff_ffff_ffff - (now_s as u64),
    ensures
        r.sub@ == uuid_str_of(user_id),
        uuid_of(r.sub@) == Some(user_id),
        r.username == username,
        r.iat == now_s,
        r.exp == now_s + expiry_s,
{
    let sub = uuid_to_string(user_id);
    Claims { sub, username, iat: now_s, exp: now_s + (expiry_s as i64) }
}

/// A cached result is served for strictly less than sixty seconds from the
/// clock reading at verification, and not at or after that bound: exactly
/// the window in which `check_cache` answers without a signature check.
pub proof fn lemma_token_cache_ttl(e: TokenEntry, now_ms: u64)
    ensures
        entry_fresh(e, now_ms) <==> (e.cached_at_ms <= now_ms && now_ms - e.cached_at_ms
            < TOKEN_CACHE_TTL_MS),
        now_ms >= e.cached_at_ms + TOKEN_CACHE_TTL_MS ==> !entry_fresh(e, now_ms),
{
}

/// Relies on `jsonwebtoken::DecodingKey::from_rsa_pem` and
/// `jsonwebtoken::decode` with RS256 (expiry validated against the clock):
/// key parsing fails exactly when the bytes are not an RSA public key PEM;
/// under a parsed key, the outcome is the token check — signature, format,
/// claims and expiry — which depends on the clock and so is not named.
#[verifier::external_body]
fn decode_claims_rs256(pem: &[u8], token: &str) -> (r: Result<(String, String), DecodeFailure>)
    ensures
        (r matches Err(f) && f is BadKey) <==> !rsa_pem_parses(pem@),
{
    let key = jsonwebtoken::DecodingKey::from_rsa_pem(pem).map_err(|_| DecodeFailure::BadKey)?;
    let mut validation = jsonwebtoken::Validation::new(jsonwebtoken::Algorithm::RS256);
    validation.validate_exp = true;
    let data = jsonwebtoken::decode::<serde_json::Map<String, serde_json::Value>>(
        token,
        &key,
        &validation,
    )
    .map_err(|_| DecodeFailure::BadToken)?;
    let sub = data.claims.get("sub").and_then(|v| v.as_str()).ok_or(DecodeFailure::BadToken)?;
    let name = data.claims.get("username").and_then(|v| v.as_str()).ok_or(DecodeFailure::BadToken)?;
    Ok((sub.to_string(), name.to_string()))
}

} // verus!
