//! The per-request authorization pipeline. Each step decides on what the
//! previous outside operation returned and names the next one to perform:
//! route match, public short-circuit, bearer token, credential check, rate
//! limit, cached or fresh permission check, then the proxy leg.
use vstd::prelude::*;
use crate::config::{
    RouteConfig, TupleKey, concat_str, feature_object, feature_object_of, is_public_feature,
    opt_view, public_feature, user_ref, user_ref_of,
};
use crate::credentials::{AuthError, Claims, bearer_token};

verus! {

/// Requests a subject may make within one window.
pub const RATE_LIMIT: i64 = 100;

/// Length of the rate-limit window, in seconds.
pub const RATE_WINDOW_SECS: u64 = 60;

/// How long a permission decision stays cached, in seconds.
pub const DECISION_TTL_SECS: u64 = 30;

/// The terminal outcome of a refused request.
#[derive(Clone, Copy, Debug, PartialEq, Eq)]
pub enum Status {
    Forbidden,
    Unauthorized,
    TooManyRequests,
    BadGateway,
    InternalError,
}

/// The next outside operation the pipeline asks for.
#[derive(Clone, Debug)]
pub enum Action {
    /// Stop with this status.
    Reject(Status),
    /// Hand the request to the proxy leg, with the subject to inject as the
    /// identity header (none on public routes).
    Forward(Option<String>),
    /// Validate this bearer token.
    ValidateToken(String),
    /// Read the rate counter stored under this key.
    ReadCounter(String),
    /// Increment the counter under this key and set it to expire after this
    /// many seconds, as one atomic operation.
    IncrementCounter(String, u64),
    /// Look up a cached decision for (subject, feature).
    LookupDecision(String, String),
    /// Ask the policy engine whether this tuple holds.
    CheckPolicy(TupleKey),
    /// Cache this decision for (subject, feature).
    StoreDecision(String, String, bool),
}

/// Where a request stands in the pipeline.
#[derive(Clone, Copy, Debug, PartialEq, Eq)]
pub enum Stage {
    AwaitClaims,
    AwaitCount,
    AwaitIncrement,
    AwaitCachedDecision,
    AwaitCheck,
    AwaitStore(bool),
    Finished,
}

/// The relation checked for a route: its action, or `viewer` when it names none.
pub open spec fn relation_of(action: Option<Seq<char>>) -> Seq<char> {
    match action {
        Some(a) => a,
        None => "viewer"@,
    }
}

/// The counter-store key of a subject.
pub open spec fn rate_key(subject: Seq<char>) -> Seq<char> {
    "rate_limit:"@ + subject
}

/// Whether a subject whose counter reads `count` may make one more request.
pub open spec fn admits(count: i64) -> bool {
    count < RATE_LIMIT
}

/// The tuple asked of the policy engine for `subject` reaching `feature`
/// under `relation`.
pub open spec fn check_tuple(subject: Seq<char>, relation: Seq<char>, feature: Seq<char>) -> (
    Seq<char>,
    Seq<char>,
    Seq<char>,
) {
    (user_ref(subject), relation, feature_object(feature))
}

/// The state of one request in the pipeline.
#[derive(Clone, Debug)]
pub struct Pipeline {
    pub stage: Stage,
    pub feature: String,
    pub relation: String,
    pub subject: String,
}

/// Returns the relation checked for a route's action.
pub fn relation_for(action: &Option<String>) -> (r: String)
    ensures
        r@ == relation_of(opt_view(*action)),
{
    match action {
        Some(a) => a.clone(),
        None => String::from_str("viewer"),
    }
}

/// Returns the counter-store key of a subject: `rate_limit:<subject>`.
pub fn rate_key_of(subject: &str) -> (r: String)
    ensures
        r@ == rate_key(subject@),
{
    concat_str("rate_limit:", subject)
}

/// What the policy engine answered to a check.
#[derive(Clone, Copy, Debug, PartialEq, Eq)]
pub enum CheckReply {
    /// The engine could not be reached, or timed out.
    Unreachable,
    /// The engine answered with a non-success status.
    Failed,
    /// The engine answered with success; the `allowed` field where it was a
    /// boolean.
    Answered(Option<bool>),
}

/// Whether a policy-engine reply grants access: only an explicit `allowed:
/// true` does; every failure denies.
pub fn reply_allows(reply: CheckReply) -> (r: bool)
    ensures
        r == (reply == CheckReply::Answered(Some(true))),
{
    match reply {
        CheckReply::Answered(Some(allowed)) => allowed,
        _ => false,
    }
}

impl Pipeline {
    /// Whether the pipeline waits for an outside result.
    pub open spec fn running(&self) -> bool {
        self.stage != Stage::Finished
    }

    /// Starts a request: `route` is what the route table matched for its
    /// path, `authorization` its Authorization header.
    pub fn begin(route: Option<&RouteConfig>, authorization: Option<&str>) -> (r: (Pipeline, Action))
        ensures
            route is None ==> r.1 == Action::Reject(Status::Forbidden) && r.0.stage == Stage::Finished,
            route is Some && route.unwrap().feature@ == public_feature() ==> r.1 == Action::Forward(None)
                && r.0.stage == Stage::Finished,
            route is Some && route.unwrap().feature@ != public_feature() ==> {
                if authorization matches Some(h) && exists|t: Seq<char>| h@ == "Bearer "@ + t {
                    &&& (r.1 matches Action::ValidateToken(t) && authorization.unwrap()@ == "Bearer "@ + t@)
                    &&& r.0.stage == Stage::AwaitClaims
                    &&& r.0.feature@ == route.unwrap().feature@
                    &&& r.0.relation@ == relation_of(opt_view(route.unwrap().action))
                } else {
                    r.1 == Action::Reject(Status::Unauthorized) && r.0.stage == Stage::Finished
                }
            },
    {
        let mut p = Pipeline {
            stage: Stage::Finished,
            feature: String::new(),
            relation: String::new(),
            subject: String::new(),
        };
        match route {
            None => (p, Action::Reject(Status::Forbidden)),
            Some(c) => {
                if is_public_feature(&c.feature) {
                    (p, Action::Forward(None))
                } else {
                    match bearer_token(authorization) {
                        None => (p, Action::Reject(Status::Unauthorized)),
                        Some(token) => {
                            p.stage = Stage::AwaitClaims;
                            p.feature = c.feature.clone();
                            p.relation = relation_for(&c.action);
                            (p, Action::ValidateToken(token))
                        },
                    }
                }
            },
        }
    }

    /// Takes the credential validator's result.
    pub fn on_claims(&mut self, claims: Result<Claims, AuthError>) -> (r: Action)
        requires
            old(self).stage == Stage::AwaitClaims,
        ensures
            final(self).feature == old(self).feature,
            final(self).relation == old(self).relation,
            claims is Err ==> r == Action::Reject(Status::Unauthorized) && final(self).stage == Stage::Finished,
            claims matches Ok(c) ==> final(self).stage == Stage::AwaitCount && final(self).subject@ == c.sub@
                && (r matches Action::ReadCounter(k) && k@ == rate_key(c.sub@)),
    {
        match claims {
            Err(_) => {
                self.stage = Stage::Finished;
                Action::Reject(Status::Unauthorized)
            },
            Ok(c) => {
                let key = rate_key_of(c.sub.as_str());
                self.subject = c.sub;
                self.stage = Stage::AwaitCount;
                Action::ReadCounter(key)
            },
        }
    }

    /// Takes the subject's current counter, or `None` when the counter store
    /// could not be reached (which refuses the request).
    pub fn on_count(&mut self, count: Option<i64>) -> (r: Action)
        requires
            old(self).stage == Stage::AwaitCount,
        ensures
            final(self).feature == old(self).feature,
            final(self).relation == old(self).relation,
            final(self).subject == old(self).subject,
            (count matches Some(n) && admits(n)) ==> final(self).stage == Stage::AwaitIncrement
                && (r matches Action::IncrementCounter(k, w) && k@ == rate_key(old(self).subject@)
                && w == RATE_WINDOW_SECS),
            !(count matches Some(n) && admits(n)) ==> r == Action::Reject(Status::TooManyRequests)
                && final(self).stage == Stage::Finished,
    {
        match count {
            Some(n) => {
                if n < RATE_LIMIT {
                    self.stage = Stage::AwaitIncrement;
                    Action::IncrementCounter(rate_key_of(self.subject.as_str()), RATE_WINDOW_SECS)
                } else {
                    self.stage = Stage::Finished;
                    Action::Reject(Status::TooManyRequests)
                }
            },
            None => {
                self.stage = Stage::Finished;
                Action::Reject(Status::TooManyRequests)
            },
        }
    }

    /// Takes whether the atomic increment went through.
    pub fn on_increment(&mut self, done: bool) -> (r: Action)
        requires
            old(self).stage == Stage::AwaitIncrement,
        ensures
            final(self).feature == old(self).feature,
            final(self).relation == old(self).relation,
            final(self).subject == old(self).subject,
            done ==> final(self).stage == Stage::AwaitCachedDecision && (r matches Action::LookupDecision(s, f)
                && s@ == old(self).subject@ && f@ == old(self).feature@),
            !done ==> r == Action::Reject(Status::TooManyRequests) && final(self).stage == Stage::Finished,
    {
        if done {
            self.stage = Stage::AwaitCachedDecision;
            Action::LookupDecision(self.subject.clone(), self.feature.clone())
        } else {
            self.stage = Stage::Finished;
            Action::Reject(Status::TooManyRequests)
        }
    }

    /// Takes the cached decision for (subject, feature), if one is cached. A
    /// cached decision is used as it stands: no policy check is made.
    pub fn on_cached(&mut self, cached: Option<bool>) -> (r: Action)
        requires
            old(self).stage == Stage::AwaitCachedDecision,
        ensures
            final(self).feature == old(self).feature,
            final(self).relation == old(self).relation,
            final(self).subject == old(self).subject,
            cached == Some(true) ==> final(self).stage == Stage::Finished && (r matches Action::Forward(Some(s))
                && s@ == old(self).subject@),
            cached == Some(false) ==> final(self).stage == Stage::Finished && r == Action::Reject(
                Status::Forbidden,
            ),
            cached is None ==> final(self).stage == Stage::AwaitCheck && (r matches Action::CheckPolicy(t) && t@
                == check_tuple(old(self).subject@, old(self).relation@, old(self).feature@)),
    {
        match cached {
            Some(true) => {
                self.stage = Stage::Finished;
                Action::Forward(Some(self.subject.clone()))
            },
            Some(false) => {
                self.stage = Stage::Finished;
                Action::Reject(Status::Forbidden)
            },
            None => {
                self.stage = Stage::AwaitCheck;
                Action::CheckPolicy(
                    TupleKey {
                        user: user_ref_of(self.subject.as_str()),
                        relation: self.relation.clone(),
                        object: feature_object_of(self.feature.as_str()),
                    },
                )
            },
        }
    }

    /// Takes the policy engine's reply; the decision it gives is cached
    /// under (subject, feature) before the request goes on.
    pub fn on_check(&mut self, reply: CheckReply) -> (r: Action)
        requires
            old(self).stage == Stage::AwaitCheck,
        ensures
            final(self).feature == old(self).feature,
            final(self).relation == old(self).relation,
            final(self).subject == old(self).subject,
            final(self).stage == Stage::AwaitStore(reply == CheckReply::Answered(Some(true))),
            (r matches Action::StoreDecision(s, f, a) && s@ == old(self).subject@ && f@ == old(self).feature@
                && a == (reply == CheckReply::Answered(Some(true)))),
    {
        let allowed = reply_allows(reply);
        self.stage = Stage::AwaitStore(allowed);
        Action::StoreDecision(self.subject.clone(), self.feature.clone(), allowed)
    }

    /// Goes on once the decision is cached: forward when allowed, else refuse.
    pub fn on_stored(&mut self) -> (r: Action)
        requires
            old(self).stage is AwaitStore,
        ensures
            final(self).stage == Stage::Finished,
            old(self).stage == Stage::AwaitStore(true) ==> (r matches Action::Forward(Some(s)) && s@ == old(
                self,
            ).subject@),
            old(self).stage == Stage::AwaitStore(false) ==> r == Action::Reject(Status::Forbidden),
    {
        let allowed = match self.stage {
            Stage::AwaitStore(a) => a,
            _ => false,
        };
        self.stage = Stage::Finished;
        if allowed {
            Action::Forward(Some(self.subject.clone()))
        } else {
            Action::Reject(Status::Forbidden)
        }
    }
}

/// A subject's counter in the shared store: the count, and the time (in
/// seconds) at which the store drops it.
pub type Counter = (int, int);

/// What reading the counter at time `t` gives: nothing once it has expired.
pub open spec fn counter_read(c: Counter, t: int) -> int {
    if t < c.1 {
        c.0
    } else {
        0
    }
}

/// The counter after a request at time `t`: an admitted request increments
/// it and sets it to expire one window later; a refused one leaves it.
pub open spec fn after_request(c: Counter, t: int) -> Counter {
    let n = counter_read(c, t);
    if n < RATE_LIMIT {
        (n + 1, t + RATE_WINDOW_SECS)
    } else {
        c
    }
}

/// The counter after requests at `times`, starting from no counter.
pub open spec fn counter_after(times: Seq<int>) -> Counter
    decreases times.len(),
{
    if times.len() == 0 {
        (0, 0)
    } else {
        after_request(counter_after(times.drop_last()), times.last())
    }
}

/// Whether request number `k` of `times` is admitted.
pub open spec fn admitted(times: Seq<int>, k: int) -> bool {
    let n = counter_read(counter_after(times.take(k)), times[k]);
    n <= i64::MAX && admits(n as i64)
}

proof fn lemma_counter_in_window(times: Seq<int>, k: int)
    requires
        times.len() > 0,
        1 <= k <= times.len(),
        forall|j: int| 0 <= j < times.len() ==> times[0] <= #[trigger] times[j] < times[0] + RATE_WINDOW_SECS,
    ensures
        counter_after(times.take(k)).0 == if k < RATE_LIMIT { k } else { RATE_LIMIT as int },
        counter_after(times.take(k)).1 >= times[0] + RATE_WINDOW_SECS,
    decreases k,
{
    assert(times.take(k).drop_last() =~= times.take(k - 1));
    assert(times.take(k).last() == times[k - 1]);
    let before = counter_after(times.take(k - 1));
    assert(counter_after(times.take(k)) == after_request(before, times[k - 1]));
    assert(times[0] <= times[k - 1] < times[0] + RATE_WINDOW_SECS);
    if k > 1 {
        lemma_counter_in_window(times, k - 1);
        assert(counter_read(before, times[k - 1]) == before.0);
    } else {
        assert(times.take(0) =~= Seq::<int>::empty());
        assert(before == (0int, 0int));
        assert(counter_read(before, times[k - 1]) == 0);
    }
}

/// Fixed-window admission: of requests that a subject makes within one
/// window of its first one, the first hundred are admitted and every later
/// one is refused.
pub proof fn window_admits_first_hundred(times: Seq<int>)
    requires
        times.len() > 0,
        forall|j: int| 0 <= j < times.len() ==> times[0] <= #[trigger] times[j] < times[0] + RATE_WINDOW_SECS,
    ensures
        forall|k: int| 0 <= k < times.len() ==> (#[trigger] admitted(times, k) <==> k < RATE_LIMIT),
{
    assert forall|k: int| 0 <= k < times.len() implies (#[trigger] admitted(times, k) <==> k < RATE_LIMIT) by {
        if k == 0 {
            assert(times.take(0) =~= Seq::<int>::empty());
        } else {
            lemma_counter_in_window(times, k);
            assert(times[0] <= times[k] < times[0] + RATE_WINDOW_SECS);
        }
    }
}

/// Once the window of a counter has passed, the next request is admitted.
pub proof fn expired_window_admits(c: Counter, t: int)
    requires
        t >= c.1,
    ensures
        counter_read(c, t) == 0,
        admits(0),
        after_request(c, t) == (1int, t + RATE_WINDOW_SECS),
{
}

/// The permission cache: for each (subject, feature), the decision and the
/// time it was stored.
pub type DecisionCache = Map<(Seq<char>, Seq<char>), (bool, int)>;

/// What the cache hands back for `key` at time `t`: nothing once the entry
/// is older than the time to live.
pub open spec fn cached_at(c: DecisionCache, key: (Seq<char>, Seq<char>), t: int) -> Option<bool> {
    if c.contains_key(key) && t < c[key].1 + DECISION_TTL_SECS {
        Some(c[key].0)
    } else {
        None
    }
}

/// Whether authorizing `key` at time `t` asks the policy engine: only when
/// the cache hands back nothing.
pub open spec fn checks_policy(c: DecisionCache, key: (Seq<char>, Seq<char>), t: int) -> bool {
    cached_at(c, key, t) is None
}

/// The cache after authorizing `key` at time `t`, where a fresh check would
/// answer `allowed`: a miss stores the fresh decision.
pub open spec fn after_authorize(c: DecisionCache, key: (Seq<char>, Seq<char>), t: int, allowed: bool) -> DecisionCache {
    if checks_policy(c, key, t) {
        c.insert(key, (allowed, t))
    } else {
        c
    }
}

/// Permission decisions are cached: of two authorizations of the same
/// (subject, feature) less than the time to live apart, at most one asks the
/// policy engine, and both reach the same decision; once the time to live has
/// passed since the decision was stored, a fresh check is made.
pub proof fn decisions_cached_for_ttl(
    c: DecisionCache,
    key: (Seq<char>, Seq<char>),
    t1: int,
    t2: int,
    allowed: bool,
)
    requires
        t1 <= t2,
    ensures
        t2 < t1 + DECISION_TTL_SECS ==> !(checks_policy(c, key, t1) && checks_policy(
            after_authorize(c, key, t1, allowed),
            key,
            t2,
        )),
        t2 < t1 + DECISION_TTL_SECS && checks_policy(c, key, t1) ==> cached_at(
            after_authorize(c, key, t1, allowed),
            key,
            t2,
        ) == Some(allowed),
        checks_policy(c, key, t1) && t2 >= t1 + DECISION_TTL_SECS ==> checks_policy(
            after_authorize(c, key, t1, allowed),
            key,
            t2,
        ),
{
}

} // verus!
