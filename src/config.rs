//! Configuration data shared by the gateway's components.
use vstd::prelude::*;

verus! {

/// The feature name that marks a route as open to everyone.
pub open spec fn public_feature() -> Seq<char> {
    "public_access"@
}

/// `prefix` followed by `s`.
pub open spec fn prefixed(prefix: Seq<char>, s: Seq<char>) -> Seq<char> {
    prefix + s
}

/// Returns `prefix + s` as a new string.
pub fn concat_str(prefix: &str, s: &str) -> (r: String)
    ensures
        r@ == prefixed(prefix@, s@),
{
    let mut r = String::from_str(prefix);
    r.append(s);
    r
}

/// Whether `s` is the public-access sentinel feature.
pub fn is_public_feature(s: &String) -> (r: bool)
    ensures
        r == (s@ == public_feature()),
{
    let public = String::from_str("public_access");
    *s == public
}

/// One rule of a route/feature configuration generation: requests to `path`
/// with `method` need `feature`, under the relation `action` (the baseline
/// relation when absent), and go to the upstream tagged `target`.
#[derive(Clone, Debug)]
pub struct AccessRule {
    pub path: String,
    pub method: String,
    pub feature: String,
    pub action: Option<String>,
    pub target: Option<String>,
}

/// What the route table keeps of a rule.
#[derive(Clone, Debug)]
pub struct RouteConfig {
    pub feature: String,
    pub action: Option<String>,
    pub target: Option<String>,
}

/// The route metadata of `rule`.
pub open spec fn config_of(rule: AccessRule) -> RouteConfig {
    RouteConfig { feature: rule.feature, action: rule.action, target: rule.target }
}

impl AccessRule {
    /// The route metadata this rule registers.
    pub fn route_config(&self) -> (r: RouteConfig)
        ensures
            r@ == config_of(*self)@,
    {
        RouteConfig {
            feature: self.feature.clone(),
            action: clone_opt(&self.action),
            target: clone_opt(&self.target),
        }
    }
}

/// Views of an optional string.
pub open spec fn opt_view(o: Option<String>) -> Option<Seq<char>> {
    match o {
        Some(s) => Some(s@),
        None => None,
    }
}

/// A copy of an optional string.
pub fn clone_opt(o: &Option<String>) -> (r: Option<String>)
    ensures
        opt_view(r) == opt_view(*o),
{
    match o {
        Some(s) => Some(s.clone()),
        None => None,
    }
}

impl View for RouteConfig {
    type V = (Seq<char>, Option<Seq<char>>, Option<Seq<char>>);

    open spec fn view(&self) -> (Seq<char>, Option<Seq<char>>, Option<Seq<char>>) {
        (self.feature@, opt_view(self.action), opt_view(self.target))
    }
}

impl RouteConfig {
    /// A copy of this configuration.
    pub fn copy(&self) -> (r: RouteConfig)
        ensures
            r@ == self@,
    {
        RouteConfig {
            feature: self.feature.clone(),
            action: clone_opt(&self.action),
            target: clone_opt(&self.target),
        }
    }
}

/// The policy-engine object that stands for feature `f`.
pub open spec fn feature_object(f: Seq<char>) -> Seq<char> {
    prefixed("feature:"@, f)
}

/// The policy-engine user that stands for subject `id`.
pub open spec fn user_ref(id: Seq<char>) -> Seq<char> {
    prefixed("user:"@, id)
}

/// Returns the policy-engine object name of a feature: `feature:<f>`.
pub fn feature_object_of(f: &str) -> (r: String)
    ensures
        r@ == feature_object(f@),
{
    concat_str("feature:", f)
}

/// Returns the policy-engine user name of a subject: `user:<id>`.
pub fn user_ref_of(id: &str) -> (r: String)
    ensures
        r@ == user_ref(id@),
{
    concat_str("user:", id)
}

/// One relationship fact of the policy engine: `user` holds `relation` on `object`.
#[derive(Clone, Debug)]
pub struct TupleKey {
    pub user: String,
    pub relation: String,
    pub object: String,
}

impl View for TupleKey {
    type V = (Seq<char>, Seq<char>, Seq<char>);

    open spec fn view(&self) -> (Seq<char>, Seq<char>, Seq<char>) {
        (self.user@, self.relation@, self.object@)
    }
}

impl TupleKey {
    /// Returns a copy of the tuple whose object is `object`.
    pub fn with_object(&self, object: &String) -> (r: TupleKey)
        ensures
            r@ == (self@.0, self@.1, object@),
    {
        TupleKey { user: self.user.clone(), relation: self.relation.clone(), object: object.clone() }
    }
}

/// Views of a sequence of tuples.
pub open spec fn tuple_views(v: Seq<TupleKey>) -> Seq<(Seq<char>, Seq<char>, Seq<char>)> {
    v.map_values(|t: TupleKey| t@)
}

/// Views of a sequence of strings.
pub open spec fn string_views(v: Seq<String>) -> Seq<Seq<char>> {
    v.map_values(|s: String| s@)
}

/// Whether some string of `v` reads `s`.
pub open spec fn holds_str(v: Seq<String>, s: Seq<char>) -> bool {
    exists|j: int| 0 <= j < v.len() && #[trigger] v[j]@ == s
}

/// No two strings of `v` read the same.
pub open spec fn distinct_strs(v: Seq<String>) -> bool {
    forall|j: int, k: int| 0 <= j < v.len() && 0 <= k < v.len() && j != k ==> v[j]@ != v[k]@
}

/// Whether some string of `v` reads as `s`.
pub fn contains_str(v: &Vec<String>, s: &String) -> (r: bool)
    ensures
        r == holds_str(v@, s@),
{
    let mut i: usize = 0;
    while i < v.len()
        invariant
            i <= v.len(),
            forall|j: int| 0 <= j < i ==> v@[j]@ != s@,
        decreases v.len() - i,
    {
        if v[i] == *s {
            return true;
        }
        i = i + 1;
    }
    false
}

/// Where the policy engine lives: its base URL and the store the gateway uses.
#[derive(Clone, Debug)]
pub struct OpenFgaClient {
    pub url: String,
    pub store_id: String,
}

/// The URL of a store endpoint: `<url>/stores/<store>/<op>`.
pub open spec fn store_endpoint(url: Seq<char>, store: Seq<char>, op: Seq<char>) -> Seq<char> {
    url + "/stores/"@ + store + "/"@ + op
}

impl OpenFgaClient {
    /// The policy engine at `url`, used through store `store_id`.
    pub fn new(url: String, store_id: String) -> (r: Self)
        ensures
            r.url == url,
            r.store_id == store_id,
    {
        Self { url, store_id }
    }

    /// The URL of the store's `op` endpoint (`check`, `read` or `write`).
    pub fn endpoint(&self, op: &str) -> (r: String)
        ensures
            r@ == store_endpoint(self.url@, self.store_id@, op@),
    {
        let mut r = self.url.clone();
        r.append("/stores/");
        r.append(self.store_id.as_str());
        r.append("/");
        r.append(op);
        r
    }
}

} // verus!
