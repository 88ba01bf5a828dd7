//! The route table: maps URL patterns to route metadata, with the matching
//! done by matchit's radix router.
use vstd::prelude::*;
use matchit::{InsertError, Router};
use vstd::utf8::is_ascii_chars;
use crate::config::{AccessRule, RouteConfig, config_of};

verus! {

#[verifier::external_type_specification]
#[verifier::external_body]
#[verifier::reject_recursive_types(T)]
pub struct ExRouter<T>(Router<T>);

#[verifier::external_type_specification]
#[verifier::external_body]
pub struct ExInsertError(InsertError);

/// The routes a router holds: each registered pattern with its value.
pub uninterp spec fn route_entries(r: Router<usize>) -> Map<Seq<char>, usize>;

/// The number of `:` parameter marks in `s`.
pub open spec fn param_marks(s: Seq<char>) -> nat
    decreases s.len(),
{
    if s.len() == 0 {
        0
    } else {
        param_marks(s.drop_last()) + if s.last() == ':' {
            1nat
        } else {
            0nat
        }
    }
}

/// A pattern the router can take: ASCII text that starts with `/` and has
/// fewer than 26 parameters (parameter names are normalized to single
/// letters). Request paths arrive percent-encoded, so a non-ASCII pattern
/// could never match anyway.
pub open spec fn valid_pattern(p: Seq<char>) -> bool {
    p.len() > 0 && p[0] == '/' && is_ascii_chars(p) && param_marks(p) < 26
}

/// A pattern without wildcards: ASCII text that starts with `/` and holds
/// neither `:` nor `*`.
pub open spec fn plain_pattern(p: Seq<char>) -> bool {
    p.len() > 0 && p[0] == '/' && is_ascii_chars(p) && forall|i: int| 0 <= i < p.len() ==> #[trigger] p[i]
        != ':' && p[i] != '*'
}

/// Relies on matchit::Router::new: a new router holds no route.
#[verifier::external_body]
fn new_router() -> (router: Router<usize>)
    ensures
        route_entries(router).dom() == Set::<Seq<char>>::empty(),
{
    Router::new()
}

/// Relies on matchit::Router::insert: it registers `pattern` with `value`,
/// and refuses a pattern that is already registered (an exact match of an
/// existing route is a conflict). A new pattern without wildcards, added to
/// a router that holds only such patterns, only adds, splits or fills static
/// nodes, and is taken. A pattern that does not start with `/` could
/// overwrite the root; one with 26 parameters panics; a conflict message cut
/// inside a multi-byte character panics, which ASCII patterns rule out.
#[verifier::external_body]
fn router_insert(r: &mut Router<usize>, pattern: &str, value: usize) -> (res: Result<(), InsertError>)
    requires
        valid_pattern(pattern@),
    ensures
        res is Ok ==> !route_entries(*old(r)).contains_key(pattern@),
        res is Ok ==> route_entries(*final(r)) == route_entries(*old(r)).insert(pattern@, value),
        plain_pattern(pattern@) && !route_entries(*old(r)).contains_key(pattern@) && (forall|p: Seq<char>|
            #[trigger] route_entries(*old(r)).contains_key(p) ==> plain_pattern(p)) ==> res is Ok,
{
    r.insert(pattern, value)
}

/// Relies on matchit::Router::at: a match hands back the value stored under
/// one of the registered routes; a registered pattern without wildcards
/// matches itself, since static children are walked first.
#[verifier::external_body]
fn router_at(r: &Router<usize>, path: &str) -> (res: Option<usize>)
    ensures
        res matches Some(v) ==> route_entries(*r).values().contains(v),
        plain_pattern(path@) && route_entries(*r).contains_key(path@) ==> res == Some(
            route_entries(*r)[path@],
        ),
{
    r.at(path).ok().map(|m| *m.value)
}

proof fn lemma_plain_is_valid(p: Seq<char>)
    requires
        forall|i: int| 0 <= i < p.len() ==> #[trigger] p[i] != ':',
    ensures
        param_marks(p) == 0,
    decreases p.len(),
{
    if p.len() > 0 {
        let init = p.drop_last();
        assert forall|i: int| 0 <= i < init.len() implies #[trigger] init[i] != ':' by {
            assert(init[i] == p[i]);
        }
        lemma_plain_is_valid(init);
        assert(p.last() == p[p.len() - 1]);
    }
}

/// Whether the router can take `pattern`.
pub fn is_valid_pattern(pattern: &str) -> (r: bool)
    ensures
        r == valid_pattern(pattern@),
{
    let n = pattern.unicode_len();
    if n == 0 {
        return false;
    }
    if pattern.get_char(0) != '/' {
        return false;
    }
    if !pattern.is_ascii() {
        return false;
    }
    let mut count: usize = 0;
    let mut i: usize = 0;
    while i < n
        invariant
            n == pattern@.len(),
            i <= n,
            count <= i,
            count == param_marks(pattern@.take(i as int)),
        decreases n - i,
    {
        assert(pattern@.take(i + 1).drop_last() =~= pattern@.take(i as int));
        assert(pattern@.take(i + 1).last() == pattern@[i as int]);
        if pattern.get_char(i) == ':' {
            count = count + 1;
        }
        i = i + 1;
    }
    assert(pattern@.take(n as int) =~= pattern@);
    count < 26
}

/// Why a route could not be registered.
#[derive(Clone, Copy, Debug, PartialEq, Eq)]
pub enum RouteError {
    DuplicateOrConflictingPattern,
}

/// Path-indexed route metadata, built once from a configuration generation.
pub struct RouteTable {
    router: Router<usize>,
    routes: Vec<RouteConfig>,
}

impl RouteTable {
    /// The registered patterns, each with its route metadata.
    pub closed spec fn entries(&self) -> Map<Seq<char>, RouteConfig> {
        Map::new(
            |p: Seq<char>| route_entries(self.router).contains_key(p),
            |p: Seq<char>| self.routes@[route_entries(self.router)[p] as int],
        )
    }

    /// Every value the router holds indexes a stored route.
    pub closed spec fn wf(&self) -> bool {
        forall|p: Seq<char>| #[trigger] route_entries(self.router).contains_key(p)
            ==> route_entries(self.router)[p] < self.routes@.len()
    }

    /// An empty table.
    pub fn new() -> (r: RouteTable)
        ensures
            r.wf(),
            r.entries() == Map::<Seq<char>, RouteConfig>::empty(),
    {
        let r = RouteTable { router: new_router(), routes: Vec::new() };
        assert(r.entries().dom() =~= Set::<Seq<char>>::empty());
        assert(r.entries() =~= Map::<Seq<char>, RouteConfig>::empty());
        r
    }

    /// Every registered pattern is plain.
    pub open spec fn all_plain(&self) -> bool {
        forall|p: Seq<char>| #[trigger] self.entries().contains_key(p) ==> plain_pattern(p)
    }

    /// Registers `pattern` with `config`. A pattern that is malformed, already
    /// registered, or that the router finds ambiguous, is refused, and the
    /// table is then dropped: a table is never left half built. A new plain
    /// pattern in a table of plain patterns is always taken.
    pub fn insert(self, pattern: &str, config: RouteConfig) -> (r: Result<RouteTable, RouteError>)
        requires
            self.wf(),
        ensures
            self.entries().contains_key(pattern@) ==> r is Err,
            !valid_pattern(pattern@) ==> r is Err,
            plain_pattern(pattern@) && !self.entries().contains_key(pattern@) && self.all_plain() ==> r is Ok,
            r matches Ok(t) ==> t.wf() && t.entries() == self.entries().insert(pattern@, config),
    {
        proof {
            if plain_pattern(pattern@) {
                lemma_plain_is_valid(pattern@);
            }
        }
        if !is_valid_pattern(pattern) {
            return Err(RouteError::DuplicateOrConflictingPattern);
        }
        proof {
            assert forall|p: Seq<char>| #[trigger] route_entries(self.router).contains_key(p)
                implies self.entries().contains_key(p) by {}
        }
        let mut t = self;
        let ghost before = t;
        let index = t.routes.len();
        match router_insert(&mut t.router, pattern, index) {
            Ok(()) => {
                t.routes.push(config);
                proof {
                    assert forall|p: Seq<char>| #[trigger] route_entries(t.router).contains_key(p)
                        implies route_entries(t.router)[p] < t.routes@.len() by {
                        if p != pattern@ {
                            assert(route_entries(before.router).contains_key(p));
                        }
                    }
                    assert forall|p: Seq<char>| #[trigger] route_entries(before.router).contains_key(p)
                        implies t.routes@[route_entries(before.router)[p] as int]
                            == before.routes@[route_entries(before.router)[p] as int] by {}
                    assert(t.entries() =~= before.entries().insert(pattern@, config));
                }
                Ok(t)
            },
            Err(_) => Err(RouteError::DuplicateOrConflictingPattern),
        }
    }

    /// The route metadata of the rule that `path` matches, if any. A
    /// registered plain pattern finds its own rule.
    pub fn lookup(&self, path: &str) -> (r: Option<&RouteConfig>)
        requires
            self.wf(),
        ensures
            r matches Some(c) ==> exists|p: Seq<char>| #[trigger] self.entries().contains_key(p)
                && self.entries()[p] == *c,
            plain_pattern(path@) && self.entries().contains_key(path@) ==> (r matches Some(c) && *c
                == self.entries()[path@]),
    {
        match router_at(&self.router, path) {
            Some(i) => {
                let ghost p = choose|p: Seq<char>| #[trigger] route_entries(self.router).contains_key(p)
                    && route_entries(self.router)[p] == i;
                assert(self.entries().contains_key(p));
                Some(&self.routes[i])
            },
            None => None,
        }
    }
}

/// The table that registering every rule of `rules` in order yields.
pub open spec fn table_of(rules: Seq<AccessRule>) -> Map<Seq<char>, RouteConfig>
    decreases rules.len(),
{
    if rules.len() == 0 {
        Map::empty()
    } else {
        table_of(rules.drop_last()).insert(rules.last().path@, config_of(rules.last()))
    }
}

/// No two rules of `rules` share a pattern.
pub open spec fn distinct_paths(rules: Seq<AccessRule>) -> bool {
    forall|j: int, k: int| 0 <= j < k < rules.len() ==> #[trigger] rules[j].path@ != #[trigger] rules[k].path@
}

/// Builds the route table of a configuration generation. When it succeeds
/// every rule's pattern is registered once with that rule's metadata; a rule
/// whose pattern repeats or conflicts with an earlier one fails the build.
pub fn build_route_table(rules: &Vec<AccessRule>) -> (r: Result<RouteTable, RouteError>)
    ensures
        !distinct_paths(rules@) ==> r is Err,
        r is Ok ==> forall|j: int| 0 <= j < rules@.len() ==> valid_pattern(#[trigger] rules@[j].path@),
        distinct_paths(rules@) && (forall|j: int| 0 <= j < rules@.len() ==> plain_pattern(
            #[trigger] rules@[j].path@,
        )) ==> r is Ok,
        r matches Ok(t) ==> t.wf() && t.entries().dom().len() == rules@.len()
            && t.entries().dom() == table_of(rules@).dom()
            && forall|p: Seq<char>| #[trigger] t.entries().contains_key(p)
                ==> t.entries()[p]@ == table_of(rules@)[p]@,
{
    let mut table = RouteTable::new();
    let mut i: usize = 0;
    proof {
        assert(table.entries().dom() =~= Set::<Seq<char>>::empty());
    }
    while i < rules.len()
        invariant
            i <= rules.len(),
            table.wf(),
            table.entries().dom().finite(),
            table.entries().dom().len() == i,
            table.entries().dom() == table_of(rules@.take(i as int)).dom(),
            distinct_paths(rules@.take(i as int)),
            forall|j: int| 0 <= j < i ==> #[trigger] table.entries().contains_key(rules@[j].path@),
            forall|j: int| 0 <= j < i ==> valid_pattern(#[trigger] rules@[j].path@),
            forall|p: Seq<char>| #[trigger] table.entries().contains_key(p) ==> exists|j: int|
                0 <= j < i && rules@[j].path@ == p,
            forall|p: Seq<char>| #[trigger] table.entries().contains_key(p)
                ==> table.entries()[p]@ == table_of(rules@.take(i as int))[p]@,
        decreases rules.len() - i,
    {
        let rule = &rules[i];
        let config = rule.route_config();
        let ghost before = table.entries();
        match table.insert(rule.path.as_str(), config) {
            Ok(t) => {
                table = t;
            },
            Err(e) => {
                proof {
                    if distinct_paths(rules@) && (forall|j: int| 0 <= j < rules@.len() ==> plain_pattern(
                        #[trigger] rules@[j].path@,
                    )) {
                        assert(plain_pattern(rules@[i as int].path@));
                        assert forall|p: Seq<char>| #[trigger] before.contains_key(p) implies plain_pattern(p) by {
                            let j = choose|j: int| 0 <= j < i && rules@[j].path@ == p;
                            assert(plain_pattern(rules@[j].path@));
                        }
                        if before.contains_key(rule.path@) {
                            let j = choose|j: int| 0 <= j < i && rules@[j].path@ == rule.path@;
                            assert(rules@[j].path@ != rules@[i as int].path@);
                        }
                    }
                }
                return Err(e);
            },
        }
        proof {
            assert(rules@.take(i + 1).drop_last() =~= rules@.take(i as int));
            assert(rules@.take(i + 1).last() == rules@[i as int]);
            assert(table.entries().dom() =~= before.dom().insert(rule.path@));
            assert(table.entries().dom() =~= table_of(rules@.take(i + 1)).dom());
            assert forall|p: Seq<char>| #[trigger] table.entries().contains_key(p) implies exists|j: int|
                0 <= j < i + 1 && rules@[j].path@ == p by {
                if p != rule.path@ {
                    assert(before.contains_key(p));
                    let j = choose|j: int| 0 <= j < i && rules@[j].path@ == p;
                    assert(0 <= j < i + 1 && rules@[j].path@ == p);
                } else {
                    assert(rules@[i as int].path@ == p);
                }
            }
            assert forall|j: int, k: int| 0 <= j < k < i + 1 implies #[trigger] rules@.take(i + 1)[j].path@
                != #[trigger] rules@.take(i + 1)[k].path@ by {
                if k < i {
                    assert(rules@.take(i as int)[j] == rules@[j]);
                    assert(rules@.take(i as int)[k] == rules@[k]);
                } else {
                    assert(before.contains_key(rules@[j].path@));
                }
            }
        }
        i = i + 1;
    }
    proof {
        assert(rules@.take(rules@.len() as int) =~= rules@);
    }
    Ok(table)
}

} // verus!
