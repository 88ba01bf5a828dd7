//! Feature migration: diffing two configuration generations and planning the
//! policy-store mutations that keep stored tuples in step with them.
use vstd::prelude::*;
use crate::config::{
    AccessRule, TupleKey, contains_str, distinct_strs, feature_object, feature_object_of,
    holds_str, is_public_feature, public_feature, string_views, tuple_views,
};

verus! {

/// Whether `f` is a protected feature that some rule of `rules` declares.
pub open spec fn declares_feature(rules: Seq<AccessRule>, f: Seq<char>) -> bool {
    f != public_feature() && exists|i: int| 0 <= i < rules.len() && #[trigger] rules[i].feature@ == f
}

/// Rule `i` of `prev` and rule `j` of `latest` share path and method but name
/// different protected features `o` and `n`.
pub open spec fn rename_at(
    prev: Seq<AccessRule>,
    latest: Seq<AccessRule>,
    i: int,
    j: int,
    o: Seq<char>,
    n: Seq<char>,
) -> bool {
    &&& 0 <= i < prev.len()
    &&& 0 <= j < latest.len()
    &&& prev[i].feature@ != public_feature()
    &&& latest[j].feature@ != public_feature()
    &&& prev[i].path@ == latest[j].path@
    &&& prev[i].method@ == latest[j].method@
    &&& prev[i].feature@ != latest[j].feature@
    &&& o == prev[i].feature@
    &&& n == latest[j].feature@
}

/// Whether the diff of `prev` and `latest` reports a rename from `o` to `n`.
pub open spec fn is_rename(prev: Seq<AccessRule>, latest: Seq<AccessRule>, o: Seq<char>, n: Seq<char>) -> bool {
    exists|i: int, j: int| #[trigger] rename_at(prev, latest, i, j, o, n)
}

/// Whether `v` holds the pair `(o, n)`.
pub open spec fn holds_pair(v: Seq<(String, String)>, o: Seq<char>, n: Seq<char>) -> bool {
    exists|k: int| 0 <= k < v.len() && #[trigger] v[k].0@ == o && v[k].1@ == n
}

/// No pair occurs twice in `v`.
pub open spec fn distinct_pairs(v: Seq<(String, String)>) -> bool {
    forall|j: int, k: int|
        0 <= j < v.len() && 0 <= k < v.len() && j != k ==> v[j].0@ != v[k].0@ || v[j].1@ != v[k].1@
}

/// Collects the distinct protected features that `rules` declare, in order of
/// first appearance.
pub fn extract_features(rules: &Vec<AccessRule>) -> (r: Vec<String>)
    ensures
        distinct_strs(r@),
        forall|f: Seq<char>| holds_str(r@, f) <==> declares_feature(rules@, f),
{
    let mut r: Vec<String> = Vec::new();
    let mut i: usize = 0;
    while i < rules.len()
        invariant
            i <= rules.len(),
            distinct_strs(r@),
            forall|f: Seq<char>|
                holds_str(r@, f) <==> (f != public_feature() && exists|k: int|
                    0 <= k < i && #[trigger] rules@[k].feature@ == f),
        decreases rules.len() - i,
    {
        let f = &rules[i].feature;
        let ghost old_r = r@;
        if !is_public_feature(f) && !contains_str(&r, f) {
            r.push(f.clone());
        }
        proof {
            assert forall|g: Seq<char>|
                holds_str(r@, g) <==> (g != public_feature() && exists|k: int|
                    0 <= k < i + 1 && #[trigger] rules@[k].feature@ == g) by {
                if holds_str(r@, g) {
                    let j = choose|j: int| 0 <= j < r@.len() && #[trigger] r@[j]@ == g;
                    if j < old_r.len() {
                        assert(old_r[j]@ == g);
                        assert(holds_str(old_r, g));
                    } else {
                        assert(rules@[i as int].feature@ == g);
                    }
                }
                if g != public_feature() && exists|k: int| 0 <= k < i + 1 && #[trigger] rules@[k].feature@ == g {
                    let k = choose|k: int| 0 <= k < i + 1 && #[trigger] rules@[k].feature@ == g;
                    if k < i {
                        assert(holds_str(old_r, g));
                        let j = choose|j: int| 0 <= j < old_r.len() && #[trigger] old_r[j]@ == g;
                        assert(r@[j]@ == g);
                    } else if r@.len() > old_r.len() {
                        assert(r@[r@.len() - 1]@ == g);
                    } else {
                        let j = choose|j: int| 0 <= j < old_r.len() && #[trigger] old_r[j]@ == g;
                        assert(r@[j]@ == g);
                    }
                }
            }
        }
        i = i + 1;
    }
    r
}

/// The features of `prev` missing from `latest`, in the order of `prev`,
/// each once.
pub fn difference(prev: &Vec<String>, latest: &Vec<String>) -> (r: Vec<String>)
    ensures
        distinct_strs(r@),
        forall|f: Seq<char>| holds_str(r@, f) <==> (holds_str(prev@, f) && !holds_str(latest@, f)),
{
    let mut r: Vec<String> = Vec::new();
    let mut i: usize = 0;
    while i < prev.len()
        invariant
            i <= prev.len(),
            distinct_strs(r@),
            forall|f: Seq<char>|
                holds_str(r@, f) <==> (!holds_str(latest@, f) && exists|k: int|
                    0 <= k < i && #[trigger] prev@[k]@ == f),
        decreases prev.len() - i,
    {
        let f = &prev[i];
        let ghost old_r = r@;
        if !contains_str(latest, f) && !contains_str(&r, f) {
            r.push(f.clone());
        }
        proof {
            assert forall|g: Seq<char>|
                holds_str(r@, g) <==> (!holds_str(latest@, g) && exists|k: int|
                    0 <= k < i + 1 && #[trigger] prev@[k]@ == g) by {
                if holds_str(r@, g) {
                    let j = choose|j: int| 0 <= j < r@.len() && #[trigger] r@[j]@ == g;
                    if j < old_r.len() {
                        assert(old_r[j]@ == g);
                        assert(holds_str(old_r, g));
                    } else {
                        assert(prev@[i as int]@ == g);
                    }
                }
                if !holds_str(latest@, g) && exists|k: int| 0 <= k < i + 1 && #[trigger] prev@[k]@ == g {
                    let k = choose|k: int| 0 <= k < i + 1 && #[trigger] prev@[k]@ == g;
                    if k < i {
                        assert(holds_str(old_r, g));
                        let j = choose|j: int| 0 <= j < old_r.len() && #[trigger] old_r[j]@ == g;
                        assert(r@[j]@ == g);
                    } else if r@.len() > old_r.len() {
                        assert(r@[r@.len() - 1]@ == g);
                    } else {
                        let j = choose|j: int| 0 <= j < old_r.len() && #[trigger] old_r[j]@ == g;
                        assert(r@[j]@ == g);
                    }
                }
            }
        }
        i = i + 1;
    }
    r
}

/// Features present in the previous generation but absent from the current one.
pub fn detect_deletions(prev_features: &Vec<String>, latest_features: &Vec<String>) -> (r: Vec<String>)
    ensures
        distinct_strs(r@),
        forall|f: Seq<char>|
            holds_str(r@, f) <==> (holds_str(prev_features@, f) && !holds_str(latest_features@, f)),
{
    difference(prev_features, latest_features)
}

/// Features present in the current generation but absent from the previous one.
pub fn detect_additions(prev_features: &Vec<String>, latest_features: &Vec<String>) -> (r: Vec<String>)
    ensures
        distinct_strs(r@),
        forall|f: Seq<char>|
            holds_str(r@, f) <==> (holds_str(latest_features@, f) && !holds_str(prev_features@, f)),
{
    difference(latest_features, prev_features)
}

/// A rename from `o` to `n` is witnessed by a pair of rules that comes, in
/// row-major order, before rule `bi` of `prev` and rule `bj` of `latest`.
pub open spec fn rename_before(
    prev: Seq<AccessRule>,
    latest: Seq<AccessRule>,
    bi: int,
    bj: int,
    o: Seq<char>,
    n: Seq<char>,
) -> bool {
    exists|i: int, j: int| #[trigger] rename_at(prev, latest, i, j, o, n) && (i < bi || (i == bi && j < bj))
}

/// Whether `v` holds the pair `(o, n)`.
pub fn contains_pair(v: &Vec<(String, String)>, o: &String, n: &String) -> (r: bool)
    ensures
        r == holds_pair(v@, o@, n@),
{
    let mut k: usize = 0;
    while k < v.len()
        invariant
            k <= v.len(),
            forall|m: int| 0 <= m < k ==> !(v@[m].0@ == o@ && v@[m].1@ == n@),
        decreases v.len() - k,
    {
        if v[k].0 == *o && v[k].1 == *n {
            return true;
        }
        k = k + 1;
    }
    false
}

/// Rename candidates between two generations: every pair of rules, one from
/// each, that share path and method but declare different protected features.
/// Each candidate `(old, new)` is reported once.
pub fn detect_renames(prev: &Vec<AccessRule>, latest: &Vec<AccessRule>) -> (r: Vec<(String, String)>)
    ensures
        distinct_pairs(r@),
        forall|o: Seq<char>, n: Seq<char>| holds_pair(r@, o, n) <==> is_rename(prev@, latest@, o, n),
{
    let mut r: Vec<(String, String)> = Vec::new();
    let mut i: usize = 0;
    while i < prev.len()
        invariant
            i <= prev.len(),
            distinct_pairs(r@),
            forall|o: Seq<char>, n: Seq<char>|
                holds_pair(r@, o, n) <==> rename_before(prev@, latest@, i as int, 0, o, n),
        decreases prev.len() - i,
    {
        let p = &prev[i];
        let mut j: usize = 0;
        while j < latest.len()
            invariant
                i < prev.len(),
                j <= latest.len(),
                p == prev@[i as int],
                distinct_pairs(r@),
                forall|o: Seq<char>, n: Seq<char>|
                    holds_pair(r@, o, n) <==> rename_before(prev@, latest@, i as int, j as int, o, n),
            decreases latest.len() - j,
        {
            let l = &latest[j];
            let ghost old_r = r@;
            let candidate = !is_public_feature(&p.feature) && !is_public_feature(&l.feature)
                && p.path == l.path && p.method == l.method && p.feature != l.feature;
            if candidate && !contains_pair(&r, &p.feature, &l.feature) {
                r.push((p.feature.clone(), l.feature.clone()));
            }
            proof {
                assert(candidate <==> rename_at(prev@, latest@, i as int, j as int, p.feature@, l.feature@));
                assert forall|o: Seq<char>, n: Seq<char>|
                    holds_pair(r@, o, n) <==> rename_before(prev@, latest@, i as int, j + 1, o, n) by {
                    if holds_pair(r@, o, n) {
                        let k = choose|k: int| 0 <= k < r@.len() && #[trigger] r@[k].0@ == o && r@[k].1@ == n;
                        if k < old_r.len() {
                            assert(old_r[k].0@ == o && old_r[k].1@ == n);
                            assert(holds_pair(old_r, o, n));
                        } else {
                            assert(rename_at(prev@, latest@, i as int, j as int, o, n));
                        }
                    }
                    if rename_before(prev@, latest@, i as int, j + 1, o, n) {
                        let (a, b) = choose|a: int, b: int| #[trigger] rename_at(prev@, latest@, a, b, o, n)
                            && (a < i || (a == i && b < j + 1));
                        if a < i || b < j {
                            assert(holds_pair(old_r, o, n));
                            let k = choose|k: int| 0 <= k < old_r.len() && #[trigger] old_r[k].0@ == o && old_r[k].1@ == n;
                            assert(r@[k].0@ == o && r@[k].1@ == n);
                        } else if r@.len() > old_r.len() {
                            assert(r@[r@.len() - 1].0@ == o && r@[r@.len() - 1].1@ == n);
                        } else {
                            let k = choose|k: int| 0 <= k < old_r.len() && #[trigger] old_r[k].0@ == o && old_r[k].1@ == n;
                            assert(r@[k].0@ == o && r@[k].1@ == n);
                        }
                    }
                }
            }
            j = j + 1;
        }
        proof {
            assert forall|o: Seq<char>, n: Seq<char>|
                rename_before(prev@, latest@, i as int, latest@.len() as int, o, n)
                    <==> rename_before(prev@, latest@, i + 1, 0, o, n) by {
                if rename_before(prev@, latest@, i + 1, 0, o, n) {
                    let (a, b) = choose|a: int, b: int| #[trigger] rename_at(prev@, latest@, a, b, o, n)
                        && (a < i + 1 || (a == i + 1 && b < 0));
                    assert(rename_at(prev@, latest@, a, b, o, n) && (a < i || (a == i && b < latest@.len())));
                }
            }
        }
        i = i + 1;
    }
    proof {
        assert forall|o: Seq<char>, n: Seq<char>|
            rename_before(prev@, latest@, prev@.len() as int, 0, o, n) <==> is_rename(prev@, latest@, o, n) by {
            if is_rename(prev@, latest@, o, n) {
                let (a, b) = choose|a: int, b: int| #[trigger] rename_at(prev@, latest@, a, b, o, n);
                assert(rename_at(prev@, latest@, a, b, o, n) && (a < prev@.len() || (a == prev@.len() && b < 0)));
            }
        }
    }
    r
}

/// The view of a policy tuple: user, relation, object.
pub type TupleView = (Seq<char>, Seq<char>, Seq<char>);

/// The tuples of `tuples` whose object is `from`, in order, each with its
/// object replaced by `to`.
pub open spec fn moved(tuples: Seq<TupleView>, from: Seq<char>, to: Seq<char>) -> Seq<TupleView>
    decreases tuples.len(),
{
    if tuples.len() == 0 {
        Seq::empty()
    } else {
        let rest = moved(tuples.drop_last(), from, to);
        let t = tuples.last();
        if t.2 == from {
            rest.push((t.0, t.1, to))
        } else {
            rest
        }
    }
}

/// For each move `(from, to)` of `moves` in turn, the tuples moved by it.
pub open spec fn staged(moves: Seq<(Seq<char>, Seq<char>)>, tuples: Seq<TupleView>) -> Seq<TupleView>
    decreases moves.len(),
{
    if moves.len() == 0 {
        Seq::empty()
    } else {
        staged(moves.drop_last(), tuples) + moved(tuples, moves.last().0, moves.last().1)
    }
}

/// Views of a sequence of string pairs.
pub open spec fn pair_views(v: Seq<(String, String)>) -> Seq<(Seq<char>, Seq<char>)> {
    v.map_values(|p: (String, String)| (p.0@, p.1@))
}

/// For each rename `old -> new`, the move that drops the old feature's tuples.
pub open spec fn rename_delete_moves(renames: Seq<(Seq<char>, Seq<char>)>) -> Seq<(Seq<char>, Seq<char>)> {
    renames.map_values(|p: (Seq<char>, Seq<char>)| (feature_object(p.0), feature_object(p.0)))
}

/// For each rename `old -> new`, the move that carries the old feature's tuples
/// over to the new feature.
pub open spec fn rename_write_moves(renames: Seq<(Seq<char>, Seq<char>)>) -> Seq<(Seq<char>, Seq<char>)> {
    renames.map_values(|p: (Seq<char>, Seq<char>)| (feature_object(p.0), feature_object(p.1)))
}

/// For each deleted feature, the move that drops its tuples.
pub open spec fn cleanup_moves(features: Seq<Seq<char>>) -> Seq<(Seq<char>, Seq<char>)> {
    features.map_values(|f: Seq<char>| (feature_object(f), feature_object(f)))
}

/// Appends to `out` the tuples of `tuples` whose object is `from`, each with
/// its object replaced by `to`.
pub fn stage_moved(tuples: &Vec<TupleKey>, from: &String, to: &String, out: &mut Vec<TupleKey>)
    ensures
        tuple_views(final(out)@) == tuple_views(old(out)@) + moved(tuple_views(tuples@), from@, to@),
{
    let ghost start = tuple_views(out@);
    let mut k: usize = 0;
    while k < tuples.len()
        invariant
            k <= tuples.len(),
            tuple_views(out@) == start + moved(tuple_views(tuples@).take(k as int), from@, to@),
        decreases tuples.len() - k,
    {
        let ghost before = tuple_views(out@);
        let t = &tuples[k];
        if t.object == *from {
            let m = t.with_object(to);
            out.push(m);
        }
        proof {
            let tv = tuple_views(tuples@);
            assert(tv.take(k + 1).drop_last() =~= tv.take(k as int));
            assert(tv.take(k + 1).last() == t@);
            assert(tuple_views(out@) =~= (if t@.2 == from@ { before.push((t@.0, t@.1, to@)) } else { before }));
            assert(tuple_views(out@) =~= start + moved(tv.take(k + 1), from@, to@));
        }
        k = k + 1;
    }
    proof {
        assert(tuple_views(tuples@).take(tuples@.len() as int) =~= tuple_views(tuples@));
    }
}

/// The policy mutations of one batched write call.
#[derive(Clone, Debug)]
pub struct WriteBatch {
    pub deletes: Vec<TupleKey>,
    pub writes: Vec<TupleKey>,
}

impl WriteBatch {
    /// Whether the batch would change nothing.
    pub fn is_empty(&self) -> (r: bool)
        ensures
            r == (self.deletes@.len() == 0 && self.writes@.len() == 0),
    {
        self.deletes.len() == 0 && self.writes.len() == 0
    }
}

/// The single batch that carries out every rename: for each rename
/// `old -> new` and each fetched tuple on `feature:old`, a delete of that tuple
/// and a write of the same user and relation on `feature:new`.
pub fn rename_batch(renames: &Vec<(String, String)>, tuples: &Vec<TupleKey>) -> (r: WriteBatch)
    ensures
        tuple_views(r.deletes@) == staged(rename_delete_moves(pair_views(renames@)), tuple_views(tuples@)),
        tuple_views(r.writes@) == staged(rename_write_moves(pair_views(renames@)), tuple_views(tuples@)),
{
    let mut deletes: Vec<TupleKey> = Vec::new();
    let mut writes: Vec<TupleKey> = Vec::new();
    let ghost tv = tuple_views(tuples@);
    let mut k: usize = 0;
    while k < renames.len()
        invariant
            k <= renames.len(),
            tv == tuple_views(tuples@),
            tuple_views(deletes@) == staged(rename_delete_moves(pair_views(renames@).take(k as int)), tv),
            tuple_views(writes@) == staged(rename_write_moves(pair_views(renames@).take(k as int)), tv),
        decreases renames.len() - k,
    {
        let old_object = feature_object_of(renames[k].0.as_str());
        let new_object = feature_object_of(renames[k].1.as_str());
        stage_moved(tuples, &old_object, &old_object, &mut deletes);
        stage_moved(tuples, &old_object, &new_object, &mut writes);
        proof {
            let pv = pair_views(renames@);
            assert(rename_delete_moves(pv.take(k + 1)).drop_last() =~= rename_delete_moves(pv.take(k as int)));
            assert(rename_write_moves(pv.take(k + 1)).drop_last() =~= rename_write_moves(pv.take(k as int)));
        }
        k = k + 1;
    }
    proof {
        assert(pair_views(renames@).take(renames@.len() as int) =~= pair_views(renames@));
    }
    WriteBatch { deletes, writes }
}

/// The single batch that removes the tuples of every deleted feature: a
/// delete for each fetched tuple whose object is `feature:<deleted>`, and no
/// writes.
pub fn cleanup_batch(deleted: &Vec<String>, tuples: &Vec<TupleKey>) -> (r: WriteBatch)
    ensures
        tuple_views(r.deletes@) == staged(cleanup_moves(string_views(deleted@)), tuple_views(tuples@)),
        r.writes@.len() == 0,
{
    let mut deletes: Vec<TupleKey> = Vec::new();
    let ghost tv = tuple_views(tuples@);
    let mut k: usize = 0;
    while k < deleted.len()
        invariant
            k <= deleted.len(),
            tv == tuple_views(tuples@),
            tuple_views(deletes@) == staged(cleanup_moves(string_views(deleted@).take(k as int)), tv),
        decreases deleted.len() - k,
    {
        let object = feature_object_of(deleted[k].as_str());
        stage_moved(tuples, &object, &object, &mut deletes);
        proof {
            let fv = string_views(deleted@);
            assert(cleanup_moves(fv.take(k + 1)).drop_last() =~= cleanup_moves(fv.take(k as int)));
        }
        k = k + 1;
    }
    proof {
        assert(string_views(deleted@).take(deleted@.len() as int) =~= string_views(deleted@));
    }
    WriteBatch { deletes, writes: Vec::new() }
}

/// What a migration run has to do, computed from the two generations.
#[derive(Clone, Debug)]
pub struct MigrationPlan {
    pub renamed: Vec<(String, String)>,
    pub deleted: Vec<String>,
    pub added: Vec<String>,
    pub features_to_fetch: Vec<String>,
}

impl MigrationPlan {
    /// Whether the two generations declare the same features under the same
    /// endpoints, so that there is nothing to migrate.
    pub fn is_noop(&self) -> (r: bool)
        ensures
            r == (self.renamed@.len() == 0 && self.deleted@.len() == 0 && self.added@.len() == 0),
    {
        self.renamed.len() == 0 && self.deleted.len() == 0 && self.added.len() == 0
    }
}

/// Whether some rename of `renamed` has old name `f`.
pub open spec fn renames_from(renamed: Seq<(String, String)>, f: Seq<char>) -> bool {
    exists|k: int| 0 <= k < renamed.len() && #[trigger] renamed[k].0@ == f
}

/// `r` followed by each string of `v` that it does not hold yet.
fn with_new(r: Vec<String>, v: &Vec<String>) -> (out: Vec<String>)
    requires
        distinct_strs(r@),
    ensures
        distinct_strs(out@),
        forall|f: Seq<char>| holds_str(out@, f) <==> (holds_str(r@, f) || holds_str(v@, f)),
{
    let ghost start = r@;
    let mut r = r;
    let mut k: usize = 0;
    while k < v.len()
        invariant
            k <= v.len(),
            distinct_strs(r@),
            forall|f: Seq<char>|
                #[trigger] holds_str(r@, f) <==> (holds_str(start, f) || exists|m: int| 0 <= m < k && #[trigger] v@[m]@
                    == f),
        decreases v.len() - k,
    {
        let ghost before = r@;
        if !contains_str(&r, &v[k]) {
            r.push(v[k].clone());
        }
        proof {
            assert forall|g: Seq<char>|
                #[trigger] holds_str(r@, g) <==> (holds_str(start, g) || exists|m: int| 0 <= m < k + 1 && #[trigger] v@[m]@ == g) by {
                if holds_str(r@, g) {
                    let j = choose|j: int| 0 <= j < r@.len() && #[trigger] r@[j]@ == g;
                    if j < before.len() {
                        assert(before[j]@ == g);
                        assert(holds_str(before, g));
                    } else {
                        assert(v@[k as int]@ == g);
                    }
                }
                if holds_str(start, g) || exists|m: int| 0 <= m < k + 1 && #[trigger] v@[m]@ == g {
                    if holds_str(start, g) || exists|m: int| 0 <= m < k && #[trigger] v@[m]@ == g {
                        assert(holds_str(before, g));
                        let j = choose|j: int| 0 <= j < before.len() && #[trigger] before[j]@ == g;
                        assert(r@[j]@ == g);
                    } else {
                        assert(v@[k as int]@ == g);
                        if r@.len() > before.len() {
                            assert(r@[r@.len() - 1]@ == g);
                        } else {
                            let j = choose|j: int| 0 <= j < before.len() && #[trigger] before[j]@ == g;
                            assert(r@[j]@ == g);
                        }
                    }
                }
            }
        }
        k = k + 1;
    }
    r
}

/// The features whose tuples a migration must read: the union of the old
/// names of the renames and the deleted features, each once.
pub fn features_to_fetch(renamed: &Vec<(String, String)>, deleted: &Vec<String>) -> (r: Vec<String>)
    ensures
        distinct_strs(r@),
        forall|f: Seq<char>| holds_str(r@, f) <==> (renames_from(renamed@, f) || holds_str(deleted@, f)),
{
    let mut olds: Vec<String> = Vec::new();
    let mut k: usize = 0;
    while k < renamed.len()
        invariant
            k <= renamed.len(),
            olds@.len() == k,
            forall|f: Seq<char>| holds_str(olds@, f) <==> exists|m: int| 0 <= m < k && #[trigger] renamed@[m].0@ == f,
        decreases renamed.len() - k,
    {
        let ghost before = olds@;
        assert(forall|f: Seq<char>|
            #[trigger] holds_str(before, f) <==> exists|m: int| 0 <= m < k && #[trigger] renamed@[m].0@ == f);
        olds.push(renamed[k].0.clone());
        proof {
            assert(olds@ == before.push(renamed@[k as int].0));
            assert forall|g: Seq<char>|
                holds_str(olds@, g) <==> exists|m: int| 0 <= m < k + 1 && #[trigger] renamed@[m].0@ == g by {
                if holds_str(olds@, g) {
                    let j = choose|j: int| 0 <= j < olds@.len() && #[trigger] olds@[j]@ == g;
                    if j < before.len() {
                        assert(before[j]@ == g);
                        assert(holds_str(before, g));
                    } else {
                        assert(renamed@[k as int].0@ == g);
                    }
                }
                if exists|m: int| 0 <= m < k + 1 && #[trigger] renamed@[m].0@ == g {
                    let m = choose|m: int| 0 <= m < k + 1 && #[trigger] renamed@[m].0@ == g;
                    if m < k {
                        assert(holds_str(before, g));
                        let j = choose|j: int| 0 <= j < before.len() && #[trigger] before[j]@ == g;
                        assert(olds@[j]@ == g);
                    } else {
                        assert(olds@[k as int]@ == g);
                    }
                }
            }
        }
        k = k + 1;
    }
    let r = with_new(Vec::new(), &olds);
    with_new(r, deleted)
}

/// Diffs the previous generation `prev` against the current one `latest`.
pub fn plan_migration(prev: &Vec<AccessRule>, latest: &Vec<AccessRule>) -> (r: MigrationPlan)
    ensures
        distinct_pairs(r.renamed@),
        forall|o: Seq<char>, n: Seq<char>| holds_pair(r.renamed@, o, n) <==> is_rename(prev@, latest@, o, n),
        distinct_strs(r.deleted@),
        forall|f: Seq<char>|
            holds_str(r.deleted@, f) <==> (declares_feature(prev@, f) && !declares_feature(latest@, f)),
        distinct_strs(r.added@),
        forall|f: Seq<char>|
            holds_str(r.added@, f) <==> (declares_feature(latest@, f) && !declares_feature(prev@, f)),
        distinct_strs(r.features_to_fetch@),
        forall|f: Seq<char>|
            holds_str(r.features_to_fetch@, f) <==> (renames_from(r.renamed@, f) || holds_str(r.deleted@, f)),
        prev@ == latest@ && unambiguous(prev@) ==> r.renamed@.len() == 0 && r.deleted@.len() == 0
            && r.added@.len() == 0 && r.features_to_fetch@.len() == 0,
{
    let latest_features = extract_features(latest);
    let prev_features = extract_features(prev);
    let renamed = detect_renames(prev, latest);
    let deleted = detect_deletions(&prev_features, &latest_features);
    let added = detect_additions(&prev_features, &latest_features);
    let fetch = features_to_fetch(&renamed, &deleted);
    proof {
        if prev@ == latest@ && unambiguous(prev@) {
            unchanged_generation_needs_no_mutation(prev@, renamed@, deleted@, Seq::empty());
            if added@.len() > 0 {
                assert(holds_str(added@, added@[0]@));
            }
            if fetch@.len() > 0 {
                assert(holds_str(fetch@, fetch@[0]@));
                if renames_from(renamed@, fetch@[0]@) {
                    let k = choose|k: int| 0 <= k < renamed@.len() && #[trigger] renamed@[k].0@ == fetch@[0]@;
                }
                if holds_str(deleted@, fetch@[0]@) {
                    let j = choose|j: int| 0 <= j < deleted@.len() && #[trigger] deleted@[j]@ == fetch@[0]@;
                }
            }
        }
    }
    MigrationPlan { renamed, deleted, added, features_to_fetch: fetch }
}

/// Move number `k` of `moves` takes tuple number `t` of `tuples` to `x`.
pub open spec fn moves_tuple(
    moves: Seq<(Seq<char>, Seq<char>)>,
    tuples: Seq<TupleView>,
    k: int,
    t: int,
    x: TupleView,
) -> bool {
    &&& 0 <= k < moves.len()
    &&& 0 <= t < tuples.len()
    &&& tuples[t].2 == moves[k].0
    &&& x == (tuples[t].0, tuples[t].1, moves[k].1)
}

proof fn lemma_moved_contains(tuples: Seq<TupleView>, from: Seq<char>, to: Seq<char>)
    ensures
        forall|x: TupleView| moved(tuples, from, to).contains(x) <==> exists|t: int|
            0 <= t < tuples.len() && #[trigger] tuples[t] == (x.0, x.1, from) && x.2 == to,
    decreases tuples.len(),
{
    if tuples.len() > 0 {
        let init = tuples.drop_last();
        let last = tuples.last();
        lemma_moved_contains(init, from, to);
        let m = moved(tuples, from, to);
        let r = moved(init, from, to);
        assert(m == (if last.2 == from { r.push((last.0, last.1, to)) } else { r }));
        assert forall|x: TupleView| m.contains(x) <==> exists|t: int|
            0 <= t < tuples.len() && #[trigger] tuples[t] == (x.0, x.1, from) && x.2 == to by {
            if m.contains(x) {
                let i = choose|i: int| 0 <= i < m.len() && m[i] == x;
                if i < r.len() {
                    assert(r[i] == x);
                    assert(r.contains(x));
                    let t = choose|t: int| 0 <= t < init.len() && #[trigger] init[t] == (x.0, x.1, from) && x.2 == to;
                    assert(tuples[t] == init[t]);
                } else {
                    assert(tuples[tuples.len() - 1] == (x.0, x.1, from));
                }
            }
            if exists|t: int| 0 <= t < tuples.len() && #[trigger] tuples[t] == (x.0, x.1, from) && x.2 == to {
                let t = choose|t: int| 0 <= t < tuples.len() && #[trigger] tuples[t] == (x.0, x.1, from) && x.2 == to;
                if t < init.len() {
                    assert(init[t] == tuples[t]);
                    assert(r.contains(x));
                    let i = choose|i: int| 0 <= i < r.len() && r[i] == x;
                    assert(m[i] == x);
                } else {
                    assert(m[r.len() as int] == x);
                }
            }
        }
    }
}

proof fn lemma_staged_contains(moves: Seq<(Seq<char>, Seq<char>)>, tuples: Seq<TupleView>)
    ensures
        forall|x: TupleView| staged(moves, tuples).contains(x) <==> exists|k: int, t: int|
            #[trigger] moves_tuple(moves, tuples, k, t, x),
    decreases moves.len(),
{
    if moves.len() > 0 {
        let init = moves.drop_last();
        let last = moves.last();
        lemma_staged_contains(init, tuples);
        lemma_moved_contains(tuples, last.0, last.1);
        let a = staged(init, tuples);
        let b = moved(tuples, last.0, last.1);
        assert(staged(moves, tuples) == a + b);
        assert forall|x: TupleView| (a + b).contains(x) <==> exists|k: int, t: int|
            #[trigger] moves_tuple(moves, tuples, k, t, x) by {
            if (a + b).contains(x) {
                let i = choose|i: int| 0 <= i < (a + b).len() && (a + b)[i] == x;
                if i < a.len() {
                    assert(a[i] == x);
                    assert(a.contains(x));
                    let (k, t) = choose|k: int, t: int| #[trigger] moves_tuple(init, tuples, k, t, x);
                    assert(moves_tuple(moves, tuples, k, t, x));
                } else {
                    assert(b[i - a.len()] == x);
                    assert(b.contains(x));
                    let t = choose|t: int| 0 <= t < tuples.len() && #[trigger] tuples[t] == (x.0, x.1, last.0) && x.2 == last.1;
                    assert(moves_tuple(moves, tuples, moves.len() - 1, t, x));
                }
            }
            if exists|k: int, t: int| #[trigger] moves_tuple(moves, tuples, k, t, x) {
                let (k, t) = choose|k: int, t: int| #[trigger] moves_tuple(moves, tuples, k, t, x);
                if k < init.len() {
                    assert(moves_tuple(init, tuples, k, t, x));
                    assert(a.contains(x));
                    let i = choose|i: int| 0 <= i < a.len() && a[i] == x;
                    assert((a + b)[i] == x);
                } else {
                    assert(tuples[t] == (x.0, x.1, last.0));
                    assert(b.contains(x));
                    let i = choose|i: int| 0 <= i < b.len() && b[i] == x;
                    assert((a + b)[a.len() + i] == x);
                }
            }
        }
    }
}

proof fn lemma_prefix_cancel(p: Seq<char>, a: Seq<char>, b: Seq<char>)
    requires
        p + a == p + b,
    ensures
        a == b,
{
    assert(a =~= (p + a).subrange(p.len() as int, (p + a).len() as int));
    assert(b =~= (p + b).subrange(p.len() as int, (p + b).len() as int));
}

/// A rename batch carries tuples over exactly: for every rename `old -> new`
/// and every fetched tuple on `feature:old`, the batch deletes that tuple and
/// writes the same user and relation on `feature:new`; it deletes nothing
/// else, and every tuple it writes is such a carried-over tuple.
pub proof fn rename_carries_tuples(renames: Seq<(String, String)>, tuples: Seq<TupleKey>)
    ensures
        forall|k: int, t: int|
            0 <= k < renames.len() && 0 <= t < tuples.len() && #[trigger] tuples[t]@.2 == feature_object(
                #[trigger] renames[k].0@,
            ) ==> {
                &&& staged(rename_delete_moves(pair_views(renames)), tuple_views(tuples)).contains(tuples[t]@)
                &&& staged(rename_write_moves(pair_views(renames)), tuple_views(tuples)).contains(
                    (tuples[t]@.0, tuples[t]@.1, feature_object(renames[k].1@)),
                )
            },
        forall|x: TupleView|
            #[trigger] staged(rename_delete_moves(pair_views(renames)), tuple_views(tuples)).contains(x)
                ==> exists|k: int, t: int|
                0 <= k < renames.len() && 0 <= t < tuples.len() && #[trigger] tuples[t]@ == x
                    && x.2 == feature_object(#[trigger] renames[k].0@),
        forall|x: TupleView|
            #[trigger] staged(rename_write_moves(pair_views(renames)), tuple_views(tuples)).contains(x)
                ==> exists|k: int, t: int|
                0 <= k < renames.len() && 0 <= t < tuples.len() && #[trigger] tuples[t]@.2
                    == feature_object(#[trigger] renames[k].0@) && x == (
                    tuples[t]@.0,
                    tuples[t]@.1,
                    feature_object(renames[k].1@),
                ),
{
    let dm = rename_delete_moves(pair_views(renames));
    let wm = rename_write_moves(pair_views(renames));
    let tv = tuple_views(tuples);
    lemma_staged_contains(dm, tv);
    lemma_staged_contains(wm, tv);
    assert forall|k: int, t: int|
        0 <= k < renames.len() && 0 <= t < tuples.len() && #[trigger] tuples[t]@.2 == feature_object(
            #[trigger] renames[k].0@,
        ) implies {
            &&& staged(dm, tv).contains(tuples[t]@)
            &&& staged(wm, tv).contains((tuples[t]@.0, tuples[t]@.1, feature_object(renames[k].1@)))
        } by {
        assert(moves_tuple(dm, tv, k, t, tuples[t]@));
        assert(moves_tuple(wm, tv, k, t, (tuples[t]@.0, tuples[t]@.1, feature_object(renames[k].1@))));
    }
    assert forall|x: TupleView| #[trigger] staged(dm, tv).contains(x) implies exists|k: int, t: int|
        0 <= k < renames.len() && 0 <= t < tuples.len() && #[trigger] tuples[t]@ == x
            && x.2 == feature_object(#[trigger] renames[k].0@) by {
        let (k, t) = choose|k: int, t: int| #[trigger] moves_tuple(dm, tv, k, t, x);
        assert(tuples[t]@ == tv[t]);
    }
    assert forall|x: TupleView| #[trigger] staged(wm, tv).contains(x) implies exists|k: int, t: int|
        0 <= k < renames.len() && 0 <= t < tuples.len() && #[trigger] tuples[t]@.2
            == feature_object(#[trigger] renames[k].0@) && x == (
            tuples[t]@.0,
            tuples[t]@.1,
            feature_object(renames[k].1@),
        ) by {
        let (k, t) = choose|k: int, t: int| #[trigger] moves_tuple(wm, tv, k, t, x);
        assert(tuples[t]@ == tv[t]);
    }
}

proof fn lemma_moved_pair(tuples: Seq<TupleView>, from: Seq<char>, to1: Seq<char>, to2: Seq<char>)
    ensures
        moved(tuples, from, to1).len() == moved(tuples, from, to2).len(),
        forall|i: int|
            0 <= i < moved(tuples, from, to1).len() ==> {
                &&& (#[trigger] moved(tuples, from, to1)[i]).0 == moved(tuples, from, to2)[i].0
                &&& moved(tuples, from, to1)[i].1 == moved(tuples, from, to2)[i].1
                &&& moved(tuples, from, to1)[i].2 == to1
                &&& moved(tuples, from, to2)[i].2 == to2
            },
    decreases tuples.len(),
{
    if tuples.len() > 0 {
        lemma_moved_pair(tuples.drop_last(), from, to1, to2);
    }
}

proof fn lemma_staged_pair(m1: Seq<(Seq<char>, Seq<char>)>, m2: Seq<(Seq<char>, Seq<char>)>, tuples: Seq<TupleView>)
    requires
        m1.len() == m2.len(),
        forall|k: int| 0 <= k < m1.len() ==> (#[trigger] m1[k]).0 == m2[k].0,
    ensures
        staged(m1, tuples).len() == staged(m2, tuples).len(),
        forall|i: int|
            0 <= i < staged(m1, tuples).len() ==> {
                &&& (#[trigger] staged(m1, tuples)[i]).0 == staged(m2, tuples)[i].0
                &&& staged(m1, tuples)[i].1 == staged(m2, tuples)[i].1
                &&& exists|k: int|
                    0 <= k < m1.len() && staged(m1, tuples)[i].2 == (#[trigger] m1[k]).1 && staged(m2, tuples)[i].2
                        == m2[k].1
            },
    decreases m1.len(),
{
    if m1.len() > 0 {
        let i1 = m1.drop_last();
        let i2 = m2.drop_last();
        assert forall|k: int| 0 <= k < i1.len() implies (#[trigger] i1[k]).0 == i2[k].0 by {
            assert(i1[k] == m1[k] && i2[k] == m2[k]);
        }
        lemma_staged_pair(i1, i2, tuples);
        let last = m1.len() - 1;
        lemma_moved_pair(tuples, m1[last].0, m1[last].1, m2[last].1);
        let a1 = staged(i1, tuples);
        let a2 = staged(i2, tuples);
        let b1 = moved(tuples, m1[last].0, m1[last].1);
        let b2 = moved(tuples, m2[last].0, m2[last].1);
        assert(staged(m1, tuples) == a1 + b1);
        assert(staged(m2, tuples) == a2 + b2);
        assert forall|i: int| 0 <= i < staged(m1, tuples).len() implies {
            &&& (#[trigger] staged(m1, tuples)[i]).0 == staged(m2, tuples)[i].0
            &&& staged(m1, tuples)[i].1 == staged(m2, tuples)[i].1
            &&& exists|k: int|
                0 <= k < m1.len() && staged(m1, tuples)[i].2 == (#[trigger] m1[k]).1 && staged(m2, tuples)[i].2
                    == m2[k].1
        } by {
            if i < a1.len() {
                assert(staged(m1, tuples)[i] == a1[i]);
                assert(staged(m2, tuples)[i] == a2[i]);
                let k = choose|k: int| 0 <= k < i1.len() && a1[i].2 == (#[trigger] i1[k]).1 && a2[i].2 == i2[k].1;
                assert(i1[k] == m1[k] && i2[k] == m2[k]);
            } else {
                let j = i - a1.len();
                assert(staged(m1, tuples)[i] == b1[j]);
                assert(staged(m2, tuples)[i] == b2[j]);
                assert(b1[j].0 == b2[j].0);
                assert(m1[last].1 == m1[last].1);
            }
        }
    }
}

/// The writes of a rename batch pair up with its deletes position by
/// position: the same user and relation, with the object moved from
/// `feature:old` to `feature:new` of one rename.
pub proof fn rename_writes_pair_with_deletes(renames: Seq<(String, String)>, tuples: Seq<TupleKey>)
    ensures
        staged(rename_write_moves(pair_views(renames)), tuple_views(tuples)).len() == staged(
            rename_delete_moves(pair_views(renames)),
            tuple_views(tuples),
        ).len(),
        forall|i: int|
            0 <= i < staged(rename_delete_moves(pair_views(renames)), tuple_views(tuples)).len() ==> {
                let d = #[trigger] staged(rename_delete_moves(pair_views(renames)), tuple_views(tuples))[i];
                let w = staged(rename_write_moves(pair_views(renames)), tuple_views(tuples))[i];
                &&& w.0 == d.0
                &&& w.1 == d.1
                &&& exists|k: int|
                    0 <= k < renames.len() && d.2 == feature_object((#[trigger] renames[k]).0@) && w.2
                        == feature_object(renames[k].1@)
            },
{
    let pv = pair_views(renames);
    let dm = rename_delete_moves(pv);
    let wm = rename_write_moves(pv);
    assert forall|k: int| 0 <= k < dm.len() implies (#[trigger] dm[k]).0 == wm[k].0 by {}
    lemma_staged_pair(dm, wm, tuple_views(tuples));
    let sd = staged(dm, tuple_views(tuples));
    let sw = staged(wm, tuple_views(tuples));
    assert forall|i: int| 0 <= i < sd.len() implies {
        let d = #[trigger] sd[i];
        let w = sw[i];
        &&& w.0 == d.0
        &&& w.1 == d.1
        &&& exists|k: int|
            0 <= k < renames.len() && d.2 == feature_object((#[trigger] renames[k]).0@) && w.2 == feature_object(
                renames[k].1@,
            )
    } by {
        let k = choose|k: int| 0 <= k < dm.len() && sd[i].2 == (#[trigger] dm[k]).1 && sw[i].2 == wm[k].1;
        assert(pv[k] == (renames[k].0@, renames[k].1@));
    }
}

/// A feature that the previous generation declares and the current one does
/// not is only ever deleted: the cleanup batch deletes every fetched tuple on
/// it, and the rename batch built from the diff writes no tuple on it.
pub proof fn deleted_feature_only_deleted(
    prev: Seq<AccessRule>,
    latest: Seq<AccessRule>,
    renames: Seq<(String, String)>,
    deleted: Seq<String>,
    tuples: Seq<TupleKey>,
    f: Seq<char>,
)
    requires
        forall|o: Seq<char>, n: Seq<char>| holds_pair(renames, o, n) <==> is_rename(prev, latest, o, n),
        forall|g: Seq<char>| holds_str(deleted, g) <==> (declares_feature(prev, g) && !declares_feature(latest, g)),
        declares_feature(prev, f),
        !declares_feature(latest, f),
    ensures
        forall|t: int|
            0 <= t < tuples.len() && #[trigger] tuples[t]@.2 == feature_object(f)
                ==> staged(cleanup_moves(string_views(deleted)), tuple_views(tuples)).contains(tuples[t]@),
        forall|x: TupleView|
            #[trigger] staged(rename_write_moves(pair_views(renames)), tuple_views(tuples)).contains(x)
                ==> x.2 != feature_object(f),
{
    let cm = cleanup_moves(string_views(deleted));
    let wm = rename_write_moves(pair_views(renames));
    let tv = tuple_views(tuples);
    lemma_staged_contains(cm, tv);
    lemma_staged_contains(wm, tv);
    assert(holds_str(deleted, f));
    let d = choose|d: int| 0 <= d < deleted.len() && #[trigger] deleted[d]@ == f;
    assert forall|t: int| 0 <= t < tuples.len() && #[trigger] tuples[t]@.2 == feature_object(f) implies staged(
        cm,
        tv,
    ).contains(tuples[t]@) by {
        assert(moves_tuple(cm, tv, d, t, tuples[t]@));
    }
    assert forall|x: TupleView| #[trigger] staged(wm, tv).contains(x) implies x.2 != feature_object(f) by {
        let (k, t) = choose|k: int, t: int| #[trigger] moves_tuple(wm, tv, k, t, x);
        let o = renames[k].0@;
        let n = renames[k].1@;
        assert(holds_pair(renames, o, n));
        let (i, j) = choose|i: int, j: int| #[trigger] rename_at(prev, latest, i, j, o, n);
        assert(declares_feature(latest, n));
        if x.2 == feature_object(f) {
            lemma_prefix_cancel("feature:"@, n, f);
        }
    }
}

/// No two rules of `rules` name different protected features for the same
/// path and method.
pub open spec fn unambiguous(rules: Seq<AccessRule>) -> bool {
    forall|i: int, j: int|
        0 <= i < rules.len() && 0 <= j < rules.len() && rules[i].path@ == rules[j].path@
            && rules[i].method@ == rules[j].method@ && rules[i].feature@ != public_feature()
            && rules[j].feature@ != public_feature() ==> #[trigger] rules[i].feature@ == #[trigger] rules[j].feature@
}

/// Migrating between a generation and an unchanged copy of it finds nothing
/// renamed or deleted, and so stages no tuple mutation: a second run after a
/// completed migration does nothing.
pub proof fn unchanged_generation_needs_no_mutation(
    rules: Seq<AccessRule>,
    renames: Seq<(String, String)>,
    deleted: Seq<String>,
    tuples: Seq<TupleKey>,
)
    requires
        unambiguous(rules),
        forall|o: Seq<char>, n: Seq<char>| holds_pair(renames, o, n) <==> is_rename(rules, rules, o, n),
        forall|g: Seq<char>| holds_str(deleted, g) <==> (declares_feature(rules, g) && !declares_feature(rules, g)),
    ensures
        renames.len() == 0,
        deleted.len() == 0,
        staged(rename_delete_moves(pair_views(renames)), tuple_views(tuples)).len() == 0,
        staged(rename_write_moves(pair_views(renames)), tuple_views(tuples)).len() == 0,
        staged(cleanup_moves(string_views(deleted)), tuple_views(tuples)).len() == 0,
{
    if renames.len() > 0 {
        let o = renames[0].0@;
        let n = renames[0].1@;
        assert(holds_pair(renames, o, n));
        let (i, j) = choose|i: int, j: int| #[trigger] rename_at(rules, rules, i, j, o, n);
        assert(rules[i].feature@ == rules[j].feature@);
    }
    if deleted.len() > 0 {
        assert(holds_str(deleted, deleted[0]@));
    }
    assert(rename_delete_moves(pair_views(renames)).len() == 0);
    assert(rename_write_moves(pair_views(renames)).len() == 0);
    assert(cleanup_moves(string_views(deleted)).len() == 0);
}

} // verus!
