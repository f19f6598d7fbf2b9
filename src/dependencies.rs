use vstd::prelude::*;

use crate::parser::{defs_view, id_of, Definition, PackageDef};

verus! {

/// Why a dependency could not be resolved.
pub type DependencyError = String;

/// `q` names `d`, by its bare name or by its `name@version`.
pub open spec fn matches_query(d: Definition, q: Seq<char>) -> bool {
    q == d.name || q == id_of(d.name, d.version)
}

/// The definitions of `defs` that `q` names, in order.
pub open spec fn matching(defs: Seq<Definition>, q: Seq<char>) -> Seq<Definition>
    decreases defs.len(),
{
    if defs.len() == 0 {
        seq![]
    } else {
        let rest = matching(defs.drop_last(), q);
        if matches_query(defs.last(), q) {
            rest.push(defs.last())
        } else {
            rest
        }
    }
}

pub open spec fn not_found_message(q: Seq<char>) -> Seq<char> {
    "Package dependency "@ + q + " cannot be found"@
}

pub open spec fn ambiguous_message(q: Seq<char>) -> Seq<char> {
    "Package dependency "@ + q + " cannot be uniquely resolved"@
}

/// The one definition that `q` names, or why there is not exactly one.
pub open spec fn resolution(defs: Seq<Definition>, q: Seq<char>) -> Result<Definition, Seq<char>> {
    let m = matching(defs, q);
    if m.len() == 0 {
        Err(not_found_message(q))
    } else if m.len() > 1 {
        Err(ambiguous_message(q))
    } else {
        Ok(m[0])
    }
}

/// The dependency queries of `ds`, each with the id of the definition that makes it, in order.
pub open spec fn queries(ds: Seq<Definition>) -> Seq<(Seq<char>, Seq<char>)>
    decreases ds.len(),
{
    if ds.len() == 0 {
        seq![]
    } else {
        let d = ds.last();
        queries(ds.drop_last()) + d.depends.map_values(|q: Seq<char>| (id_of(d.name, d.version), q))
    }
}

/// Resolves each query of `qs` against `defs`, in order, stopping at the first failure.
pub open spec fn resolve_all(defs: Seq<Definition>, qs: Seq<(Seq<char>, Seq<char>)>) -> Result<
    Seq<(Seq<char>, Definition)>,
    Seq<char>,
>
    decreases qs.len(),
{
    if qs.len() == 0 {
        Ok(seq![])
    } else {
        match resolve_all(defs, qs.drop_last()) {
            Err(e) => Err(e),
            Ok(prev) => match resolution(defs, qs.last().1) {
                Err(e) => Err(e),
                Ok(d) => Ok(prev.push((qs.last().0, d))),
            },
        }
    }
}

pub open spec fn edges_view(v: Seq<(String, PackageDef)>) -> Seq<(Seq<char>, Definition)> {
    v.map_values(|e: (String, PackageDef)| (e.0@, e.1@))
}

/// Resolves the dependency queries of every definition, in order: one pair of the
/// dependent's id and the definition it needs per query. Each query must name exactly
/// one definition; cycles among the dependencies are not looked for.
pub fn resolve(packages_defs: &Vec<PackageDef>) -> (r: Result<Vec<(String, PackageDef)>, DependencyError>)
    ensures
        match r {
            Ok(v) => resolve_all(defs_view(packages_defs@), queries(defs_view(packages_defs@)))
                == Ok::<_, Seq<char>>(edges_view(v@)),
            Err(e) => resolve_all(defs_view(packages_defs@), queries(defs_view(packages_defs@)))
                == Err::<Seq<(Seq<char>, Definition)>, _>(e@),
        },
{
    let ghost all = defs_view(packages_defs@);
    let mut dependencies: Vec<(String, PackageDef)> = Vec::new();
    let mut i: usize = 0;
    proof {
        assert(all.subrange(0, 0) =~= seq![]);
        assert(edges_view(dependencies@) =~= seq![]);
    }
    while i < packages_defs.len()
        invariant
            all == defs_view(packages_defs@),
            i <= packages_defs.len(),
            resolve_all(all, queries(all.subrange(0, i as int))) == Ok::<_, Seq<char>>(
                edges_view(dependencies@),
            ),
        decreases packages_defs.len() - i,
    {
        let package_def = &packages_defs[i];
        let ghost d = all[i as int];
        let ghost before = queries(all.subrange(0, i as int));
        let ghost mapped = d.depends.map_values(|q: Seq<char>| (id_of(d.name, d.version), q));
        proof {
            assert(all.subrange(0, i + 1).drop_last() =~= all.subrange(0, i as int));
            assert(all.subrange(0, i + 1).last() == d);
        }
        let mut j: usize = 0;
        while j < package_def.depends.len()
            invariant
                all == defs_view(packages_defs@),
                i < packages_defs.len(),
                package_def == &packages_defs@[i as int],
                d == all[i as int],
                before == queries(all.subrange(0, i as int)),
                mapped == d.depends.map_values(|q: Seq<char>| (id_of(d.name, d.version), q)),
                j <= package_def.depends.len(),
                resolve_all(all, before + mapped.subrange(0, j as int)) == Ok::<_, Seq<char>>(
                    edges_view(dependencies@),
                ),
            decreases package_def.depends.len() - j,
        {
            let ghost qs = before + mapped.subrange(0, j as int);
            proof {
                assert((before + mapped.subrange(0, j + 1)).drop_last() =~= qs);
                assert(d.depends[j as int] == package_def.depends@[j as int]@);
            }
            let p = match find_package(packages_defs, package_def.depends[j].as_str()) {
                Ok(p) => p,
                Err(e) => {
                    proof {
                        let qs1 = before + mapped.subrange(0, j + 1);
                        assert(qs1.last() == (id_of(d.name, d.version), d.depends[j as int]));
                        assert(resolve_all(all, qs1) == Err::<Seq<(Seq<char>, Definition)>, _>(e@));
                        assert(all.subrange(0, i + 1).drop_last() =~= all.subrange(0, i as int));
                        assert(all.subrange(0, i + 1).last() == d);
                        assert(queries(all.subrange(0, i + 1)) =~= before + mapped);
                        lemma_queries_prefix(all, i + 1);
                        assert(queries(all).subrange(0, qs1.len() as int) =~= qs1);
                        lemma_resolve_all_stops(all, queries(all), qs1.len() as int);
                    }
                    return Err(e);
                },
            };
            let ghost prev = edges_view(dependencies@);
            dependencies.push((package_def.id(), p));
            proof {
                assert(edges_view(dependencies@) =~= prev.push(
                    (id_of(d.name, d.version), p@),
                ));
            }
            j = j + 1;
        }
        proof {
            assert(mapped.subrange(0, j as int) =~= mapped);
        }
        i = i + 1;
    }
    proof {
        assert(all.subrange(0, i as int) =~= all);
    }
    Ok(dependencies)
}

/// The one definition that `query` names, by bare name or by `name@version`.
pub fn find_package(package_defs: &Vec<PackageDef>, query: &str) -> (r: Result<PackageDef, DependencyError>)
    ensures
        match r {
            Ok(p) => resolution(defs_view(package_defs@), query@) == Ok::<_, Seq<char>>(p@),
            Err(e) => resolution(defs_view(package_defs@), query@) == Err::<Definition, _>(e@),
        },
{
    let ghost all = defs_view(package_defs@);
    let q = String::from_str(query);
    let mut count: usize = 0;
    let mut first: usize = 0;
    let mut i: usize = 0;
    while i < package_defs.len()
        invariant
            all == defs_view(package_defs@),
            q@ == query@,
            i <= package_defs.len(),
            count == matching(all.subrange(0, i as int), q@).len(),
            count <= i,
            count >= 1 ==> first < i && matching(all.subrange(0, i as int), q@)[0] == all[first as int],
        decreases package_defs.len() - i,
    {
        let p = &package_defs[i];
        proof {
            assert(all.subrange(0, i + 1).drop_last() =~= all.subrange(0, i as int));
            assert(all.subrange(0, i + 1).last() == p@);
        }
        let id = p.id();
        if q == p.name || q == id {
            if count == 0 {
                first = i;
            }
            count = count + 1;
        }
        i = i + 1;
    }
    proof {
        assert(all.subrange(0, i as int) =~= all);
    }
    if count == 0 {
        Err(String::from_str("Package dependency ").concat(query).concat(" cannot be found"))
    } else if count > 1 {
        Err(String::from_str("Package dependency ").concat(query).concat(" cannot be uniquely resolved"))
    } else {
        Ok(package_defs[first].duplicate())
    }
}

proof fn lemma_queries_prefix(ds: Seq<Definition>, n: int)
    requires
        0 <= n <= ds.len(),
    ensures
        queries(ds.subrange(0, n)).len() <= queries(ds).len(),
        queries(ds).subrange(0, queries(ds.subrange(0, n)).len() as int) == queries(
            ds.subrange(0, n),
        ),
    decreases ds.len(),
{
    if n < ds.len() {
        lemma_queries_prefix(ds.drop_last(), n);
        assert(ds.drop_last().subrange(0, n) =~= ds.subrange(0, n));
        let p = queries(ds.subrange(0, n));
        assert(queries(ds).subrange(0, p.len() as int) =~= queries(ds.drop_last()).subrange(
            0,
            p.len() as int,
        ));
    } else {
        assert(ds.subrange(0, n) =~= ds);
        assert(queries(ds).subrange(0, queries(ds).len() as int) =~= queries(ds));
    }
}

proof fn lemma_resolve_all_stops(defs: Seq<Definition>, qs: Seq<(Seq<char>, Seq<char>)>, n: int)
    requires
        0 <= n <= qs.len(),
        resolve_all(defs, qs.subrange(0, n)) is Err,
    ensures
        resolve_all(defs, qs) == resolve_all(defs, qs.subrange(0, n)),
    decreases qs.len(),
{
    if n < qs.len() {
        assert(qs.drop_last().subrange(0, n) =~= qs.subrange(0, n));
        lemma_resolve_all_stops(defs, qs.drop_last(), n);
    } else {
        assert(qs.subrange(0, n) =~= qs);
    }
}

proof fn lemma_matching_nonempty(defs: Seq<Definition>, q: Seq<char>, k: int)
    requires
        0 <= k < defs.len(),
        matches_query(defs[k], q),
    ensures
        matching(defs, q).len() >= 1,
    decreases defs.len(),
{
    if k < defs.len() - 1 {
        lemma_matching_nonempty(defs.drop_last(), q, k);
    }
}

proof fn lemma_matching_unique(defs: Seq<Definition>, q: Seq<char>, k: int)
    requires
        0 <= k < defs.len(),
        matches_query(defs[k], q),
        forall|j: int| 0 <= j < defs.len() && j != k ==> !matches_query(#[trigger] defs[j], q),
    ensures
        matching(defs, q) == seq![defs[k]],
    decreases defs.len(),
{
    if k < defs.len() - 1 {
        lemma_matching_unique(defs.drop_last(), q, k);
    } else {
        lemma_matching_empty(defs.drop_last(), q);
        assert(matching(defs, q) =~= seq![defs[k]]);
    }
}

proof fn lemma_matching_empty(defs: Seq<Definition>, q: Seq<char>)
    requires
        forall|j: int| 0 <= j < defs.len() ==> !matches_query(#[trigger] defs[j], q),
    ensures
        matching(defs, q).len() == 0,
    decreases defs.len(),
{
    if defs.len() > 0 {
        lemma_matching_empty(defs.drop_last(), q);
    }
}

proof fn lemma_matching_two(defs: Seq<Definition>, q: Seq<char>, a: int, b: int)
    requires
        0 <= a < b < defs.len(),
        matches_query(defs[a], q),
        matches_query(defs[b], q),
    ensures
        matching(defs, q).len() >= 2,
    decreases defs.len(),
{
    if b < defs.len() - 1 {
        lemma_matching_two(defs.drop_last(), q, a, b);
    } else {
        lemma_matching_nonempty(defs.drop_last(), q, a);
    }
}

/// A bare name that two definitions of different versions carry cannot be resolved
/// uniquely.
pub proof fn lemma_two_versions_ambiguous(defs: Seq<Definition>, name: Seq<char>, a: int, b: int)
    requires
        0 <= a < defs.len(),
        0 <= b < defs.len(),
        defs[a].name == name,
        defs[b].name == name,
        defs[a].version != defs[b].version,
    ensures
        resolution(defs, name) == Err::<Definition, _>(ambiguous_message(name)),
{
    if a < b {
        lemma_matching_two(defs, name, a, b);
    } else {
        lemma_matching_two(defs, name, b, a);
    }
}

/// A query that names no definition cannot be found.
pub proof fn lemma_no_match_not_found(defs: Seq<Definition>, q: Seq<char>)
    requires
        forall|j: int| 0 <= j < defs.len() ==> !matches_query(#[trigger] defs[j], q),
    ensures
        resolution(defs, q) == Err::<Definition, _>(not_found_message(q)),
{
    lemma_matching_empty(defs, q);
}

/// A query that names exactly one definition, by bare name or by `name@version`,
/// resolves to it.
pub proof fn lemma_single_match_resolves(defs: Seq<Definition>, q: Seq<char>, k: int)
    requires
        0 <= k < defs.len(),
        matches_query(defs[k], q),
        forall|j: int| 0 <= j < defs.len() && j != k ==> !matches_query(#[trigger] defs[j], q),
    ensures
        resolution(defs, q) == Ok::<_, Seq<char>>(defs[k]),
{
    lemma_matching_unique(defs, q, k);
}

} // verus!
