use vstd::prelude::*;

use crate::dependencies::{edges_view, matches_query, matching};
use crate::parser::{defs_view, id_of, texts, Definition, PackageDef};

verus! {

pub open spec fn undefined_message(q: Seq<char>) -> Seq<char> {
    "Package "@ + q + " is not defined"@
}

/// For each query in turn, every definition it names, in the order of `defs`;
/// a query that names none is an error.
pub open spec fn selected(defs: Seq<Definition>, qs: Seq<Seq<char>>) -> Result<Seq<Definition>, Seq<char>>
    decreases qs.len(),
{
    if qs.len() == 0 {
        Ok(seq![])
    } else {
        match selected(defs, qs.drop_last()) {
            Err(e) => Err(e),
            Ok(prev) => {
                let m = matching(defs, qs.last());
                if m.len() == 0 {
                    Err(undefined_message(qs.last()))
                } else {
                    Ok(prev + m)
                }
            },
        }
    }
}

/// `acc` with `d` appended unless it holds it already.
pub open spec fn add_unique(acc: Seq<Definition>, d: Definition) -> Seq<Definition> {
    if acc.contains(d) {
        acc
    } else {
        acc.push(d)
    }
}

/// `acc` with each definition that the package `id` depends on, per `deps`, added once.
pub open spec fn add_deps(acc: Seq<Definition>, id: Seq<char>, deps: Seq<(Seq<char>, Definition)>) -> Seq<
    Definition,
>
    decreases deps.len(),
{
    if deps.len() == 0 {
        acc
    } else {
        let a = add_deps(acc, id, deps.drop_last());
        if deps.last().0 == id {
            add_unique(a, deps.last().1)
        } else {
            a
        }
    }
}

/// The packages to install for `pkgs`: each one preceded by its direct dependencies,
/// none twice.
pub open spec fn install_order(pkgs: Seq<Definition>, deps: Seq<(Seq<char>, Definition)>) -> Seq<
    Definition,
>
    decreases pkgs.len(),
{
    if pkgs.len() == 0 {
        seq![]
    } else {
        let d = pkgs.last();
        add_unique(add_deps(install_order(pkgs.drop_last(), deps), id_of(d.name, d.version), deps), d)
    }
}

proof fn lemma_selected_stops(defs: Seq<Definition>, qs: Seq<Seq<char>>, n: int)
    requires
        0 <= n <= qs.len(),
        selected(defs, qs.subrange(0, n)) is Err,
    ensures
        selected(defs, qs) == selected(defs, qs.subrange(0, n)),
    decreases qs.len(),
{
    if n < qs.len() {
        assert(qs.drop_last().subrange(0, n) =~= qs.subrange(0, n));
        lemma_selected_stops(defs, qs.drop_last(), n);
    } else {
        assert(qs.subrange(0, n) =~= qs);
    }
}

fn same_texts(a: &Vec<String>, b: &Vec<String>) -> (r: bool)
    ensures
        r == (texts(a@) == texts(b@)),
{
    if a.len() != b.len() {
        proof {
            assert(texts(a@).len() != texts(b@).len());
        }
        return false;
    }
    let mut i: usize = 0;
    while i < a.len()
        invariant
            a.len() == b.len(),
            i <= a.len(),
            forall|j: int| 0 <= j < i ==> a@[j]@ == b@[j]@,
        decreases a.len() - i,
    {
        if a[i] != b[i] {
            proof {
                assert(texts(a@)[i as int] != texts(b@)[i as int]);
            }
            return false;
        }
        i = i + 1;
    }
    proof {
        assert(texts(a@) =~= texts(b@));
    }
    true
}

fn same_opt(a: &Option<String>, b: &Option<String>) -> (r: bool)
    ensures
        r == (crate::parser::text_opt(*a) == crate::parser::text_opt(*b)),
{
    match a {
        Some(x) => match b {
            Some(y) => *x == *y,
            None => false,
        },
        None => b.is_none(),
    }
}

/// Whether two definitions are equal in every field.
pub fn same_definition(a: &PackageDef, b: &PackageDef) -> (r: bool)
    ensures
        r == (a@ == b@),
{
    a.name == b.name && a.version == b.version && same_opt(&a.url, &b.url) && same_opt(&a.build, &b.build)
        && same_texts(&a.depends, &b.depends)
}

/// Whether `defs` holds a definition equal to `d`.
fn contains_definition(defs: &Vec<PackageDef>, d: &PackageDef) -> (r: bool)
    ensures
        r == defs_view(defs@).contains(d@),
{
    let mut i: usize = 0;
    while i < defs.len()
        invariant
            i <= defs.len(),
            forall|j: int| 0 <= j < i ==> defs@[j]@ != d@,
        decreases defs.len() - i,
    {
        if same_definition(&defs[i], d) {
            proof {
                assert(defs_view(defs@)[i as int] == d@);
            }
            return true;
        }
        i = i + 1;
    }
    proof {
        if defs_view(defs@).contains(d@) {
            let j = choose|j: int| 0 <= j < defs_view(defs@).len() && defs_view(defs@)[j] == d@;
            assert(defs_view(defs@)[j] == defs@[j]@);
        }
    }
    false
}

/// Appends `d` to `acc` unless an equal definition is there already.
fn push_unique(acc: &mut Vec<PackageDef>, d: &PackageDef)
    ensures
        defs_view(final(acc)@) == add_unique(defs_view(old(acc)@), d@),
{
    if !contains_definition(acc, d) {
        let ghost prev = defs_view(acc@);
        let copy = d.duplicate();
        acc.push(copy);
        proof {
            assert(defs_view(acc@) =~= prev.push(d@));
        }
    }
}

/// The definitions that the queries name, each query in turn; a query that names no
/// definition is an error.
pub fn find_packages(package_defs: &Vec<PackageDef>, package_queries: &Vec<String>) -> (r: Result<
    Vec<PackageDef>,
    String,
>)
    ensures
        match r {
            Ok(v) => selected(defs_view(package_defs@), texts(package_queries@)) == Ok::<_, Seq<char>>(
                defs_view(v@),
            ),
            Err(e) => selected(defs_view(package_defs@), texts(package_queries@)) == Err::<
                Seq<Definition>,
                _,
            >(e@),
        },
{
    let ghost all = defs_view(package_defs@);
    let ghost qs = texts(package_queries@);
    let mut install_packages: Vec<PackageDef> = Vec::new();
    let mut i: usize = 0;
    proof {
        assert(qs.subrange(0, 0) =~= seq![]);
        assert(defs_view(install_packages@) =~= seq![]);
    }
    while i < package_queries.len()
        invariant
            all == defs_view(package_defs@),
            qs == texts(package_queries@),
            i <= package_queries.len(),
            selected(all, qs.subrange(0, i as int)) == Ok::<_, Seq<char>>(defs_view(install_packages@)),
        decreases package_queries.len() - i,
    {
        let query = &package_queries[i];
        let ghost q = query@;
        let ghost prev = defs_view(install_packages@);
        proof {
            assert(qs.subrange(0, i + 1).drop_last() =~= qs.subrange(0, i as int));
            assert(qs.subrange(0, i + 1).last() == q);
        }
        let mut found: usize = 0;
        let mut k: usize = 0;
        proof {
            assert(all.subrange(0, 0) =~= seq![]);
            assert(prev + matching(all.subrange(0, 0), q) =~= prev);
        }
        while k < package_defs.len()
            invariant
                all == defs_view(package_defs@),
                qs == texts(package_queries@),
                i < package_queries.len(),
                q == qs[i as int],
                query@ == q,
                k <= package_defs.len(),
                found == matching(all.subrange(0, k as int), q).len(),
                found <= k,
                defs_view(install_packages@) == prev + matching(all.subrange(0, k as int), q),
            decreases package_defs.len() - k,
        {
            let p = &package_defs[k];
            proof {
                assert(all.subrange(0, k + 1).drop_last() =~= all.subrange(0, k as int));
                assert(all.subrange(0, k + 1).last() == p@);
            }
            let id = p.id();
            if *query == p.name || *query == id {
                let ghost before = defs_view(install_packages@);
                install_packages.push(p.duplicate());
                found = found + 1;
                proof {
                    assert(defs_view(install_packages@) =~= before.push(p@));
                    assert(prev + matching(all.subrange(0, k + 1), q) =~= (prev + matching(
                        all.subrange(0, k as int),
                        q,
                    )).push(p@));
                }
            }
            k = k + 1;
        }
        proof {
            assert(all.subrange(0, k as int) =~= all);
        }
        if found == 0 {
            proof {
                assert(selected(all, qs.subrange(0, i + 1)) == Err::<Seq<Definition>, _>(
                    undefined_message(q),
                ));
                lemma_selected_stops(all, qs, i + 1);
            }
            return Err(String::from_str("Package ").concat(query.as_str()).concat(" is not defined"));
        }
        i = i + 1;
    }
    proof {
        assert(qs.subrange(0, i as int) =~= qs);
    }
    Ok(install_packages)
}

/// The packages to install: each of `package_defs` preceded by the definitions it
/// depends on according to `dependencies`, none twice.
pub fn resolve_packages(package_defs: &Vec<PackageDef>, dependencies: &Vec<(String, PackageDef)>) -> (r: Vec<
    PackageDef,
>)
    ensures
        defs_view(r@) == install_order(defs_view(package_defs@), edges_view(dependencies@)),
{
    let ghost pkgs = defs_view(package_defs@);
    let ghost deps = edges_view(dependencies@);
    let mut install_packages: Vec<PackageDef> = Vec::new();
    let mut i: usize = 0;
    proof {
        assert(pkgs.subrange(0, 0) =~= seq![]);
        assert(defs_view(install_packages@) =~= seq![]);
    }
    while i < package_defs.len()
        invariant
            pkgs == defs_view(package_defs@),
            deps == edges_view(dependencies@),
            i <= package_defs.len(),
            defs_view(install_packages@) == install_order(pkgs.subrange(0, i as int), deps),
        decreases package_defs.len() - i,
    {
        let package = &package_defs[i];
        let id = package.id();
        let ghost start = defs_view(install_packages@);
        let mut k: usize = 0;
        proof {
            assert(deps.subrange(0, 0) =~= seq![]);
        }
        while k < dependencies.len()
            invariant
                deps == edges_view(dependencies@),
                k <= dependencies.len(),
                defs_view(install_packages@) == add_deps(start, id@, deps.subrange(0, k as int)),
            decreases dependencies.len() - k,
        {
            proof {
                assert(deps.subrange(0, k + 1).drop_last() =~= deps.subrange(0, k as int));
                assert(deps.subrange(0, k + 1).last() == deps[k as int]);
            }
            if dependencies[k].0 == id {
                push_unique(&mut install_packages, &dependencies[k].1);
            }
            k = k + 1;
        }
        proof {
            assert(deps.subrange(0, k as int) =~= deps);
            assert(pkgs.subrange(0, i + 1).drop_last() =~= pkgs.subrange(0, i as int));
            assert(pkgs.subrange(0, i + 1).last() == package@);
        }
        push_unique(&mut install_packages, package);
        i = i + 1;
    }
    proof {
        assert(pkgs.subrange(0, i as int) =~= pkgs);
    }
    install_packages
}

} // verus!
