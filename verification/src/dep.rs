//! Reverse dependencies: which packages of a collection depend on a given
//! package, by its name or by a name that it provides.
//!
//! Only names are compared. A version constraint on the dependency plays no
//! part: the question is whether there is a dependency at all.

use crate::db::Pkg;
use crate::pkgdesc::{DependView, PkgDesc, PkgDescView};
use crate::smol::{smol_eq, smol_text};
use smol_str::SmolStr;
use vstd::prelude::*;

verus! {

/// Whether one of `provides` has the name `name`.
pub open spec fn provides_name(provides: Seq<DependView>, name: Seq<char>) -> bool {
    exists|j: int| 0 <= j < provides.len() && (#[trigger] provides[j]).name == name
}

/// Whether a dependency on `name` is a dependency on `target`: `name` is the
/// name of `target` or a name that `target` provides.
pub open spec fn answers_to(target: PkgDescView, name: Seq<char>) -> bool {
    name == target.name || provides_name(target.provides, name)
}

/// Whether `dependent` depends on `target`.
pub open spec fn depends_on(dependent: PkgDescView, target: PkgDescView) -> bool {
    exists|i: int|
        0 <= i < dependent.depends.len() && answers_to(target, (#[trigger] dependent.depends[i]).name)
}

/// Whether `dependent` optionally depends on `target`.
pub open spec fn optionally_depends_on(dependent: PkgDescView, target: PkgDescView) -> bool {
    exists|i: int|
        0 <= i < dependent.opt_depends.len() && answers_to(
            target,
            (#[trigger] dependent.opt_depends[i]).dep.name,
        )
}

/// The test that a package passes when it depends on `target`: optionally
/// if `optional`, and otherwise by need.
pub open spec fn is_dependent(optional: bool, target: PkgDescView) -> spec_fn(Pkg) -> bool {
    |p: Pkg|
        if optional {
            optionally_depends_on(p.desc@, target)
        } else {
            depends_on(p.desc@, target)
        }
}

/// The packages among `pkgs` that depend on `target`, optionally if
/// `optional` and otherwise by need, in the order in which `pkgs` has them.
pub open spec fn dependents(optional: bool, target: PkgDescView, pkgs: Seq<Pkg>) -> Seq<Pkg> {
    pkgs.filter(is_dependent(optional, target))
}

/// The dependents of a package are exactly the packages of the collection
/// that depend on it: none is left out and none is added.
pub proof fn lemma_dependents_are_exact(
    optional: bool,
    target: PkgDescView,
    pkgs: Seq<Pkg>,
    p: Pkg,
)
    ensures
        dependents(optional, target, pkgs).contains(p) <==> pkgs.contains(p) && is_dependent(
            optional,
            target,
        )(p),
{
    let test = is_dependent(optional, target);
    let kept = pkgs.filter(test);
    if kept.contains(p) {
        pkgs.lemma_filter_contains_rev(test, p);
        let k = choose|k: int| 0 <= k < kept.len() && kept[k] == p;
        pkgs.lemma_filter_pred(test, k);
    }
    if pkgs.contains(p) && test(p) {
        let i = choose|i: int| 0 <= i < pkgs.len() && pkgs[i] == p;
        pkgs.lemma_filter_contains(test, i);
    }
}

/// A package that provides a name is required by every package of the
/// collection that depends on that name.
pub proof fn lemma_provider_is_required(
    provider: PkgDescView,
    alias: Seq<char>,
    pkgs: Seq<Pkg>,
    i: int,
)
    requires
        provides_name(provider.provides, alias),
        0 <= i < pkgs.len(),
        exists|k: int|
            0 <= k < pkgs[i].desc@.depends.len() && (#[trigger] pkgs[i].desc@.depends[k]).name
                == alias,
    ensures
        dependents(false, provider, pkgs).contains(pkgs[i]),
{
    let k = choose|k: int|
        0 <= k < pkgs[i].desc@.depends.len() && (#[trigger] pkgs[i].desc@.depends[k]).name == alias;
    assert(answers_to(provider, pkgs[i].desc@.depends[k].name));
    pkgs.lemma_filter_contains(is_dependent(false, provider), i);
}

/// The packages that a sequence of borrowed packages refers to.
pub open spec fn referents(refs: Seq<&Pkg>) -> Seq<Pkg> {
    refs.map_values(|p: &Pkg| *p)
}

/// Whether a dependency on `name` is a dependency on `pkg`.
fn is_answered_by(name: &SmolStr, pkg: &PkgDesc) -> (yes: bool)
    ensures
        yes == answers_to(pkg@, smol_text(*name)),
{
    if smol_eq(name, &pkg.name) {
        return true;
    }
    let mut j: usize = 0;
    while j < pkg.provides.len()
        invariant
            j <= pkg.provides.len(),
            smol_text(*name) != pkg@.name,
            forall|k: int| 0 <= k < j ==> (#[trigger] pkg@.provides[k]).name != smol_text(*name),
        decreases pkg.provides.len() - j,
    {
        if smol_eq(&pkg.provides[j].name, name) {
            assert(pkg@.provides[j as int].name == smol_text(*name));
            return true;
        }
        j += 1;
    }
    false
}

/// Whether `dependent_pkg` depends on `pkg`: one of its dependencies names
/// `pkg` or something that `pkg` provides.
pub fn pkg_matches_dep(pkg: &PkgDesc, dependent_pkg: &PkgDesc) -> (yes: bool)
    ensures
        yes == depends_on(dependent_pkg@, pkg@),
{
    let mut i: usize = 0;
    while i < dependent_pkg.depends.len()
        invariant
            i <= dependent_pkg.depends.len(),
            forall|k: int|
                0 <= k < i ==> !answers_to(pkg@, (#[trigger] dependent_pkg@.depends[k]).name),
        decreases dependent_pkg.depends.len() - i,
    {
        if is_answered_by(&dependent_pkg.depends[i].name, pkg) {
            assert(answers_to(pkg@, dependent_pkg@.depends[i as int].name));
            return true;
        }
        i += 1;
    }
    false
}

/// Whether `dependent_pkg` optionally depends on `pkg`: one of its optional
/// dependencies names `pkg` or something that `pkg` provides.
pub fn pkg_matches_opt_dep(pkg: &PkgDesc, dependent_pkg: &PkgDesc) -> (yes: bool)
    ensures
        yes == optionally_depends_on(dependent_pkg@, pkg@),
{
    let mut i: usize = 0;
    while i < dependent_pkg.opt_depends.len()
        invariant
            i <= dependent_pkg.opt_depends.len(),
            forall|k: int|
                0 <= k < i ==> !answers_to(
                    pkg@,
                    (#[trigger] dependent_pkg@.opt_depends[k]).dep.name,
                ),
        decreases dependent_pkg.opt_depends.len() - i,
    {
        if is_answered_by(&dependent_pkg.opt_depends[i].dep.name, pkg) {
            assert(answers_to(pkg@, dependent_pkg@.opt_depends[i as int].dep.name));
            return true;
        }
        i += 1;
    }
    false
}

/// The packages among `pkgs` that depend on `pkg`, optionally if `OPT` and
/// otherwise by need.
fn pkg_deps<'pkgs, const OPT: bool>(pkg: &PkgDesc, pkgs: &'pkgs [Pkg]) -> (out: Vec<&'pkgs Pkg>)
    ensures
        referents(out@) == dependents(OPT, pkg@, pkgs@),
{
    let mut out: Vec<&'pkgs Pkg> = Vec::new();
    let mut i: usize = 0;
    proof {
        reveal(Seq::filter);
        assert(pkgs@.take(0) =~= Seq::empty());
        assert(referents(out@) =~= Seq::empty());
    }
    while i < pkgs.len()
        invariant
            i <= pkgs.len(),
            referents(out@) == dependents(OPT, pkg@, pkgs@.take(i as int)),
        decreases pkgs.len() - i,
    {
        let candidate = &pkgs[i];
        let keep = if OPT {
            pkg_matches_opt_dep(pkg, &candidate.desc)
        } else {
            pkg_matches_dep(pkg, &candidate.desc)
        };
        proof {
            reveal(Seq::filter);
            assert(pkgs@.take(i + 1).drop_last() == pkgs@.take(i as int));
            assert(pkgs@.take(i + 1).last() == pkgs@[i as int]);
        }
        let ghost before = referents(out@);
        if keep {
            out.push(candidate);
            assert(referents(out@) =~= before.push(pkgs@[i as int]));
        }
        i += 1;
    }
    assert(pkgs@.take(i as int) == pkgs@);
    out
}

/// Reverse dependencies of a package within a collection.
pub trait PkgDepsExt {
    /// The description of the package that is asked about.
    spec fn target(&self) -> PkgDescView;

    /// The packages among `pkgs` that depend on this one, in the order of
    /// `pkgs`.
    fn required_by<'pkgs>(&self, pkgs: &'pkgs [Pkg]) -> (out: Vec<&'pkgs Pkg>)
        ensures
            referents(out@) == dependents(false, self.target(), pkgs@),
    ;

    /// The packages among `pkgs` that optionally depend on this one, in the
    /// order of `pkgs`.
    fn optional_for<'pkgs>(&self, pkgs: &'pkgs [Pkg]) -> (out: Vec<&'pkgs Pkg>)
        ensures
            referents(out@) == dependents(true, self.target(), pkgs@),
    ;
}

impl PkgDepsExt for Pkg {
    open spec fn target(&self) -> PkgDescView {
        self.desc@
    }

    fn required_by<'pkgs>(&self, pkgs: &'pkgs [Pkg]) -> (out: Vec<&'pkgs Pkg>) {
        pkg_deps::<false>(&self.desc, pkgs)
    }

    fn optional_for<'pkgs>(&self, pkgs: &'pkgs [Pkg]) -> (out: Vec<&'pkgs Pkg>) {
        pkg_deps::<true>(&self.desc, pkgs)
    }
}

impl PkgDepsExt for PkgDesc {
    open spec fn target(&self) -> PkgDescView {
        self@
    }

    fn required_by<'pkgs>(&self, pkgs: &'pkgs [Pkg]) -> (out: Vec<&'pkgs Pkg>) {
        pkg_deps::<false>(self, pkgs)
    }

    fn optional_for<'pkgs>(&self, pkgs: &'pkgs [Pkg]) -> (out: Vec<&'pkgs Pkg>) {
        pkg_deps::<true>(self, pkgs)
    }
}

} // verus!
