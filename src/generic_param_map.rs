//! The bounds that a scope declares on its generic parameters, and the check of
//! a candidate assignment of concrete types against them.
use vstd::prelude::*;
use crate::prelude_type::string_eq;
use crate::substitute::{
    names_model,
    subst_path,
    subst_type,
    substitute,
    substitute_path,
    values_model,
};
use crate::types::{Path, PathM, Type, TypeM, clone_path, clone_string, clone_type};

verus! {

/// Identifier of an implementation in the trait-implementation index.
pub type ImplId = u64;

/// A candidate assignment: position `i` binds the `i`-th registered parameter.
pub type Solution = Vec<Type>;

#[derive(Debug)]
pub enum GenericBound {
    TraitBound(Path),
    Outlives(String),
    Use,
}

#[derive(Debug)]
pub enum GenericParamDefKind {
    Lifetime,
    /// `synthetic` marks the parameter that an argument-position `impl Trait` introduces.
    Type { bounds: Vec<GenericBound>, default: Option<Type>, synthetic: bool },
    Const,
}

#[derive(Debug)]
pub struct GenericParamDef {
    pub name: String,
    pub kind: GenericParamDefKind,
}

#[derive(Debug)]
pub enum WherePredicate {
    BoundPredicate { ty: Type, bounds: Vec<GenericBound> },
    RegionPredicate { lifetime: String, bounds: Vec<GenericBound> },
    EqPredicate { lhs: Type, rhs: Type },
}

/// The generics of a declaration.
#[derive(Debug)]
pub struct Generics {
    pub params: Vec<GenericParamDef>,
    pub where_predicates: Vec<WherePredicate>,
}

/// Answers whether a concrete type satisfies a list of trait bounds.
pub trait TraitImplIndex {
    /// The implementations that make `type_` satisfy every bound in `bounds`,
    /// or `None` where some bound is not met.
    fn extract_type_impls_with_bounds(&mut self, type_: &Type, bounds: &Vec<Path>) -> Option<
        Vec<ImplId>,
    >;
}

/// Per-scope registry of generic parameters and their bounds.
///
/// `inner` holds one entry per parameter name, in order of first registration;
/// `generic_defs` lists the registered names, which fix the positions of a
/// solution; `type_pred` holds the where-clause bounds.
#[derive(Debug)]
pub struct GenericParamMap {
    pub inner: Vec<(String, Vec<Path>)>,
    pub generic_defs: Vec<String>,
    pub type_pred: Vec<(Type, Vec<Path>)>,
}

/// Mathematical model of a [`GenericParamMap`].
pub struct ParamMapM {
    pub entries: Seq<(Seq<char>, Seq<PathM>)>,
    pub defs: Seq<Seq<char>>,
    pub preds: Seq<(TypeM, Seq<PathM>)>,
}

pub open spec fn paths_model(s: Seq<Path>) -> Seq<PathM> {
    s.map_values(|p: Path| p@)
}

pub open spec fn entries_model(s: Seq<(String, Vec<Path>)>) -> Seq<(Seq<char>, Seq<PathM>)> {
    s.map_values(|e: (String, Vec<Path>)| (e.0@, paths_model(e.1@)))
}

pub open spec fn preds_model(s: Seq<(Type, Vec<Path>)>) -> Seq<(TypeM, Seq<PathM>)> {
    s.map_values(|e: (Type, Vec<Path>)| (e.0@, paths_model(e.1@)))
}

impl View for GenericParamMap {
    type V = ParamMapM;

    open spec fn view(&self) -> ParamMapM {
        ParamMapM {
            entries: entries_model(self.inner@),
            defs: names_model(self.generic_defs@),
            preds: preds_model(self.type_pred@),
        }
    }
}

/// The trait paths among the bounds, in order; lifetime and `use` bounds drop out.
pub open spec fn trait_bounds(bs: Seq<GenericBound>) -> Seq<PathM>
    decreases bs.len(),
{
    if bs.len() == 0 {
        Seq::empty()
    } else {
        let pre = trait_bounds(bs.subrange(0, bs.len() - 1));
        match bs[bs.len() - 1] {
            GenericBound::TraitBound(p) => pre.push(p@),
            _ => pre,
        }
    }
}

/// The bounds registered for `name`, if it has an entry.
pub open spec fn bounds_of(entries: Seq<(Seq<char>, Seq<PathM>)>, name: Seq<char>) -> Option<
    Seq<PathM>,
>
    decreases entries.len(),
{
    if entries.len() == 0 {
        None
    } else if entries[0].0 == name {
        Some(entries[0].1)
    } else {
        bounds_of(entries.subrange(1, entries.len() as int), name)
    }
}

/// Registration of one parameter: the name takes the next solution position;
/// its bounds are kept only where the name has no entry yet.
pub open spec fn register(m: ParamMapM, name: Seq<char>, bounds: Seq<PathM>) -> ParamMapM {
    ParamMapM {
        entries: if bounds_of(m.entries, name) is Some {
            m.entries
        } else {
            m.entries.push((name, bounds))
        },
        defs: m.defs.push(name),
        preds: m.preds,
    }
}

/// The parameters of a declaration that are registered, with their trait
/// bounds: type parameters without a default, other than `ignore`, that are
/// not synthetic.
pub open spec fn registrations(params: Seq<GenericParamDef>, ignore: Option<Seq<char>>) -> Seq<
    (Seq<char>, Seq<PathM>),
>
    decreases params.len(),
{
    if params.len() == 0 {
        Seq::empty()
    } else {
        let pre = registrations(params.subrange(0, params.len() - 1), ignore);
        let p = params[params.len() - 1];
        match p.kind {
            GenericParamDefKind::Type { bounds, default, synthetic } => {
                if default is Some || ignore == Some(p.name@) || synthetic {
                    pre
                } else {
                    pre.push((p.name@, trait_bounds(bounds@)))
                }
            },
            _ => pre,
        }
    }
}

pub open spec fn register_all(m: ParamMapM, regs: Seq<(Seq<char>, Seq<PathM>)>) -> ParamMapM
    decreases regs.len(),
{
    if regs.len() == 0 {
        m
    } else {
        let last = regs[regs.len() - 1];
        register(register_all(m, regs.subrange(0, regs.len() - 1)), last.0, last.1)
    }
}

/// The where-clause bounds of a declaration, in order; other predicates drop out.
pub open spec fn bound_predicates(ps: Seq<WherePredicate>) -> Seq<(TypeM, Seq<PathM>)>
    decreases ps.len(),
{
    if ps.len() == 0 {
        Seq::empty()
    } else {
        let pre = bound_predicates(ps.subrange(0, ps.len() - 1));
        match ps[ps.len() - 1] {
            WherePredicate::BoundPredicate { ty, bounds } => pre.push((ty@, trait_bounds(bounds@))),
            _ => pre,
        }
    }
}

/// Whether a bound uses plain trait syntax: no segment has parenthesized arguments.
pub open spec fn solvable_bound(p: PathM) -> bool {
    forall|k: int| 0 <= k < p.segments.len() ==> !(#[trigger] p.segments[k].args is Parenthesized)
}

/// Whether every registered and every where-clause bound uses plain trait syntax.
pub open spec fn all_solvable(m: ParamMapM) -> bool {
    &&& forall|i: int, j: int|
        0 <= i < m.entries.len() && 0 <= j < m.entries[i].1.len() ==> solvable_bound(
            #[trigger] m.entries[i].1[j],
        )
    &&& forall|i: int, j: int|
        0 <= i < m.preds.len() && 0 <= j < m.preds[i].1.len() ==> solvable_bound(
            #[trigger] m.preds[i].1[j],
        )
}

/// Names have at most one entry.
pub open spec fn entries_unique(entries: Seq<(Seq<char>, Seq<PathM>)>) -> bool {
    forall|i: int, j: int|
        0 <= i < entries.len() && 0 <= j < entries.len() && i != j ==> entries[i].0 != entries[j].0
}

/// The queries for the registered parameters: each with a non-empty bound
/// list, bound to the type at its position.
pub open spec fn param_queries(
    entries: Seq<(Seq<char>, Seq<PathM>)>,
    defs: Seq<Seq<char>>,
    sol: Seq<TypeM>,
) -> Seq<(TypeM, Seq<PathM>)>
    decreases defs.len(),
{
    if defs.len() == 0 {
        Seq::empty()
    } else {
        let i = defs.len() - 1;
        let pre = param_queries(entries, defs.subrange(0, i), sol);
        match bounds_of(entries, defs[i]) {
            Some(b) => if b.len() > 0 {
                pre.push((sol[i], b))
            } else {
                pre
            },
            None => pre,
        }
    }
}

/// The queries for the where-clause bounds, with the solution substituted;
/// a bound on an associated-type projection is taken as met.
pub open spec fn pred_queries(
    preds: Seq<(Type, Vec<Path>)>,
    names: Seq<Seq<char>>,
    values: Seq<TypeM>,
) -> Seq<(TypeM, Seq<PathM>)>
    decreases preds.len(),
{
    if preds.len() == 0 {
        Seq::empty()
    } else {
        let pre = pred_queries(preds.subrange(0, preds.len() - 1), names, values);
        let e = preds[preds.len() - 1];
        if e.0 is QPath {
            pre
        } else {
            pre.push(
                (
                    subst_type(e.0, names, values),
                    e.1@.map_values(|p: Path| subst_path(p, names, values)),
                ),
            )
        }
    }
}

pub open spec fn queries_model(q: Seq<(Type, Vec<Path>)>) -> Seq<(TypeM, Seq<PathM>)> {
    q.map_values(|e: (Type, Vec<Path>)| (e.0@, paths_model(e.1@)))
}

/// Union of the implementation sets of the answers that are present.
pub open spec fn union_of(answers: Seq<Option<Vec<ImplId>>>) -> Set<ImplId>
    decreases answers.len(),
{
    if answers.len() == 0 {
        Set::empty()
    } else {
        let pre = union_of(answers.subrange(0, answers.len() - 1));
        match answers[answers.len() - 1] {
            Some(v) => pre.union(v@.to_set()),
            None => pre,
        }
    }
}

/// `r` combines the answers: nothing where one of them is missing, else the
/// union of their implementation sets, each id once.
pub open spec fn combination(answers: Seq<Option<Vec<ImplId>>>, r: Option<Vec<ImplId>>) -> bool {
    match r {
        None => exists|j: int| 0 <= j < answers.len() && #[trigger] answers[j] is None,
        Some(v) => {
            &&& forall|j: int| 0 <= j < answers.len() ==> #[trigger] answers[j] is Some
            &&& v@.no_duplicates()
            &&& v@.to_set() == union_of(answers)
        },
    }
}

/// The index was asked the `n` queries in order, stopping at the first unmet
/// one, and `r` combines what it answered.
pub open spec fn solver_outcome(answers: Seq<Option<Vec<ImplId>>>, n: nat, r: Option<Vec<ImplId>>) -> bool {
    &&& answers.len() <= n
    &&& forall|j: int| 0 <= j < answers.len() - 1 ==> #[trigger] answers[j] is Some
    &&& answers.len() == n || (answers.len() > 0 && answers[answers.len() - 1] is None)
    &&& combination(answers, r)
}

pub fn is_solvable_bound(bound: &Path) -> (r: bool)
    ensures
        r == solvable_bound(bound@),
{
    proof {
        crate::types::lemma_segments_model(bound.segments@);
    }
    let mut i: usize = 0;
    while i < bound.segments.len()
        invariant
            i <= bound.segments@.len(),
            bound@.segments.len() == bound.segments@.len(),
            forall|k: int|
                0 <= k < bound.segments@.len() ==> #[trigger] bound@.segments[k]
                    == bound.segments@[k]@,
            forall|k: int| 0 <= k < i ==> !(#[trigger] bound@.segments[k].args is Parenthesized),
        decreases bound.segments.len() - i,
    {
        if let crate::types::GenericArgs::Parenthesized { .. } = &bound.segments[i].args {
            assert(bound@.segments[i as int].args is Parenthesized);
            return false;
        }
        i = i + 1;
    }
    true
}

fn clone_paths(v: &Vec<Path>) -> (r: Vec<Path>)
    ensures
        paths_model(r@) == paths_model(v@),
{
    let mut out: Vec<Path> = Vec::new();
    let mut i: usize = 0;
    while i < v.len()
        invariant
            i <= v@.len(),
            out@.len() == i,
            forall|j: int| 0 <= j < i ==> (#[trigger] out@[j])@ == v@[j]@,
        decreases v.len() - i,
    {
        out.push(clone_path(&v[i]));
        i = i + 1;
    }
    assert(paths_model(out@) =~= paths_model(v@));
    out
}

/// The trait paths among the bounds, in order.
pub fn bounds_to_vec(bounds: &[GenericBound]) -> (r: Vec<Path>)
    ensures
        paths_model(r@) == trait_bounds(bounds@),
{
    let mut res: Vec<Path> = Vec::new();
    let mut i: usize = 0;
    while i < bounds.len()
        invariant
            i <= bounds@.len(),
            paths_model(res@) == trait_bounds(bounds@.subrange(0, i as int)),
        decreases bounds.len() - i,
    {
        proof {
            assert(bounds@.subrange(0, i + 1).subrange(0, i as int) =~= bounds@.subrange(0, i as int));
        }
        let ghost before = res@;
        if let GenericBound::TraitBound(trait_) = &bounds[i] {
            res.push(clone_path(trait_));
            proof {
                assert(paths_model(res@) =~= paths_model(before).push(trait_@));
            }
        }
        i = i + 1;
    }
    proof {
        assert(bounds@.subrange(0, bounds@.len() as int) =~= bounds@);
    }
    res
}

proof fn lemma_bounds_of(entries: Seq<(Seq<char>, Seq<PathM>)>, name: Seq<char>)
    ensures
        bounds_of(entries, name) is None <==> forall|i: int|
            0 <= i < entries.len() ==> #[trigger] entries[i].0 != name,
        bounds_of(entries, name) is Some ==> exists|i: int|
            0 <= i < entries.len() && #[trigger] entries[i].0 == name && entries[i].1 == bounds_of(
                entries,
                name,
            )->0,
    decreases entries.len(),
{
    if entries.len() > 0 {
        let rest = entries.subrange(1, entries.len() as int);
        lemma_bounds_of(rest, name);
        assert forall|i: int| 0 <= i < rest.len() implies rest[i] == entries[i + 1] by {}
        if entries[0].0 != name {
            assert(bounds_of(entries, name) == bounds_of(rest, name));
            if bounds_of(rest, name) is Some {
                let i = choose|i: int|
                    0 <= i < rest.len() && #[trigger] rest[i].0 == name && rest[i].1 == bounds_of(
                        rest,
                        name,
                    )->0;
                assert(entries[i + 1] == rest[i]);
            } else {
                assert forall|i: int| 0 <= i < entries.len() implies #[trigger] entries[i].0 != name by {
                    if i > 0 {
                        assert(entries[i] == rest[i - 1]);
                    }
                }
            }
        } else {
            assert(entries[0].0 == name);
        }
    }
}

impl GenericParamMap {
    pub open spec fn wf(&self) -> bool {
        entries_unique(self@.entries)
    }

    /// The entries, one per registered name, in order of first registration.
    pub fn iter(&self) -> (r: &Vec<(String, Vec<Path>)>)
        ensures
            entries_model(r@) == self@.entries,
    {
        &self.inner
    }

    /// Whether no bound of the scope uses parenthesized (closure-style) syntax.
    pub fn is_solvable(&self) -> (r: bool)
        ensures
            r == all_solvable(self@),
    {
        let mut i: usize = 0;
        while i < self.inner.len()
            invariant
                i <= self.inner@.len(),
                forall|a: int, b: int|
                    0 <= a < i && 0 <= b < self@.entries[a].1.len() ==> solvable_bound(
                        #[trigger] self@.entries[a].1[b],
                    ),
            decreases self.inner.len() - i,
        {
            let bounds = &self.inner[i].1;
            let mut j: usize = 0;
            while j < bounds.len()
                invariant
                    i < self.inner@.len(),
                    *bounds == self.inner@[i as int].1,
                    j <= bounds@.len(),
                    forall|a: int, b: int|
                        0 <= a < i && 0 <= b < self@.entries[a].1.len() ==> solvable_bound(
                            #[trigger] self@.entries[a].1[b],
                        ),
                    forall|b: int| 0 <= b < j ==> solvable_bound(#[trigger] self@.entries[i as int].1[b]),
                decreases bounds.len() - j,
            {
                if !is_solvable_bound(&bounds[j]) {
                    assert(self@.entries[i as int].1[j as int] == bounds@[j as int]@);
                    return false;
                }
                j = j + 1;
            }
            i = i + 1;
        }
        let mut i: usize = 0;
        while i < self.type_pred.len()
            invariant
                i <= self.type_pred@.len(),
                forall|a: int, b: int|
                    0 <= a < self@.entries.len() && 0 <= b < self@.entries[a].1.len()
                        ==> solvable_bound(#[trigger] self@.entries[a].1[b]),
                forall|a: int, b: int|
                    0 <= a < i && 0 <= b < self@.preds[a].1.len() ==> solvable_bound(
                        #[trigger] self@.preds[a].1[b],
                    ),
            decreases self.type_pred.len() - i,
        {
            let bounds = &self.type_pred[i].1;
            let mut j: usize = 0;
            while j < bounds.len()
                invariant
                    i < self.type_pred@.len(),
                    *bounds == self.type_pred@[i as int].1,
                    j <= bounds@.len(),
                    forall|a: int, b: int|
                        0 <= a < self@.entries.len() && 0 <= b < self@.entries[a].1.len()
                            ==> solvable_bound(#[trigger] self@.entries[a].1[b]),
                    forall|a: int, b: int|
                        0 <= a < i && 0 <= b < self@.preds[a].1.len() ==> solvable_bound(
                            #[trigger] self@.preds[a].1[b],
                        ),
                    forall|b: int| 0 <= b < j ==> solvable_bound(#[trigger] self@.preds[i as int].1[b]),
                decreases bounds.len() - j,
            {
                if !is_solvable_bound(&bounds[j]) {
                    assert(self@.preds[i as int].1[j as int] == bounds@[j as int]@);
                    return false;
                }
                j = j + 1;
            }
            i = i + 1;
        }
        true
    }

    pub fn new() -> (r: GenericParamMap)
        ensures
            r@.entries.len() == 0,
            r@.defs.len() == 0,
            r@.preds.len() == 0,
            r.wf(),
    {
        GenericParamMap { inner: Vec::new(), generic_defs: Vec::new(), type_pred: Vec::new() }
    }

    /// Position of the entry of `name`.
    fn entry_position(&self, name: &String) -> (r: Option<usize>)
        ensures
            match r {
                Some(i) => i < self.inner@.len() && self@.entries[i as int].0 == name@
                    && bounds_of(self@.entries, name@) == Some(self@.entries[i as int].1),
                None => bounds_of(self@.entries, name@) is None,
            },
    {
        let ghost s = self@.entries;
        let mut i: usize = 0;
        assert(s.subrange(0, s.len() as int) =~= s);
        while i < self.inner.len()
            invariant
                s == self@.entries,
                s.len() == self.inner@.len(),
                i <= s.len(),
                bounds_of(s, name@) == bounds_of(s.subrange(i as int, s.len() as int), name@),
            decreases s.len() - i,
        {
            proof {
                let rest = s.subrange(i as int, s.len() as int);
                assert(rest.subrange(1, rest.len() as int) =~= s.subrange(i + 1, s.len() as int));
                assert(rest[0] == s[i as int]);
            }
            if string_eq(&self.inner[i].0, name) {
                return Some(i);
            }
            i = i + 1;
        }
        None
    }

    /// The bounds registered for `name`.
    pub fn get_bounds(&self, name: &str) -> (r: &Vec<Path>)
        requires
            bounds_of(self@.entries, name@) is Some,
        ensures
            paths_model(r@) == bounds_of(self@.entries, name@)->0,
    {
        let name = name.to_owned();
        match self.entry_position(&name) {
            Some(i) => &self.inner[i].1,
            None => {
                proof {
                    assert(false);
                }
                &self.inner[0].1
            },
        }
    }

    /// Drops the entry of `name`; its solution position stays.
    pub fn remove_type_param(&mut self, name: &str)
        requires
            old(self).wf(),
        ensures
            final(self).wf(),
            bounds_of(final(self)@.entries, name@) is None,
            forall|n: Seq<char>| n != name@ ==> bounds_of(final(self)@.entries, n) == bounds_of(
                old(self)@.entries,
                n,
            ),
            final(self)@.defs == old(self)@.defs,
            final(self)@.preds == old(self)@.preds,
    {
        let name = name.to_owned();
        match self.entry_position(&name) {
            Some(i) => {
                let ghost before = self@.entries;
                self.inner.remove(i);
                proof {
                    let after = self@.entries;
                    assert(after =~= before.remove(i as int));
                    lemma_bounds_of(before, name@);
                    lemma_bounds_of(after, name@);
                    assert forall|n: Seq<char>| n != name@ implies bounds_of(after, n) == bounds_of(
                        before,
                        n,
                    ) by {
                        lemma_bounds_of_remove(before, i as int, n);
                    }
                }
            },
            None => {},
        }
    }

    /// Puts `self_type` in place of the receiver placeholder `Self` in the
    /// subjects and bounds of the where-clauses.
    pub fn set_self_type(&mut self, self_type: &Type)
        ensures
            final(self)@.entries == old(self)@.entries,
            final(self)@.defs == old(self)@.defs,
            final(self)@.preds.len() == old(self)@.preds.len(),
            forall|i: int|
                0 <= i < old(self)@.preds.len() ==> #[trigger] final(self)@.preds[i] == (
                    subst_type(old(self).type_pred@[i].0, seq!["Self"@], seq![self_type@]),
                    old(self).type_pred@[i].1@.map_values(
                        |p: Path| subst_path(p, seq!["Self"@], seq![self_type@]),
                    ),
                ),
    {
        let names: Vec<String> = vec!["Self".to_owned()];
        let values: Vec<Type> = vec![clone_type(self_type)];
        proof {
            assert(names_model(names@) =~= seq!["Self"@]);
            assert(values_model(values@) =~= seq![self_type@]);
        }
        let mut preds: Vec<(Type, Vec<Path>)> = Vec::new();
        let mut i: usize = 0;
        while i < self.type_pred.len()
            invariant
                names_model(names@) == seq!["Self"@],
                values_model(values@) == seq![self_type@],
                i <= self.type_pred@.len(),
                preds@.len() == i,
                forall|k: int|
                    0 <= k < i ==> (#[trigger] preds@[k]).0@ == subst_type(
                        self.type_pred@[k].0,
                        seq!["Self"@],
                        seq![self_type@],
                    ) && paths_model(preds@[k].1@) == self.type_pred@[k].1@.map_values(
                        |p: Path| subst_path(p, seq!["Self"@], seq![self_type@]),
                    ),
            decreases self.type_pred.len() - i,
        {
            let (type_, paths) = (&self.type_pred[i].0, &self.type_pred[i].1);
            let new_type = substitute(type_, &names, &values);
            let mut new_paths: Vec<Path> = Vec::new();
            let mut j: usize = 0;
            while j < paths.len()
                invariant
                    names_model(names@) == seq!["Self"@],
                    values_model(values@) == seq![self_type@],
                    j <= paths@.len(),
                    new_paths@.len() == j,
                    forall|k: int|
                        0 <= k < j ==> (#[trigger] new_paths@[k])@ == subst_path(
                            paths@[k],
                            seq!["Self"@],
                            seq![self_type@],
                        ),
                decreases paths.len() - j,
            {
                new_paths.push(substitute_path(&paths[j], &names, &values));
                j = j + 1;
            }
            proof {
                assert(paths_model(new_paths@) =~= paths@.map_values(
                    |p: Path| subst_path(p, seq!["Self"@], seq![self_type@]),
                ));
            }
            preds.push((new_type, new_paths));
            i = i + 1;
        }
        let ghost old_preds = self.type_pred@;
        self.type_pred = preds;
        proof {
            assert(self@.preds.len() == old_preds.len());
        }
    }

    /// Registers the type parameters of a declaration and its where-clause
    /// bounds. Parameters with a default, the one named `ignore` and synthetic
    /// ones are skipped; so are lifetime and const parameters, and where-clauses
    /// other than trait bounds.
    pub fn add_generics(&mut self, generics: &Generics, ignore: Option<String>)
        requires
            old(self).wf(),
        ensures
            final(self).wf(),
            final(self)@.entries == register_all(
                old(self)@,
                registrations(
                    generics.params@,
                    match ignore {
                        Some(n) => Some(n@),
                        None => None,
                    },
                ),
            ).entries,
            final(self)@.defs == register_all(
                old(self)@,
                registrations(
                    generics.params@,
                    match ignore {
                        Some(n) => Some(n@),
                        None => None,
                    },
                ),
            ).defs,
            final(self)@.preds == old(self)@.preds + bound_predicates(generics.where_predicates@),
    {
        let ghost ig = match ignore {
            Some(ref n) => Some(n@),
            None => None,
        };
        let ghost start = self@;
        let mut i: usize = 0;
        while i < generics.params.len()
            invariant
                self.wf(),
                ig == match ignore {
                    Some(n) => Some(n@),
                    None => None::<Seq<char>>,
                },
                i <= generics.params@.len(),
                self@.entries == register_all(
                    start,
                    registrations(generics.params@.subrange(0, i as int), ig),
                ).entries,
                self@.defs == register_all(
                    start,
                    registrations(generics.params@.subrange(0, i as int), ig),
                ).defs,
                self@.preds == start.preds,
            decreases generics.params.len() - i,
        {
            let param = &generics.params[i];
            proof {
                let ps = generics.params@.subrange(0, i + 1);
                assert(ps.subrange(0, i as int) =~= generics.params@.subrange(0, i as int));
                assert(ps[i as int] == *param);
            }
            match &param.kind {
                GenericParamDefKind::Type { bounds, default, synthetic } => {
                    let ignored = match &ignore {
                        Some(n) => string_eq(n, &param.name),
                        None => false,
                    };
                    if default.is_none() && !ignored && !*synthetic {
                        let ghost regs = registrations(generics.params@.subrange(0, i as int), ig);
                        self.add_generic_bounds(param.name.as_str(), bounds.as_slice());
                        proof {
                            let regs2 = registrations(generics.params@.subrange(0, i + 1), ig);
                            assert(regs2 == regs.push((param.name@, trait_bounds(bounds@))));
                            assert(regs2.subrange(0, regs2.len() - 1) =~= regs);
                        }
                    }
                },
                _ => {},
            }
            i = i + 1;
        }
        proof {
            assert(generics.params@.subrange(0, generics.params@.len() as int) =~= generics.params@);
        }
        let ghost mid_preds = self@.preds;
        let mut j: usize = 0;
        while j < generics.where_predicates.len()
            invariant
                j <= generics.where_predicates@.len(),
                self@.preds == mid_preds + bound_predicates(
                    generics.where_predicates@.subrange(0, j as int),
                ),
                self@.entries == register_all(start, registrations(generics.params@, ig)).entries,
                self@.defs == register_all(start, registrations(generics.params@, ig)).defs,
                self.wf(),
            decreases generics.where_predicates.len() - j,
        {
            let pred = &generics.where_predicates[j];
            proof {
                let ps = generics.where_predicates@.subrange(0, j + 1);
                assert(ps.subrange(0, j as int) =~= generics.where_predicates@.subrange(0, j as int));
                assert(ps[j as int] == *pred);
            }
            match pred {
                WherePredicate::BoundPredicate { ty, bounds } => {
                    let entry = (clone_type(ty), bounds_to_vec(bounds.as_slice()));
                    let ghost before = self@.preds;
                    self.type_pred.push(entry);
                    proof {
                        assert(self@.preds =~= before.push((ty@, trait_bounds(bounds@))));
                    }
                },
                _ => {},
            }
            j = j + 1;
        }
        proof {
            assert(generics.where_predicates@.subrange(0, generics.where_predicates@.len() as int)
                =~= generics.where_predicates@);
        }
    }

    /// Registers parameter `name` with `bounds`: it takes the next solution
    /// position, and its bounds are kept only where `name` has no entry yet.
    pub fn add_generic_bounds(&mut self, name: &str, bounds: &[GenericBound])
        requires
            old(self).wf(),
        ensures
            final(self).wf(),
            final(self)@ == register(old(self)@, name@, trait_bounds(bounds@)),
    {
        let v = bounds_to_vec(bounds);
        let name = name.to_owned();
        let ghost before = self@;
        if self.entry_position(&name).is_none() {
            self.inner.push((clone_string(&name), v));
            proof {
                lemma_bounds_of(before.entries, name@);
                assert(self@.entries =~= before.entries.push((name@, trait_bounds(bounds@))));
            }
        }
        self.generic_defs.push(name);
        proof {
            assert(self@.defs =~= before.defs.push(name@));
        }
    }

    /// The queries that a solution gives rise to, in the order they are asked:
    /// first the bounds of each registered parameter, then the where-clauses.
    pub fn solution_queries(&self, solution: &Solution) -> (r: Vec<(Type, Vec<Path>)>)
        requires
            solution@.len() == self.generic_defs@.len(),
        ensures
            queries_model(r@) == param_queries(self@.entries, self@.defs, values_model(solution@))
                + pred_queries(self.type_pred@, self@.defs, values_model(solution@)),
    {
        let ghost sol = values_model(solution@);
        let mut res: Vec<(Type, Vec<Path>)> = Vec::new();
        let mut i: usize = 0;
        assert(self@.defs.subrange(0, 0) =~= Seq::<Seq<char>>::empty());
        while i < self.generic_defs.len()
            invariant
                sol == values_model(solution@),
                solution@.len() == self.generic_defs@.len(),
                i <= self.generic_defs@.len(),
                queries_model(res@) == param_queries(
                    self@.entries,
                    self@.defs.subrange(0, i as int),
                    sol,
                ),
            decreases self.generic_defs.len() - i,
        {
            proof {
                assert(self@.defs.subrange(0, i + 1).subrange(0, i as int) =~= self@.defs.subrange(
                    0,
                    i as int,
                ));
            }
            let ghost before = res@;
            match self.entry_position(&self.generic_defs[i]) {
                Some(k) => {
                    let bounds = &self.inner[k].1;
                    if bounds.len() > 0 {
                        res.push((clone_type(&solution[i]), clone_paths(bounds)));
                        proof {
                            assert(queries_model(res@) =~= queries_model(before).push(
                                (sol[i as int], paths_model(bounds@)),
                            ));
                        }
                    }
                },
                None => {},
            }
            i = i + 1;
        }
        proof {
            assert(self@.defs.subrange(0, self@.defs.len() as int) =~= self@.defs);
        }
        let ghost param_part = res@;
        let mut j: usize = 0;
        assert(self.type_pred@.subrange(0, 0) =~= Seq::<(Type, Vec<Path>)>::empty());
        assert(param_part + Seq::<(Type, Vec<Path>)>::empty() =~= param_part);
        while j < self.type_pred.len()
            invariant
                sol == values_model(solution@),
                j <= self.type_pred@.len(),
                queries_model(res@) == queries_model(param_part) + pred_queries(
                    self.type_pred@.subrange(0, j as int),
                    self@.defs,
                    sol,
                ),
            decreases self.type_pred.len() - j,
        {
            proof {
                assert(self.type_pred@.subrange(0, j + 1).subrange(0, j as int)
                    =~= self.type_pred@.subrange(0, j as int));
            }
            let (type_, bounds) = (&self.type_pred[j].0, &self.type_pred[j].1);
            let is_projection = match type_ {
                Type::QPath { .. } => true,
                _ => false,
            };
            if !is_projection {
                let ghost before = res@;
                let complete_type = substitute(type_, &self.generic_defs, solution);
                let mut complete_bounds: Vec<Path> = Vec::new();
                let mut k: usize = 0;
                while k < bounds.len()
                    invariant
                        k <= bounds@.len(),
                        complete_bounds@.len() == k,
                        forall|x: int|
                            0 <= x < k ==> (#[trigger] complete_bounds@[x])@ == subst_path(
                                bounds@[x],
                                names_model(self.generic_defs@),
                                values_model(solution@),
                            ),
                    decreases bounds.len() - k,
                {
                    complete_bounds.push(substitute_path(&bounds[k], &self.generic_defs, solution));
                    k = k + 1;
                }
                proof {
                    assert(paths_model(complete_bounds@) =~= bounds@.map_values(
                        |p: Path| subst_path(p, self@.defs, sol),
                    ));
                }
                res.push((complete_type, complete_bounds));
                proof {
                    assert(queries_model(res@) =~= queries_model(before).push(
                        (complete_type@, paths_model(complete_bounds@)),
                    ));
                }
            }
            j = j + 1;
        }
        proof {
            assert(self.type_pred@.subrange(0, self.type_pred@.len() as int) =~= self.type_pred@);
        }
        res
    }

    /// Checks a candidate assignment against every bound of the scope by asking
    /// `trait_impl_map`, query by query, until one bound is not met; returns
    /// the implementations that justify it, or `None`.
    pub fn check_solution<I: TraitImplIndex>(&self, solution: &Solution, trait_impl_map: &mut I) -> (r:
        Option<Vec<ImplId>>)
        requires
            solution@.len() == self.generic_defs@.len(),
        ensures
            exists|answers: Seq<Option<Vec<ImplId>>>|
                #[trigger] solver_outcome(
                    answers,
                    (param_queries(self@.entries, self@.defs, values_model(solution@))
                        + pred_queries(self.type_pred@, self@.defs, values_model(solution@))).len(),
                    r,
                ),
    {
        let queries = self.solution_queries(solution);
        let n = queries.len();
        proof {
            assert(queries_model(queries@).len() == n);
        }
        let mut answers: Vec<Option<Vec<ImplId>>> = Vec::new();
        let mut stopped = false;
        let mut i: usize = 0;
        while i < n && !stopped
            invariant
                n == queries@.len(),
                i <= n,
                answers@.len() == i,
                !stopped ==> forall|j: int| 0 <= j < i ==> #[trigger] answers@[j] is Some,
                stopped ==> i > 0 && answers@[i - 1] is None && forall|j: int|
                    0 <= j < i - 1 ==> #[trigger] answers@[j] is Some,
            decreases n - i,
        {
            let answer = trait_impl_map.extract_type_impls_with_bounds(&queries[i].0, &queries[i].1);
            stopped = answer.is_none();
            answers.push(answer);
            i = i + 1;
        }
        let r = combine_impl_sets(&answers);
        proof {
            assert(solver_outcome(answers@, n as nat, r));
        }
        r
    }
}

proof fn lemma_bounds_of_remove(entries: Seq<(Seq<char>, Seq<PathM>)>, i: int, n: Seq<char>)
    requires
        0 <= i < entries.len(),
        entries[i].0 != n,
    ensures
        bounds_of(entries.remove(i), n) == bounds_of(entries, n),
    decreases entries.len(),
{
    let rest = entries.subrange(1, entries.len() as int);
    if i == 0 {
        assert(entries.remove(0) =~= rest);
    } else {
        assert(entries.remove(i)[0] == entries[0]);
        assert(entries.remove(i).subrange(1, entries.len() - 1) =~= rest.remove(i - 1));
        lemma_bounds_of_remove(rest, i - 1, n);
    }
}

/// Combines the answers of the index: `None` where one is missing, else the
/// union of their implementation sets, each id once.
pub fn combine_impl_sets(answers: &Vec<Option<Vec<ImplId>>>) -> (r: Option<Vec<ImplId>>)
    ensures
        combination(answers@, r),
{
    let mut visited: Vec<ImplId> = Vec::new();
    let mut i: usize = 0;
    while i < answers.len()
        invariant
            i <= answers@.len(),
            forall|j: int| 0 <= j < i ==> #[trigger] answers@[j] is Some,
            visited@.no_duplicates(),
            visited@.to_set() == union_of(answers@.subrange(0, i as int)),
        decreases answers.len() - i,
    {
        proof {
            assert(answers@.subrange(0, i + 1).subrange(0, i as int) =~= answers@.subrange(0, i as int));
        }
        match &answers[i] {
            None => {
                return None;
            },
            Some(impl_set) => {
                let ghost before = visited@.to_set();
                let mut k: usize = 0;
                while k < impl_set.len()
                    invariant
                        k <= impl_set@.len(),
                        visited@.no_duplicates(),
                        visited@.to_set() == before.union(impl_set@.subrange(0, k as int).to_set()),
                    decreases impl_set.len() - k,
                {
                    let id = impl_set[k];
                    let mut found = false;
                    let mut x: usize = 0;
                    while x < visited.len()
                        invariant
                            x <= visited@.len(),
                            !found ==> forall|y: int| 0 <= y < x ==> visited@[y] != id,
                            found ==> visited@.contains(id),
                        decreases visited.len() - x,
                    {
                        if visited[x] == id {
                            found = true;
                        }
                        x = x + 1;
                    }
                    let ghost vb = visited@;
                    if !found {
                        visited.push(id);
                    }
                    proof {
                        assert(impl_set@.subrange(0, k + 1).to_set() =~= impl_set@.subrange(
                            0,
                            k as int,
                        ).to_set().insert(id)) by {
                            assert(impl_set@.subrange(0, k + 1) =~= impl_set@.subrange(0, k as int).push(id));
                            impl_set@.subrange(0, k as int).lemma_push_to_set_commute(id);
                        }
                        if !found {
                            vb.lemma_push_to_set_commute(id);
                            assert(visited@ == vb.push(id));
                            assert(visited@.no_duplicates()) by {
                                assert forall|a: int, b: int|
                                    0 <= a < visited@.len() && 0 <= b < visited@.len() && a != b
                                    implies visited@[a] != visited@[b] by {
                                    if a == vb.len() as int {
                                        assert(visited@[b] == vb[b]);
                                    } else if b == vb.len() as int {
                                        assert(visited@[a] == vb[a]);
                                    }
                                }
                            }
                        } else {
                            assert(vb.to_set().contains(id));
                        }
                        assert(visited@.to_set() =~= before.union(
                            impl_set@.subrange(0, k + 1).to_set(),
                        ));
                    }
                    k = k + 1;
                }
                proof {
                    assert(impl_set@.subrange(0, impl_set@.len() as int) =~= impl_set@);
                }
            },
        }
        i = i + 1;
    }
    proof {
        assert(answers@.subrange(0, answers@.len() as int) =~= answers@);
    }
    Some(visited)
}

} // verus!
