//! The monomorphization plan: which functions are lowered, and which concrete
//! instances of generic functions.
use vstd::prelude::*;
use crate::mir::Program;
use crate::name_map::NameMap;
use crate::ir::specialization::{
    callees_reached, collect_reachable_functions, reached_from_walked, defines_plain_function, generic_callees_specialized,
    specializations_valid, FunctionSpecialization, ReachableFunctions,
};

verus! {

/// The functions reachable from `main`, the specializations reachable from
/// it, and every specialization that was requested.
pub struct MonomorphizationPlan {
    reachable_functions: NameMap<()>,
    reachable_specializations: NameMap<()>,
    specializations: NameMap<FunctionSpecialization>,
}

impl MonomorphizationPlan {
    /// The plan with nothing reachable.
    pub fn empty() -> (r: Self)
        ensures
            r.reachable_functions().entries().len() == 0,
            r.reachable_specializations().entries().len() == 0,
            r.specializations().entries().len() == 0,
    {
        MonomorphizationPlan {
            reachable_functions: NameMap::new(),
            reachable_specializations: NameMap::new(),
            specializations: NameMap::new(),
        }
    }

    /// The set of non-generic functions reachable from `main`.
    pub closed spec fn reachable_functions(&self) -> NameMap<()> {
        self.reachable_functions
    }

    /// Whether the non-generic function `name` is reachable from `main`.
    pub fn is_reachable(&self, name: &str) -> (r: bool)
        ensures
            r == self.reachable_functions().spec_get(name@) is Some,
    {
        self.reachable_functions.contains_key(name)
    }

    /// The keys of the specializations reachable from `main`.
    pub closed spec fn reachable_specializations(&self) -> NameMap<()> {
        self.reachable_specializations
    }

    /// Every specialization that was requested, by key.
    pub closed spec fn specializations(&self) -> NameMap<FunctionSpecialization> {
        self.specializations
    }

    /// The reachable specializations, in key order.
    pub fn used_concrete_instances(&self) -> (r: Vec<&FunctionSpecialization>)
        ensures
            r@.len() == reachable_instances(
                self.specializations().entries(),
                self.reachable_specializations(),
            ).len(),
            forall|i: int|
                0 <= i < r@.len() ==> *r@[i] == reachable_instances(
                    self.specializations().entries(),
                    self.reachable_specializations(),
                )[i],
            forall|i: int|
                #![trigger r@[i]]
                0 <= i < r@.len() ==> exists|k: Seq<char>| #[trigger] self.specializations().spec_get(k) == Some(*r@[i]),
    {
        let ghost entries = self.specializations.entries();
        let ghost reach = self.reachable_specializations;
        let mut out: Vec<&FunctionSpecialization> = Vec::new();
        let mut i: usize = 0;
        while i < self.specializations.len()
            invariant
                i <= entries.len(),
                entries == self.specializations.entries(),
                reach == self.reachable_specializations,
                out@.len() == reachable_instances(entries.take(i as int), reach).len(),
                forall|j: int|
                    0 <= j < out@.len() ==> *out@[j] == reachable_instances(entries.take(i as int), reach)[j],
                forall|j: int|
                    #![trigger out@[j]]
                    0 <= j < out@.len() ==> exists|k: Seq<char>| #[trigger] self.specializations.spec_get(k) == Some(*out@[j]),
            decreases entries.len() - i,
        {
            let (name, specialization) = self.specializations.entry_at(i);
            assert(entries.take(i + 1).drop_last() =~= entries.take(i as int));
            if self.reachable_specializations.contains_key(specialization.key.as_str()) {
                let ghost before = out@;
                out.push(specialization);
                proof {
                    assert forall|j: int| #![trigger out@[j]] 0 <= j < out@.len() implies exists|k: Seq<char>|
                        #[trigger] self.specializations.spec_get(k) == Some(*out@[j]) by {
                        if j < before.len() {
                            assert(out@[j] == before[j]);
                        } else {
                            assert(self.specializations.spec_get(name@) == Some(*out@[j]));
                        }
                    }
                }
            }
            i += 1;
        }
        assert(entries.take(entries.len() as int) =~= entries);
        proof {
            assert forall|i: int| #![trigger out@[i]] 0 <= i < out@.len() implies exists|k: Seq<char>|
                #[trigger] self.specializations().spec_get(k) == Some(*out@[i]) by {
                let k = choose|k: Seq<char>| #[trigger] self.specializations.spec_get(k) == Some(*out@[i]);
                assert(self.specializations().spec_get(k) == Some(*out@[i]));
            }
        }
        out
    }

    fn from_parts(
        reachable: ReachableFunctions,
        specializations: NameMap<FunctionSpecialization>,
    ) -> (r: Self)
        ensures
            r.reachable_functions() == reachable.functions,
            r.reachable_specializations() == reachable.specializations,
            r.specializations() == specializations,
    {
        MonomorphizationPlan {
            reachable_functions: reachable.functions,
            reachable_specializations: reachable.specializations,
            specializations,
        }
    }
}

/// The specializations among `entries` whose keys `reachable` holds, in order.
pub open spec fn reachable_instances(
    entries: Seq<(String, FunctionSpecialization)>,
    reachable: NameMap<()>,
) -> Seq<FunctionSpecialization>
    decreases entries.len(),
{
    if entries.len() == 0 {
        Seq::empty()
    } else {
        let rest = reachable_instances(entries.drop_last(), reachable);
        let last = entries.last().1;
        if reachable.spec_get(last.key@) is Some {
            rest.push(last)
        } else {
            rest
        }
    }
}

/// The monomorphization plan of a program, or why specialization failed.
pub fn plan_program(program: &Program) -> (r: Result<MonomorphizationPlan, Vec<String>>)
    ensures
        r matches Ok(plan) ==> plan.reachable_functions().spec_get("main"@) is Some,
        r matches Ok(plan) ==> specializations_valid(*program, plan.specializations()),
        r matches Ok(plan) ==> forall|k: Seq<char>|
            #[trigger] plan.reachable_functions().spec_get(k) is Some ==> k == "main"@ || exists|i: int|
                0 <= i < program.items@.len() && #[trigger] defines_plain_function(program.items@[i], k),
        r matches Ok(plan) ==> forall|k: Seq<char>|
            #[trigger] plan.specializations().spec_get(k) is Some ==> plan.reachable_specializations().spec_get(
                k,
            ) is Some,
        r matches Ok(plan) ==> forall|name: Seq<char>|
            #[trigger] plan.reachable_functions().spec_get(name) is Some ==> callees_reached(
                *program,
                ReachableFunctions {
                    functions: plan.reachable_functions(),
                    specializations: plan.reachable_specializations(),
                },
                plan.specializations(),
                name,
            ),
        r matches Ok(plan) ==> forall|name: Seq<char>|
            #[trigger] plan.reachable_functions().spec_get(name) is Some ==> generic_callees_specialized(
                *program,
                plan.specializations(),
                name,
            ),
        r matches Ok(plan) ==> reached_from_walked(
            *program,
            ReachableFunctions {
                functions: plan.reachable_functions(),
                specializations: plan.reachable_specializations(),
            },
            plan.specializations(),
        ),
        r matches Err(reasons) ==> reasons@.len() > 0,
{
    match collect_reachable_functions(program) {
        Ok((reachable, specializations)) => Ok(MonomorphizationPlan::from_parts(reachable, specializations)),
        Err(reasons) => Err(reasons),
    }
}

} // verus!
