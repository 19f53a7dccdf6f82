//! Mutations of traces that keep every recipe well-typed.
//!
//! Each mutation comes in two parts. The part that changes the trace is a
//! method of [`Trace`] that is told where to work and says exactly what it
//! did. The mutator itself finds the places where its mutation applies,
//! picks among them at random and lets that method do the work.

pub mod util;

use crate::fuzzer::mutations::util::{
    apart, choose_index, lemma_trace_replaced_closed, lemma_trace_replaced_well_typed,
    lemma_trace_subterm_closed, lemma_trace_subterm_well_typed, places, MutationResult, Place,
    TermConstraints, TracePath,
};
use crate::term::atoms::{Function, FunctionModel};
use crate::term::dynamic_function::TypeShape;
use crate::term::signature::Signature;
use crate::term::{lemma_models, models, preorders, Term, TermModel};
use crate::agent::AgentName;
use crate::trace::{described, refers_within, Trace, TraceModel};
use libafl_bolts::rands::StdRand;
use vstd::prelude::*;

verus! {

/// The trace with the step at `index` once more behind itself.
pub open spec fn repeated(trace: TraceModel, index: int) -> TraceModel {
    TraceModel { steps: trace.steps.insert(index + 1, trace.steps[index]), ..trace }
}

/// Whether there is a subterm at `place` whose size is within the limits.
pub open spec fn admitted(trace: TraceModel, place: Place, constraints: TermConstraints) -> bool {
    trace.subterm(place) matches Some(term) && constraints.admits(term)
}

/// Whether the subterm at `source` may be put in the place of the one at
/// `target`: both are there and within the limits, they are of the same
/// type, and the two places are not the same.
pub open spec fn reusable(
    trace: TraceModel,
    target: Place,
    source: Place,
    constraints: TermConstraints,
) -> bool {
    &&& admitted(trace, target, constraints)
    &&& admitted(trace, source, constraints)
    &&& target != source
    &&& trace.subterm(target)->0.type_shape().id == trace.subterm(source)->0.type_shape().id
}

/// Whether the constant at `target` may become `function`: the subterm is an
/// application without arguments, within the limits, and `function` is
/// another symbol without arguments and with the same return type.
pub open spec fn matchable(
    trace: TraceModel,
    target: Place,
    function: FunctionModel,
    constraints: TermConstraints,
) -> bool {
    &&& admitted(trace, target, constraints)
    &&& trace.subterm(target)->0 matches TermModel::Application(constant, arguments)
    &&& arguments.len() == 0
    &&& function.shape.argument_types.len() == 0
    &&& function.shape.return_type.id == constant.shape.return_type.id
    &&& function.shape.name != constant.shape.name
}

/// Whether the argument with index `child` of the application at `parent`
/// may take the place of the application: the application is there and
/// within the limits, and the argument is of the application's own type.
pub open spec fn liftable(
    trace: TraceModel,
    parent: Place,
    child: usize,
    constraints: TermConstraints,
) -> bool {
    &&& admitted(trace, parent, constraints)
    &&& trace.subterm(parent)->0 matches TermModel::Application(function, arguments)
    &&& child < arguments.len()
    &&& arguments[child as int].type_shape().id == function.shape.return_type.id
}

/// Whether the subterms at the two places may change places: both are there
/// and within the limits, they are of the same type, and the places are apart.
pub open spec fn swappable(
    trace: TraceModel,
    first: Place,
    second: Place,
    constraints: TermConstraints,
) -> bool {
    &&& admitted(trace, first, constraints)
    &&& admitted(trace, second, constraints)
    &&& apart(first, second)
    &&& trace.subterm(first)->0.type_shape().id == trace.subterm(second)->0.type_shape().id
}

/// Whether `term` may be put at `target`: the subterm there is within the
/// limits and of the type of `term`, and `term` is no larger than the limits allow.
pub open spec fn placeable(
    trace: TraceModel,
    target: Place,
    term: TermModel,
    constraints: TermConstraints,
) -> bool {
    &&& admitted(trace, target, constraints)
    &&& trace.subterm(target)->0.type_shape().id == term.type_shape().id
    &&& term.size() <= constraints.max_term_size
}

/// An exchange at one place leaves what stands at a place apart from it.
pub proof fn lemma_replaced_elsewhere(
    term: TermModel,
    first: Seq<usize>,
    new: TermModel,
    second: Seq<usize>,
)
    requires
        term.subterm(first) is Some,
        !util::is_prefix(first, second),
        !util::is_prefix(second, first),
    ensures
        term.replaced(first, new).subterm(second) == term.subterm(second),
    decreases first.len(),
{
    assert(first.len() > 0) by {
        if first.len() == 0 {
            assert(second.take(0) =~= first);
        }
    }
    assert(second.len() > 0) by {
        if second.len() == 0 {
            assert(first.take(0) =~= second);
        }
    }
    match term {
        TermModel::Variable(_) => {},
        TermModel::Application(_, arguments) => {
            if first[0] == second[0] {
                let deeper = first.skip(1);
                let other = second.skip(1);
                if util::is_prefix(deeper, other) {
                    assert(second.take(first.len() as int) =~= seq![second[0]] + other.take(
                        deeper.len() as int,
                    ));
                    assert(first =~= seq![first[0]] + deeper);
                }
                if util::is_prefix(other, deeper) {
                    assert(first.take(second.len() as int) =~= seq![first[0]] + deeper.take(
                        other.len() as int,
                    ));
                    assert(second =~= seq![second[0]] + other);
                }
                lemma_replaced_elsewhere(arguments[first[0] as int], deeper, new, other);
            }
        },
    }
}

/// An exchange in a recipe leaves what stands at a place apart from it.
pub proof fn lemma_trace_replaced_elsewhere(
    trace: TraceModel,
    first: Place,
    new: TermModel,
    second: Place,
)
    requires
        trace.subterm(first) is Some,
        apart(first, second),
    ensures
        trace.replaced(first, new).subterm(second) == trace.subterm(second),
{
    if first.step == second.step {
        lemma_replaced_elsewhere(
            trace.recipe(first.step as int)->0,
            first.path,
            new,
            second.path,
        );
    }
}

impl Trace {
    /// Puts a copy of the step at `index` behind that step.
    pub fn repeat_step(&mut self, index: usize) -> (r: MutationResult)
        ensures
            if index < old(self)@.steps.len() {
                r == MutationResult::Mutated && final(self)@ == repeated(old(self)@, index as int)
            } else {
                r == MutationResult::Skipped && final(self)@ == old(self)@
            },
            old(self)@.well_typed() ==> final(self)@.well_typed(),
            old(self)@.is_closed() ==> final(self)@.is_closed(),
    {
        if index >= self.steps.len() {
            return MutationResult::Skipped;
        }
        let copy = self.steps[index].clone();
        self.steps.insert(index + 1, copy);
        proof {
            let before = old(self)@;
            assert(self@.steps =~= before.steps.insert(index as int + 1, before.steps[index as int]));
        }
        MutationResult::Mutated
    }

    /// Whether there is a subterm at `position` whose size is within the limits.
    pub fn is_admitted(&self, position: &TracePath, constraints: &TermConstraints) -> (r: bool)
        ensures
            r == admitted(self@, position@, *constraints),
    {
        match self.get_subterm(position) {
            Some(term) => constraints.allows(term),
            None => false,
        }
    }

    /// Puts `term` in the place of the subterm at `target`, as far as
    /// [`placeable`] allows.
    pub fn place(&mut self, target: &TracePath, term: Term, constraints: &TermConstraints) -> (r:
        MutationResult)
        ensures
            if placeable(old(self)@, target@, term@, *constraints) {
                r == MutationResult::Mutated && final(self)@ == old(self)@.replaced(
                    target@,
                    term@,
                )
            } else {
                r == MutationResult::Skipped && final(self)@ == old(self)@
            },
            old(self)@.well_typed() && term@.well_typed() ==> final(self)@.well_typed(),
            old(self)@.is_closed() && refers_within(term@, described(old(self)@.descriptors))
                ==> final(self)@.is_closed(),
    {
        if !self.is_admitted(target, constraints) || term.size() > constraints.max_term_size {
            return MutationResult::Skipped;
        }
        proof {
            if old(self)@.well_typed() && term@.well_typed() && placeable(
                old(self)@,
                target@,
                term@,
                *constraints,
            ) {
                lemma_trace_replaced_well_typed(old(self)@, target@, term@);
            }
            if old(self)@.is_closed() && refers_within(term@, described(old(self)@.descriptors)) {
                lemma_trace_replaced_closed(old(self)@, target@, term@);
            }
        }
        match self.replace_subterm(target, term) {
            Ok(_) => MutationResult::Mutated,
            Err(_) => MutationResult::Skipped,
        }
    }

    /// Puts a copy of the subterm at `source` in the place of the one at
    /// `target`, as far as [`reusable`] allows.
    pub fn replace_reuse(
        &mut self,
        target: &TracePath,
        source: &TracePath,
        constraints: &TermConstraints,
    ) -> (r: MutationResult)
        ensures
            if reusable(old(self)@, target@, source@, *constraints) {
                r == MutationResult::Mutated && final(self)@ == old(self)@.replaced(
                    target@,
                    old(self)@.subterm(source@)->0,
                )
            } else {
                r == MutationResult::Skipped && final(self)@ == old(self)@
            },
            old(self)@.well_typed() ==> final(self)@.well_typed(),
            old(self)@.is_closed() ==> final(self)@.is_closed(),
    {
        if target.same(source) || !self.is_admitted(target, constraints) || !self.is_admitted(
            source,
            constraints,
        ) {
            return MutationResult::Skipped;
        }
        let filler = match self.get_subterm(source) {
            Some(filler) => filler.clone(),
            None => {
                return MutationResult::Skipped;
            },
        };
        proof {
            if old(self)@.well_typed() {
                lemma_trace_subterm_well_typed(old(self)@, source@);
                if reusable(old(self)@, target@, source@, *constraints) {
                    lemma_trace_replaced_well_typed(old(self)@, target@, filler@);
                }
            }
            if old(self)@.is_closed() {
                lemma_trace_subterm_closed(old(self)@, source@);
                lemma_trace_replaced_closed(old(self)@, target@, filler@);
            }
        }
        match self.replace_subterm(target, filler) {
            Ok(_) => MutationResult::Mutated,
            Err(_) => MutationResult::Skipped,
        }
    }

    /// Puts the constant `function` in the place of the constant at
    /// `target`, as far as [`matchable`] allows.
    pub fn replace_match(
        &mut self,
        target: &TracePath,
        function: &Function,
        constraints: &TermConstraints,
    ) -> (r: MutationResult)
        ensures
            if matchable(old(self)@, target@, function@, *constraints) {
                r == MutationResult::Mutated && final(self)@ == old(self)@.replaced(
                    target@,
                    TermModel::Application(function@, Seq::empty()),
                )
            } else {
                r == MutationResult::Skipped && final(self)@ == old(self)@
            },
            old(self)@.well_typed() ==> final(self)@.well_typed(),
            old(self)@.is_closed() ==> final(self)@.is_closed(),
    {
        if !self.is_admitted(target, constraints) || function.arity() != 0 {
            return MutationResult::Skipped;
        }
        let fits = match self.get_subterm(target) {
            Some(Term::Application(constant, arguments)) => {
                arguments.len() == 0 && function.shape.return_type.id
                    == constant.shape.return_type.id && !function.same_symbol(constant)
            },
            _ => false,
        };
        if !fits {
            return MutationResult::Skipped;
        }
        let constant = Term::Application(function.clone(), Vec::new());
        proof {
            if old(self)@.well_typed() {
                lemma_trace_replaced_well_typed(old(self)@, target@, constant@);
            }
            if old(self)@.is_closed() {
                lemma_trace_replaced_closed(old(self)@, target@, constant@);
            }
        }
        match self.replace_subterm(target, constant) {
            Ok(_) => MutationResult::Mutated,
            Err(_) => MutationResult::Skipped,
        }
    }

    /// Puts the argument with index `child` of the application at `parent`
    /// in the place of the application, as far as [`liftable`] allows.
    pub fn remove_and_lift(
        &mut self,
        parent: &TracePath,
        child: usize,
        constraints: &TermConstraints,
    ) -> (r: MutationResult)
        ensures
            if liftable(old(self)@, parent@, child, *constraints) {
                r == MutationResult::Mutated && final(self)@ == old(self)@.replaced(
                    parent@,
                    old(self)@.subterm(parent@)->0->Application_1[child as int],
                )
            } else {
                r == MutationResult::Skipped && final(self)@ == old(self)@
            },
            old(self)@.well_typed() ==> final(self)@.well_typed(),
            old(self)@.is_closed() ==> final(self)@.is_closed(),
    {
        if !self.is_admitted(parent, constraints) {
            return MutationResult::Skipped;
        }
        let lifted = match self.get_subterm(parent) {
            Some(Term::Application(function, arguments)) => {
                proof {
                    crate::term::lemma_models(arguments@);
                }
                if child < arguments.len() && arguments[child].get_type_shape().id
                    == function.shape.return_type.id {
                    arguments[child].clone()
                } else {
                    return MutationResult::Skipped;
                }
            },
            _ => {
                return MutationResult::Skipped;
            },
        };
        proof {
            if old(self)@.well_typed() {
                lemma_trace_subterm_well_typed(old(self)@, parent@);
                let application = old(self)@.subterm(parent@)->0;
                assert(application->Application_1[child as int].well_typed());
                lemma_trace_replaced_well_typed(old(self)@, parent@, lifted@);
            }
            if old(self)@.is_closed() {
                lemma_trace_subterm_closed(old(self)@, parent@);
                let application = old(self)@.subterm(parent@)->0;
                assert(refers_within(
                    application->Application_1[child as int],
                    described(old(self)@.descriptors),
                ));
                lemma_trace_replaced_closed(old(self)@, parent@, lifted@);
            }
        }
        match self.replace_subterm(parent, lifted) {
            Ok(_) => MutationResult::Mutated,
            Err(_) => MutationResult::Skipped,
        }
    }

    /// Lets the subterms at `first` and `second` change places, as far as
    /// [`swappable`] allows.
    pub fn swap(&mut self, first: &TracePath, second: &TracePath, constraints: &TermConstraints) -> (r:
        MutationResult)
        ensures
            if swappable(old(self)@, first@, second@, *constraints) {
                r == MutationResult::Mutated && final(self)@ == old(self)@.replaced(
                    first@,
                    old(self)@.subterm(second@)->0,
                ).replaced(second@, old(self)@.subterm(first@)->0)
            } else {
                r == MutationResult::Skipped && final(self)@ == old(self)@
            },
            old(self)@.well_typed() ==> final(self)@.well_typed(),
            old(self)@.is_closed() ==> final(self)@.is_closed(),
    {
        if !first.is_apart(second) || !self.is_admitted(first, constraints) || !self.is_admitted(
            second,
            constraints,
        ) {
            return MutationResult::Skipped;
        }
        let (one, other) = match (self.get_subterm(first), self.get_subterm(second)) {
            (Some(one), Some(other)) => {
                if one.get_type_shape().id != other.get_type_shape().id {
                    return MutationResult::Skipped;
                }
                (one.clone(), other.clone())
            },
            _ => {
                return MutationResult::Skipped;
            },
        };
        let ghost before = self@;
        proof {
            lemma_trace_replaced_elsewhere(before, first@, other@, second@);
            if before.well_typed() {
                lemma_trace_subterm_well_typed(before, first@);
                lemma_trace_subterm_well_typed(before, second@);
                lemma_trace_replaced_well_typed(before, first@, other@);
                lemma_trace_replaced_well_typed(before.replaced(first@, other@), second@, one@);
            }
            if before.is_closed() {
                lemma_trace_subterm_closed(before, first@);
                lemma_trace_subterm_closed(before, second@);
                lemma_trace_replaced_closed(before, first@, other@);
                lemma_trace_replaced_closed(before.replaced(first@, other@), second@, one@);
            }
        }
        match self.replace_subterm(first, other) {
            Ok(_) => {},
            Err(_) => {
                return MutationResult::Skipped;
            },
        }
        match self.replace_subterm(second, one) {
            Ok(_) => MutationResult::Mutated,
            Err(_) => MutationResult::Skipped,
        }
    }
}

/// A term without variables speaks of no agents at all, and so of none
/// outside any given ones.
pub proof fn lemma_ground_refers_within(term: TermModel, agents: Seq<AgentName>)
    requires
        refers_within(term, Seq::empty()),
    ensures
        refers_within(term, agents),
    decreases term,
{
    match term {
        TermModel::Variable(variable) => {},
        TermModel::Application(_, arguments) => {
            assert forall|i: int| 0 <= i < arguments.len() implies refers_within(
                #[trigger] arguments[i],
                agents,
            ) by {
                lemma_ground_refers_within(arguments[i], agents);
            }
        },
    }
}

/// The subterms of a sequence with one more term are those of the sequence
/// and those of the term.
pub proof fn lemma_preorders_push(terms: Seq<TermModel>, term: TermModel)
    ensures
        preorders(terms.push(term)) == preorders(terms) + term.preorder(),
{
    assert(terms.push(term).drop_last() =~= terms);
}

/// Whether `function` may stand at the root of a term of the type with the
/// id `typ` when `room` nodes are left for its arguments: it returns a value
/// of that type and takes no more than `room` arguments.
pub open spec fn generates(function: FunctionModel, typ: u64, room: nat) -> bool {
    function.shape.return_type.id == typ && function.shape.argument_types.len() <= room
}

/// The indices of the symbols among `functions` that [`generates`] holds
/// of, in rising order.
pub open spec fn generator_indices(functions: Seq<FunctionModel>, typ: u64, room: nat) -> Seq<usize>
    decreases functions.len(),
{
    if functions.len() == 0 {
        Seq::empty()
    } else {
        let front = generator_indices(functions.drop_last(), typ, room);
        if generates(functions.last(), typ, room) {
            front.push((functions.len() - 1) as usize)
        } else {
            front
        }
    }
}

/// Whether no term of the type with the id `typ` can be made up with
/// `budget` nodes: there is no node to spend, or no symbol to begin with.
pub open spec fn never_generated(functions: Seq<FunctionModel>, typ: u64, budget: nat) -> bool {
    budget == 0 || generator_indices(functions, typ, (budget - 1) as nat).len() == 0
}

/// Whether a term of the type with the id `typ` is made up with `budget`
/// nodes whatever is chosen: there is a symbol to begin with, and every
/// symbol that may be chosen is a constant.
pub open spec fn surely_generated(functions: Seq<FunctionModel>, typ: u64, budget: nat) -> bool {
    let indices = generator_indices(functions, typ, (budget - 1) as nat);
    &&& budget > 0
    &&& indices.len() > 0
    &&& forall|k: int|
        0 <= k < indices.len() ==> functions[(#[trigger] indices[k]) as int].shape.argument_types.len()
            == 0
}

/// Whether `term` is made of applications of symbols among `functions` alone.
pub open spec fn made_of(term: TermModel, functions: Seq<FunctionModel>) -> bool
    decreases term,
{
    match term {
        TermModel::Variable(_) => false,
        TermModel::Application(function, arguments) => {
            &&& functions.contains(function)
            &&& forall|i: int|
                0 <= i < arguments.len() ==> made_of(#[trigger] arguments[i], functions)
        },
    }
}

/// The indices that [`generator_indices`] lists are those of the symbols
/// that [`generates`] holds of, all of them.
pub proof fn lemma_generator_indices(functions: Seq<FunctionModel>, typ: u64, room: nat)
    requires
        functions.len() <= usize::MAX,
    ensures
        forall|k: int|
            0 <= k < generator_indices(functions, typ, room).len() ==> {
                let index = #[trigger] generator_indices(functions, typ, room)[k];
                index < functions.len() && generates(functions[index as int], typ, room)
            },
        forall|i: int|
            0 <= i < functions.len() && generates(#[trigger] functions[i], typ, room)
                ==> generator_indices(functions, typ, room).contains(i as usize),
    decreases functions.len(),
{
    if functions.len() > 0 {
        let front = functions.drop_last();
        lemma_generator_indices(front, typ, room);
        let before = generator_indices(front, typ, room);
        let all = generator_indices(functions, typ, room);
        assert forall|k: int| 0 <= k < all.len() implies {
            let index = #[trigger] all[k];
            index < functions.len() && generates(functions[index as int], typ, room)
        } by {
            if k < before.len() {
                assert(all[k] == before[k]);
                assert(front[before[k] as int] == functions[before[k] as int]);
            }
        }
        assert forall|i: int|
            0 <= i < functions.len() && generates(#[trigger] functions[i], typ, room) implies all.contains(
            i as usize,
        ) by {
            if i < front.len() {
                assert(front[i] == functions[i]);
                let k = choose|k: int| 0 <= k < before.len() && before[k] == i as usize;
                assert(all[k] == i as usize);
            } else {
                assert(all[all.len() - 1] == i as usize);
            }
        }
    }
}

/// The indices of the symbols of `signature` that return a value of type
/// `typ` and take no more than `room` arguments, in rising order.
fn generators(signature: &Signature, typ: &TypeShape, room: usize) -> (r: Vec<usize>)
    ensures
        r@ == generator_indices(signature@.functions, typ.id, room as nat),
{
    let mut found: Vec<usize> = Vec::new();
    let mut i: usize = 0;
    let ghost functions = signature@.functions;
    proof {
        assert(functions.take(0) =~= Seq::<FunctionModel>::empty());
    }
    while i < signature.len()
        invariant
            i <= functions.len(),
            functions == signature@.functions,
            found@ == generator_indices(functions.take(i as int), typ.id, room as nat),
        decreases functions.len() - i,
    {
        proof {
            assert(functions.take(i as int + 1).drop_last() =~= functions.take(i as int));
            assert(functions.take(i as int + 1).last() == functions[i as int]);
        }
        match signature.get(i) {
            Some(function) => {
                if function.shape.return_type.id == typ.id && function.arity() <= room {
                    found.push(i);
                }
            },
            None => {},
        }
        i = i + 1;
    }
    proof {
        assert(functions.take(i as int) =~= functions);
    }
    found
}

/// Makes up a term of type `typ` with no more than `budget` nodes from the
/// symbols of `signature`, choosing among them at random.
///
/// The root is chosen among the symbols that return a value of the type
/// and leave a node for each of their arguments; then the arguments are
/// made up in turn, each with what the earlier ones have left over, less a
/// node for each later one. Where there is nothing to choose from, for the
/// root or for an argument, no term is made up. So none is made up where
/// [`never_generated`] holds, one is where [`surely_generated`] holds, and
/// otherwise the choices decide. A term that is made up is well-typed and
/// made of symbols of the signature alone.
pub fn generate(signature: &Signature, typ: &TypeShape, budget: usize, rand: &mut StdRand) -> (r:
    Option<Term>)
    ensures
        r matches Some(term) ==> {
            &&& term@.well_typed()
            &&& term@.type_shape().id == typ.id
            &&& 1 <= term@.size() <= budget
            &&& refers_within(term@, Seq::empty())
            &&& made_of(term@, signature@.functions)
            &&& (term@ matches TermModel::Application(function, _) && generates(
                function,
                typ.id,
                (budget - 1) as nat,
            ))
        },
        never_generated(signature@.functions, typ.id, budget as nat) ==> r is None,
        surely_generated(signature@.functions, typ.id, budget as nat) ==> (r matches Some(term)
            && term@ matches TermModel::Application(_, arguments) && arguments.len() == 0),
    decreases budget,
{
    if budget == 0 || signature.len() == 0 {
        return None;
    }
    let ghost functions = signature@.functions;
    let candidates = generators(signature, typ, budget - 1);
    proof {
        lemma_generator_indices(functions, typ.id, (budget - 1) as nat);
    }
    let chosen = match choose_index(rand, candidates.len()) {
        None => {
            return None;
        },
        Some(k) => candidates[k],
    };
    let function = match signature.get(chosen) {
        Some(function) => function,
        None => {
            return None;
        },
    };
    let arity = function.arity();
    let mut arguments: Vec<Term> = Vec::new();
    let mut used: usize = 0;
    let mut i: usize = 0;
    proof {
        assert(functions[chosen as int] == function@);
    }
    while i < arity
        invariant
            i <= arity,
            functions == signature@.functions,
            surely_generated(functions, typ.id, budget as nat) ==> arity == 0,
            arity == function@.shape.argument_types.len(),
            arity <= budget - 1,
            arguments.len() == i,
            used == preorders(models(arguments@)).len(),
            used + (arity - i) <= budget - 1,
            forall|j: int|
                0 <= j < i ==> {
                    &&& (#[trigger] arguments[j])@.well_typed()
                    &&& arguments[j]@.type_shape().id == function@.shape.argument_types[j].id
                    &&& refers_within(arguments[j]@, Seq::empty())
                    &&& made_of(arguments[j]@, functions)
                },
        decreases arity - i,
    {
        let later = arity - 1 - i;
        let share = budget - 1 - used - later;
        let argument = match generate(signature, &function.shape.argument_types[i], share, rand) {
            Some(argument) => argument,
            None => {
                return None;
            },
        };
        let size = argument.size();
        proof {
            lemma_models(arguments@);
            lemma_preorders_push(models(arguments@), argument@);
            assert(models(arguments@.push(argument)) =~= models(arguments@).push(argument@)) by {
                lemma_models(arguments@.push(argument));
            }
        }
        arguments.push(argument);
        used = used + size;
        i = i + 1;
    }
    let term = Term::Application(function.clone(), arguments);
    proof {
        lemma_models(arguments@);
        assert(functions[chosen as int] == function@);
    }
    Some(term)
}

impl Trace {
    /// Decides [`reusable`].
    pub fn can_reuse(&self, target: &TracePath, source: &TracePath, constraints: &TermConstraints) -> (r:
        bool)
        ensures
            r == reusable(self@, target@, source@, *constraints),
    {
        if target.same(source) || !self.is_admitted(target, constraints) || !self.is_admitted(
            source,
            constraints,
        ) {
            return false;
        }
        match (self.get_subterm(target), self.get_subterm(source)) {
            (Some(hole), Some(filler)) => hole.get_type_shape().id == filler.get_type_shape().id,
            _ => false,
        }
    }

    /// Decides [`swappable`].
    pub fn can_swap(&self, first: &TracePath, second: &TracePath, constraints: &TermConstraints) -> (r:
        bool)
        ensures
            r == swappable(self@, first@, second@, *constraints),
    {
        if !first.is_apart(second) || !self.is_admitted(first, constraints) || !self.is_admitted(
            second,
            constraints,
        ) {
            return false;
        }
        match (self.get_subterm(first), self.get_subterm(second)) {
            (Some(one), Some(other)) => one.get_type_shape().id == other.get_type_shape().id,
            _ => false,
        }
    }

    /// Decides [`matchable`].
    pub fn can_match(&self, target: &TracePath, function: &Function, constraints: &TermConstraints) -> (r:
        bool)
        ensures
            r == matchable(self@, target@, function@, *constraints),
    {
        if !self.is_admitted(target, constraints) || function.arity() != 0 {
            return false;
        }
        match self.get_subterm(target) {
            Some(Term::Application(constant, arguments)) => {
                arguments.len() == 0 && function.shape.return_type.id
                    == constant.shape.return_type.id && !function.same_symbol(constant)
            },
            _ => false,
        }
    }

    /// Decides [`liftable`].
    pub fn can_lift(&self, parent: &TracePath, child: usize, constraints: &TermConstraints) -> (r:
        bool)
        ensures
            r == liftable(self@, parent@, child, *constraints),
    {
        if !self.is_admitted(parent, constraints) {
            return false;
        }
        match self.get_subterm(parent) {
            Some(Term::Application(function, arguments)) => {
                proof {
                    lemma_models(arguments@);
                }
                child < arguments.len() && arguments[child].get_type_shape().id
                    == function.shape.return_type.id
            },
            _ => false,
        }
    }

    /// The number of arguments of the subterm at `position`; none where
    /// there is no subterm or it is a variable.
    pub fn arity_at(&self, position: &TracePath) -> (r: usize)
        ensures
            r == match self@.subterm(position@) {
                Some(TermModel::Application(_, arguments)) => arguments.len(),
                _ => 0,
            },
    {
        match self.get_subterm(position) {
            Some(Term::Application(_, arguments)) => {
                proof {
                    lemma_models(arguments@);
                }
                arguments.len()
            },
            _ => 0,
        }
    }
}

/// Whether no place of `trace` holds a subterm within the limits.
pub open spec fn nothing_admitted(trace: TraceModel, constraints: TermConstraints) -> bool {
    forall|j: int|
        0 <= j < trace.places().len() ==> !admitted(trace, #[trigger] trace.places()[j], constraints)
}

/// Whether no term can be made up from `functions` for any subterm of
/// `trace` within the limits, with the nodes that the limits allow.
pub open spec fn nothing_generated(
    trace: TraceModel,
    functions: Seq<FunctionModel>,
    constraints: TermConstraints,
) -> bool {
    forall|j: int|
        0 <= j < trace.places().len() && admitted(trace, #[trigger] trace.places()[j], constraints)
            ==> never_generated(
            functions,
            trace.subterm(trace.places()[j])->0.type_shape().id,
            constraints.max_term_size as nat,
        )
}

/// Whether a term is surely made up from `functions` for every subterm of
/// `trace` within the limits, with the nodes that the limits allow.
pub open spec fn all_generated(
    trace: TraceModel,
    functions: Seq<FunctionModel>,
    constraints: TermConstraints,
) -> bool {
    forall|j: int|
        0 <= j < trace.places().len() && admitted(trace, #[trigger] trace.places()[j], constraints)
            ==> surely_generated(
            functions,
            trace.subterm(trace.places()[j])->0.type_shape().id,
            constraints.max_term_size as nat,
        )
}

/// Whether no subterm of `trace` may be put in the place of another.
pub open spec fn nothing_reusable(trace: TraceModel, constraints: TermConstraints) -> bool {
    forall|i: int, j: int|
        0 <= i < trace.places().len() && 0 <= j < trace.places().len() ==> !reusable(
            trace,
            #[trigger] trace.places()[i],
            #[trigger] trace.places()[j],
            constraints,
        )
}

/// Whether no two subterms of `trace` may change places.
pub open spec fn nothing_swappable(trace: TraceModel, constraints: TermConstraints) -> bool {
    forall|i: int, j: int|
        0 <= i < trace.places().len() && 0 <= j < trace.places().len() ==> !swappable(
            trace,
            #[trigger] trace.places()[i],
            #[trigger] trace.places()[j],
            constraints,
        )
}

/// Whether no constant of `trace` may become one of `functions`.
pub open spec fn nothing_matchable(
    trace: TraceModel,
    functions: Seq<FunctionModel>,
    constraints: TermConstraints,
) -> bool {
    forall|i: int, j: int|
        0 <= i < trace.places().len() && 0 <= j < functions.len() ==> !matchable(
            trace,
            #[trigger] trace.places()[i],
            #[trigger] functions[j],
            constraints,
        )
}

/// Whether no argument of `trace` may take the place of its application.
pub open spec fn nothing_liftable(trace: TraceModel, constraints: TermConstraints) -> bool {
    forall|i: int, child: usize|
        0 <= i < trace.places().len() ==> !#[trigger] liftable(
            trace,
            trace.places()[i],
            child,
            constraints,
        )
}

/// Which of two mutations a pair of places is looked for.
#[derive(Clone, Copy, Debug, PartialEq, Eq, Structural)]
enum Pairing {
    Reuse,
    Swap,
}

/// Whether the mutation `pairing` applies to the two places.
spec fn pairs_up(
    pairing: Pairing,
    trace: TraceModel,
    first: Place,
    second: Place,
    constraints: TermConstraints,
) -> bool {
    match pairing {
        Pairing::Reuse => reusable(trace, first, second, constraints),
        Pairing::Swap => swappable(trace, first, second, constraints),
    }
}

/// The pairs of indices into `positions` to which the mutation `pairing` applies.
fn eligible_pairs(
    trace: &Trace,
    positions: &Vec<TracePath>,
    constraints: &TermConstraints,
    pairing: Pairing,
) -> (r: Vec<(usize, usize)>)
    ensures
        forall|k: int|
            0 <= k < r.len() ==> {
                &&& (#[trigger] r[k]).0 < positions.len()
                &&& r[k].1 < positions.len()
                &&& pairs_up(
                    pairing,
                    trace@,
                    positions[r[k].0 as int]@,
                    positions[r[k].1 as int]@,
                    *constraints,
                )
            },
        r.len() == 0 ==> forall|i: int, j: int|
            0 <= i < positions.len() && 0 <= j < positions.len() ==> !pairs_up(
                pairing,
                trace@,
                (#[trigger] positions[i])@,
                (#[trigger] positions[j])@,
                *constraints,
            ),
{
    let mut pairs: Vec<(usize, usize)> = Vec::new();
    let mut i: usize = 0;
    while i < positions.len()
        invariant
            i <= positions.len(),
            forall|k: int|
                0 <= k < pairs.len() ==> {
                    &&& (#[trigger] pairs[k]).0 < positions.len()
                    &&& pairs[k].1 < positions.len()
                    &&& pairs_up(
                        pairing,
                        trace@,
                        positions[pairs[k].0 as int]@,
                        positions[pairs[k].1 as int]@,
                        *constraints,
                    )
                },
            pairs.len() == 0 ==> forall|x: int, y: int|
                0 <= x < i && 0 <= y < positions.len() ==> !pairs_up(
                    pairing,
                    trace@,
                    (#[trigger] positions[x])@,
                    (#[trigger] positions[y])@,
                    *constraints,
                ),
        decreases positions.len() - i,
    {
        let mut j: usize = 0;
        while j < positions.len()
            invariant
                i < positions.len(),
                j <= positions.len(),
                forall|k: int|
                    0 <= k < pairs.len() ==> {
                        &&& (#[trigger] pairs[k]).0 < positions.len()
                        &&& pairs[k].1 < positions.len()
                        &&& pairs_up(
                            pairing,
                            trace@,
                            positions[pairs[k].0 as int]@,
                            positions[pairs[k].1 as int]@,
                            *constraints,
                        )
                    },
                pairs.len() == 0 ==> forall|x: int, y: int|
                    0 <= x < i && 0 <= y < positions.len() ==> !pairs_up(
                        pairing,
                        trace@,
                        (#[trigger] positions[x])@,
                        (#[trigger] positions[y])@,
                        *constraints,
                    ),
                pairs.len() == 0 ==> forall|y: int|
                    0 <= y < j ==> !pairs_up(
                        pairing,
                        trace@,
                        positions[i as int]@,
                        (#[trigger] positions[y])@,
                        *constraints,
                    ),
            decreases positions.len() - j,
        {
            let fits = match pairing {
                Pairing::Reuse => trace.can_reuse(&positions[i], &positions[j], constraints),
                Pairing::Swap => trace.can_swap(&positions[i], &positions[j], constraints),
            };
            if fits {
                pairs.push((i, j));
            }
            j = j + 1;
        }
        i = i + 1;
    }
    pairs
}

/// The places of a trace are those that [`Trace::positions`] hands out.
proof fn lemma_positions_are_places(trace: TraceModel, positions: Seq<TracePath>)
    requires
        places(positions) == trace.places(),
    ensures
        positions.len() == trace.places().len(),
        forall|j: int| 0 <= j < positions.len() ==> trace.places()[j] == (#[trigger] positions[j])@,
{
}

/// Repeats a step: a copy of it is put behind it.
#[derive(Debug)]
pub struct RepeatMutator {}

impl RepeatMutator {
    pub fn new() -> (r: RepeatMutator) {
        RepeatMutator {  }
    }

    /// Repeats a step chosen at random; a trace without steps is skipped.
    pub fn mutate(&self, rand: &mut StdRand, trace: &mut Trace) -> (r: MutationResult)
        ensures
            r == MutationResult::Skipped <==> old(trace)@.steps.len() == 0,
            r == MutationResult::Skipped ==> final(trace)@ == old(trace)@,
            r == MutationResult::Mutated ==> exists|index: int|
                0 <= index < old(trace)@.steps.len() && final(trace)@ == #[trigger] repeated(
                    old(trace)@,
                    index,
                ),
            old(trace)@.well_typed() ==> final(trace)@.well_typed(),
            old(trace)@.is_closed() ==> final(trace)@.is_closed(),
    {
        match choose_index(rand, trace.steps.len()) {
            None => MutationResult::Skipped,
            Some(index) => trace.repeat_step(index),
        }
    }
}

/// Puts a copy of one subterm in the place of another of the same type.
#[derive(Debug)]
pub struct ReplaceReuseMutator {
    pub constraints: TermConstraints,
}

impl ReplaceReuseMutator {
    pub fn new(constraints: TermConstraints) -> (r: ReplaceReuseMutator)
        ensures
            r.constraints == constraints,
    {
        ReplaceReuseMutator { constraints }
    }

    /// Chooses at random among the pairs of subterms of which the second
    /// may be put in the place of the first, and does so. Where there is no
    /// such pair, the trace is skipped.
    pub fn mutate(&self, rand: &mut StdRand, trace: &mut Trace) -> (r: MutationResult)
        ensures
            r == MutationResult::Skipped <==> nothing_reusable(old(trace)@, self.constraints),
            r == MutationResult::Skipped ==> final(trace)@ == old(trace)@,
            r == MutationResult::Mutated ==> exists|target: Place, source: Place|
                #[trigger] reusable(old(trace)@, target, source, self.constraints) && final(trace)@
                    == old(trace)@.replaced(target, old(trace)@.subterm(source)->0),
            old(trace)@.well_typed() ==> final(trace)@.well_typed(),
            old(trace)@.is_closed() ==> final(trace)@.is_closed(),
    {
        let positions = trace.positions();
        let pairs = eligible_pairs(trace, &positions, &self.constraints, Pairing::Reuse);
        proof {
            lemma_positions_are_places(trace@, positions@);
        }
        let (target, source) = match choose_index(rand, pairs.len()) {
            None => {
                return MutationResult::Skipped;
            },
            Some(k) => pairs[k],
        };
        trace.replace_reuse(&positions[target], &positions[source], &self.constraints)
    }
}

/// Exchanges a constant for another constant of the same type.
#[derive(Debug)]
pub struct ReplaceMatchMutator<'a> {
    pub constraints: TermConstraints,
    pub signature: &'a Signature,
}

impl<'a> ReplaceMatchMutator<'a> {
    pub fn new(constraints: TermConstraints, signature: &'a Signature) -> (r: ReplaceMatchMutator<
        'a,
    >)
        ensures
            r.constraints == constraints,
            r.signature == signature,
    {
        ReplaceMatchMutator { constraints, signature }
    }

    /// Chooses at random among the pairs of a constant of the trace and a
    /// symbol of the signature that may stand for it, and exchanges the one
    /// for the other. Where there is no such pair, the trace is skipped.
    pub fn mutate(&self, rand: &mut StdRand, trace: &mut Trace) -> (r: MutationResult)
        ensures
            r == MutationResult::Skipped <==> nothing_matchable(
                old(trace)@,
                self.signature@.functions,
                self.constraints,
            ),
            r == MutationResult::Skipped ==> final(trace)@ == old(trace)@,
            r == MutationResult::Mutated ==> exists|target: Place, index: int|
                0 <= index < self.signature@.functions.len() && #[trigger] matchable(
                    old(trace)@,
                    target,
                    self.signature@.functions[index],
                    self.constraints,
                ) && final(trace)@ == old(trace)@.replaced(
                    target,
                    TermModel::Application(self.signature@.functions[index], Seq::empty()),
                ),
            old(trace)@.well_typed() ==> final(trace)@.well_typed(),
            old(trace)@.is_closed() ==> final(trace)@.is_closed(),
    {
        let positions = trace.positions();
        proof {
            lemma_positions_are_places(trace@, positions@);
        }
        let ghost functions = self.signature@.functions;
        let mut pairs: Vec<(usize, usize)> = Vec::new();
        let mut i: usize = 0;
        while i < positions.len()
            invariant
                i <= positions.len(),
                functions == self.signature@.functions,
                forall|k: int|
                    0 <= k < pairs.len() ==> {
                        &&& (#[trigger] pairs[k]).0 < positions.len()
                        &&& pairs[k].1 < functions.len()
                        &&& matchable(
                            trace@,
                            positions[pairs[k].0 as int]@,
                            functions[pairs[k].1 as int],
                            self.constraints,
                        )
                    },
                pairs.len() == 0 ==> forall|x: int, y: int|
                    0 <= x < i && 0 <= y < functions.len() ==> !matchable(
                        trace@,
                        (#[trigger] positions[x])@,
                        #[trigger] functions[y],
                        self.constraints,
                    ),
            decreases positions.len() - i,
        {
            let mut j: usize = 0;
            while j < self.signature.len()
                invariant
                    i < positions.len(),
                    j <= functions.len(),
                    functions == self.signature@.functions,
                    forall|k: int|
                        0 <= k < pairs.len() ==> {
                            &&& (#[trigger] pairs[k]).0 < positions.len()
                            &&& pairs[k].1 < functions.len()
                            &&& matchable(
                                trace@,
                                positions[pairs[k].0 as int]@,
                                functions[pairs[k].1 as int],
                                self.constraints,
                            )
                        },
                    pairs.len() == 0 ==> forall|x: int, y: int|
                        0 <= x < i && 0 <= y < functions.len() ==> !matchable(
                            trace@,
                            (#[trigger] positions[x])@,
                            #[trigger] functions[y],
                            self.constraints,
                        ),
                    pairs.len() == 0 ==> forall|y: int|
                        0 <= y < j ==> !matchable(
                            trace@,
                            positions[i as int]@,
                            #[trigger] functions[y],
                            self.constraints,
                        ),
                decreases functions.len() - j,
            {
                match self.signature.get(j) {
                    Some(function) => {
                        if trace.can_match(&positions[i], function, &self.constraints) {
                            pairs.push((i, j));
                        }
                    },
                    None => {},
                }
                j = j + 1;
            }
            i = i + 1;
        }
        let (target, chosen) = match choose_index(rand, pairs.len()) {
            None => {
                return MutationResult::Skipped;
            },
            Some(k) => pairs[k],
        };
        match self.signature.get(chosen) {
            Some(function) => trace.replace_match(&positions[target], function, &self.constraints),
            None => MutationResult::Skipped,
        }
    }
}

/// Takes an application away and puts one of its arguments in its place.
#[derive(Debug)]
pub struct RemoveAndLiftMutator {
    pub constraints: TermConstraints,
}

impl RemoveAndLiftMutator {
    pub fn new(constraints: TermConstraints) -> (r: RemoveAndLiftMutator)
        ensures
            r.constraints == constraints,
    {
        RemoveAndLiftMutator { constraints }
    }

    /// Chooses at random among the arguments that may take the place of
    /// the application they stand in, and puts the argument there. Where
    /// there is no such argument, the trace is skipped.
    pub fn mutate(&self, rand: &mut StdRand, trace: &mut Trace) -> (r: MutationResult)
        ensures
            r == MutationResult::Skipped <==> nothing_liftable(old(trace)@, self.constraints),
            r == MutationResult::Skipped ==> final(trace)@ == old(trace)@,
            r == MutationResult::Mutated ==> exists|parent: Place, child: usize|
                #[trigger] liftable(old(trace)@, parent, child, self.constraints) && final(trace)@
                    == old(trace)@.replaced(
                    parent,
                    old(trace)@.subterm(parent)->0->Application_1[child as int],
                ),
            old(trace)@.well_typed() ==> final(trace)@.well_typed(),
            old(trace)@.is_closed() ==> final(trace)@.is_closed(),
    {
        let positions = trace.positions();
        proof {
            lemma_positions_are_places(trace@, positions@);
        }
        let mut pairs: Vec<(usize, usize)> = Vec::new();
        let mut i: usize = 0;
        while i < positions.len()
            invariant
                i <= positions.len(),
                forall|k: int|
                    0 <= k < pairs.len() ==> {
                        &&& (#[trigger] pairs[k]).0 < positions.len()
                        &&& liftable(
                            trace@,
                            positions[pairs[k].0 as int]@,
                            pairs[k].1,
                            self.constraints,
                        )
                    },
                pairs.len() == 0 ==> forall|x: int, child: usize|
                    0 <= x < i ==> !#[trigger] liftable(
                        trace@,
                        positions[x]@,
                        child,
                        self.constraints,
                    ),
            decreases positions.len() - i,
        {
            let arity = trace.arity_at(&positions[i]);
            let mut child: usize = 0;
            while child < arity
                invariant
                    i < positions.len(),
                    child <= arity,
                    arity == match trace@.subterm(positions[i as int]@) {
                        Some(TermModel::Application(_, arguments)) => arguments.len(),
                        _ => 0,
                    },
                    forall|k: int|
                        0 <= k < pairs.len() ==> {
                            &&& (#[trigger] pairs[k]).0 < positions.len()
                            &&& liftable(
                                trace@,
                                positions[pairs[k].0 as int]@,
                                pairs[k].1,
                                self.constraints,
                            )
                        },
                    pairs.len() == 0 ==> forall|x: int, other: usize|
                        0 <= x < i ==> !#[trigger] liftable(
                            trace@,
                            positions[x]@,
                            other,
                            self.constraints,
                        ),
                    pairs.len() == 0 ==> forall|other: usize|
                        other < child ==> !#[trigger] liftable(
                            trace@,
                            positions[i as int]@,
                            other,
                            self.constraints,
                        ),
                decreases arity - child,
            {
                if trace.can_lift(&positions[i], child, &self.constraints) {
                    pairs.push((i, child));
                }
                child = child + 1;
            }
            i = i + 1;
        }
        let (parent, child) = match choose_index(rand, pairs.len()) {
            None => {
                return MutationResult::Skipped;
            },
            Some(k) => pairs[k],
        };
        trace.remove_and_lift(&positions[parent], child, &self.constraints)
    }
}

/// Lets two subterms of the same type change places.
#[derive(Debug)]
pub struct SwapMutator {
    pub constraints: TermConstraints,
}

impl SwapMutator {
    pub fn new(constraints: TermConstraints) -> (r: SwapMutator)
        ensures
            r.constraints == constraints,
    {
        SwapMutator { constraints }
    }

    /// Chooses at random among the pairs of subterms that may change
    /// places, and lets them do so. Where there is no such pair, the trace
    /// is skipped.
    pub fn mutate(&self, rand: &mut StdRand, trace: &mut Trace) -> (r: MutationResult)
        ensures
            r == MutationResult::Skipped <==> nothing_swappable(old(trace)@, self.constraints),
            r == MutationResult::Skipped ==> final(trace)@ == old(trace)@,
            r == MutationResult::Mutated ==> exists|first: Place, second: Place|
                #[trigger] swappable(old(trace)@, first, second, self.constraints) && final(trace)@
                    == old(trace)@.replaced(first, old(trace)@.subterm(second)->0).replaced(
                    second,
                    old(trace)@.subterm(first)->0,
                ),
            old(trace)@.well_typed() ==> final(trace)@.well_typed(),
            old(trace)@.is_closed() ==> final(trace)@.is_closed(),
    {
        let positions = trace.positions();
        let pairs = eligible_pairs(trace, &positions, &self.constraints, Pairing::Swap);
        proof {
            lemma_positions_are_places(trace@, positions@);
        }
        let (first, second) = match choose_index(rand, pairs.len()) {
            None => {
                return MutationResult::Skipped;
            },
            Some(k) => pairs[k],
        };
        trace.swap(&positions[first], &positions[second], &self.constraints)
    }
}

/// The indices of the places among `positions` that hold a subterm within the limits.
fn admitted_indices(trace: &Trace, positions: &Vec<TracePath>, constraints: &TermConstraints) -> (r:
    Vec<usize>)
    ensures
        forall|k: int|
            0 <= k < r.len() ==> (#[trigger] r[k]) < positions.len() && admitted(
                trace@,
                positions[r[k] as int]@,
                *constraints,
            ),
        r.len() == 0 ==> forall|j: int|
            0 <= j < positions.len() ==> !admitted(trace@, (#[trigger] positions[j])@, *constraints),
{
    let mut found: Vec<usize> = Vec::new();
    let mut i: usize = 0;
    while i < positions.len()
        invariant
            i <= positions.len(),
            forall|k: int|
                0 <= k < found.len() ==> (#[trigger] found[k]) < positions.len() && admitted(
                    trace@,
                    positions[found[k] as int]@,
                    *constraints,
                ),
            found.len() == 0 ==> forall|j: int|
                0 <= j < i ==> !admitted(trace@, (#[trigger] positions[j])@, *constraints),
        decreases positions.len() - i,
    {
        if trace.is_admitted(&positions[i], constraints) {
            found.push(i);
        }
        i = i + 1;
    }
    found
}

/// Puts a term that is made up from the signature in the place of a subterm.
#[derive(Debug)]
pub struct GenerateMutator<'a> {
    pub constraints: TermConstraints,
    pub signature: &'a Signature,
}

impl<'a> GenerateMutator<'a> {
    pub fn new(constraints: TermConstraints, signature: &'a Signature) -> (r: GenerateMutator<'a>)
        ensures
            r.constraints == constraints,
            r.signature == signature,
    {
        GenerateMutator { constraints, signature }
    }

    /// Chooses a subterm within the limits at random, makes up a term of its
    /// type and no more nodes than the limits allow, and puts it in the
    /// place of the subterm. Where there is nothing to choose from, or no
    /// term is made up, the trace is skipped.
    ///
    /// So the trace is skipped where no term can be made up for any subterm
    /// within the limits, and is mutated where there is such a subterm and a
    /// term is surely made up for each of them; otherwise the choices decide.
    pub fn mutate(&self, rand: &mut StdRand, trace: &mut Trace) -> (r: MutationResult)
        ensures
            r == MutationResult::Skipped ==> final(trace)@ == old(trace)@,
            r == MutationResult::Mutated ==> exists|target: Place, term: TermModel|
                #[trigger] placeable(old(trace)@, target, term, self.constraints)
                    && term.well_typed() && made_of(term, self.signature@.functions)
                    && final(trace)@ == old(trace)@.replaced(target, term),
            old(trace)@.well_typed() ==> final(trace)@.well_typed(),
            old(trace)@.is_closed() ==> final(trace)@.is_closed(),
            nothing_generated(old(trace)@, self.signature@.functions, self.constraints) ==> r
                == MutationResult::Skipped,
            !nothing_admitted(old(trace)@, self.constraints) && all_generated(
                old(trace)@,
                self.signature@.functions,
                self.constraints,
            ) ==> r == MutationResult::Mutated,
    {
        let positions = trace.positions();
        let candidates = admitted_indices(trace, &positions, &self.constraints);
        proof {
            lemma_positions_are_places(trace@, positions@);
        }
        let target = match choose_index(rand, candidates.len()) {
            None => {
                return MutationResult::Skipped;
            },
            Some(k) => candidates[k],
        };
        proof {
            assert(admitted(trace@, trace@.places()[target as int], self.constraints));
        }
        let typ = match trace.get_subterm(&positions[target]) {
            Some(term) => term.get_type_shape().clone(),
            None => {
                return MutationResult::Skipped;
            },
        };
        let term = match generate(self.signature, &typ, self.constraints.max_term_size, rand) {
            Some(term) => term,
            None => {
                return MutationResult::Skipped;
            },
        };
        let ghost made = term@;
        proof {
            lemma_ground_refers_within(made, described(trace@.descriptors));
        }
        let r = trace.place(&positions[target], term, &self.constraints);
        proof {
            assert(placeable(old(trace)@, positions[target as int]@, made, self.constraints));
        }
        r
    }
}

} // verus!
