//! Places in a trace, the limits on the subterms that mutations may touch,
//! and the source of random choices.

use crate::error::Error;
use crate::term::{
    borrowed_models, clone_path, count_named, lemma_replaced_well_typed,
    lemma_subterm_well_typed, optional_model, Term, TermModel,
};
use crate::agent::AgentName;
use crate::trace::{described, refers_within, Action, ActionModel, StepModel, Trace, TraceModel};
use libafl_bolts::rands::Rand;
use libafl_bolts::rands::StdRand;
use std::num::NonZeroUsize;
use vstd::prelude::*;
use vstd::string::StringExecFns;

verus! {

/// The random number generator `RomuDuoJrRand` of libafl_bolts, which is its
/// `StdRand`. Nothing is said of what is inside.
#[verifier::external_type_specification]
#[verifier::external_body]
pub struct ExRomuDuoJrRand(libafl_bolts::rands::RomuDuoJrRand);

/// `Rand::below` of libafl_bolts on its `StdRand`: some number below the
/// bound, which must not be zero. Which number it is depends on the state of
/// the generator, of which nothing is said.
#[verifier::external_body]
pub(crate) fn below(rand: &mut StdRand, bound: usize) -> (r: usize)
    requires
        bound > 0,
    ensures
        r < bound,
{
    rand.below(NonZeroUsize::new(bound).unwrap())
}

/// A random number below `bound`, if there is one.
pub fn choose_index(rand: &mut StdRand, bound: usize) -> (r: Option<usize>)
    ensures
        match r {
            Some(index) => index < bound,
            None => bound == 0,
        },
{
    if bound == 0 {
        None
    } else {
        Some(below(rand, bound))
    }
}

/// What a mutation did to a trace.
#[derive(Clone, Copy, Debug, PartialEq, Eq, Structural)]
pub enum MutationResult {
    /// The trace was changed.
    Mutated,
    /// The trace is as it was.
    Skipped,
}

/// The sizes of the subterms that a mutation may take or put.
#[derive(Clone, Copy, Debug, PartialEq, Eq, Structural)]
pub struct TermConstraints {
    pub min_term_size: usize,
    pub max_term_size: usize,
}

impl TermConstraints {
    /// Whether the size of `term` is within the limits.
    pub open spec fn admits(self, term: TermModel) -> bool {
        self.min_term_size <= term.size() <= self.max_term_size
    }

    /// Decides [`TermConstraints::admits`].
    pub fn allows(&self, term: &Term) -> (r: bool)
        ensures
            r == self.admits(term@),
    {
        let size = term.size();
        self.min_term_size <= size && size <= self.max_term_size
    }
}

impl Default for TermConstraints {
    fn default() -> (r: TermConstraints)
        ensures
            r == (TermConstraints { min_term_size: 0, max_term_size: 300 }),
    {
        TermConstraints { min_term_size: 0, max_term_size: 300 }
    }
}

/// A place in a trace: a step and a path into its recipe.
#[derive(Debug)]
pub struct TracePath {
    pub step: usize,
    pub path: Vec<usize>,
}

/// A [`TracePath`] as plain mathematics.
pub struct Place {
    pub step: usize,
    pub path: Seq<usize>,
}

impl View for TracePath {
    type V = Place;

    open spec fn view(&self) -> Place {
        Place { step: self.step, path: self.path@ }
    }
}

impl Clone for TracePath {
    fn clone(&self) -> (r: TracePath)
        ensures
            r@ == self@,
    {
        TracePath { step: self.step, path: clone_path(&self.path) }
    }
}

/// The models of a sequence of places.
pub open spec fn places(positions: Seq<TracePath>) -> Seq<Place> {
    Seq::new(positions.len(), |i: int| positions[i]@)
}

/// Whether `first` is the beginning of `second`.
pub open spec fn is_prefix(first: Seq<usize>, second: Seq<usize>) -> bool {
    first.len() <= second.len() && second.take(first.len() as int) == first
}

/// Whether two places are apart: in different steps, or in one step with
/// neither path the beginning of the other, so that neither subterm holds
/// the other.
pub open spec fn apart(first: Place, second: Place) -> bool {
    first.step != second.step || (!is_prefix(first.path, second.path) && !is_prefix(
        second.path,
        first.path,
    ))
}

/// The paths of `paths` as places of the step `step`.
pub open spec fn in_step(step: usize, paths: Seq<Seq<usize>>) -> Seq<Place> {
    Seq::new(paths.len(), |i: int| Place { step, path: paths[i] })
}

/// The places of the subterms of the recipes of `steps`, step by step, each
/// recipe's in pre-order.
pub open spec fn places_of(steps: Seq<StepModel>) -> Seq<Place>
    decreases steps.len(),
{
    if steps.len() == 0 {
        Seq::empty()
    } else {
        places_of(steps.drop_last()) + match steps.last().action {
            ActionModel::Input(recipe) => in_step((steps.len() - 1) as usize, recipe.paths()),
            ActionModel::Output => Seq::empty(),
        }
    }
}

impl TraceModel {
    /// The recipe of the step with the given index, if it is an input step.
    pub open spec fn recipe(self, step: int) -> Option<TermModel> {
        if 0 <= step < self.steps.len() {
            match self.steps[step].action {
                ActionModel::Input(recipe) => Some(recipe),
                ActionModel::Output => None,
            }
        } else {
            None
        }
    }

    /// The subterm at a place, if there is one.
    pub open spec fn subterm(self, place: Place) -> Option<TermModel> {
        match self.recipe(place.step as int) {
            Some(recipe) => recipe.subterm(place.path),
            None => None,
        }
    }

    /// The trace with the subterm at `place` exchanged for `new`; the trace
    /// itself where the place does not exist.
    pub open spec fn replaced(self, place: Place, new: TermModel) -> TraceModel {
        match self.recipe(place.step as int) {
            Some(recipe) => TraceModel {
                steps: self.steps.update(
                    place.step as int,
                    StepModel {
                        action: ActionModel::Input(recipe.replaced(place.path, new)),
                        ..self.steps[place.step as int]
                    },
                ),
                ..self
            },
            None => self,
        }
    }

    /// The places of all subterms of all recipes.
    pub open spec fn places(self) -> Seq<Place> {
        places_of(self.steps)
    }
}

/// The places of one step of a sequence are among the places of all of them.
pub proof fn lemma_places_of_hold(steps: Seq<StepModel>, step: int, number: int)
    requires
        0 <= step < steps.len(),
        steps.len() <= usize::MAX,
        steps[step].action matches ActionModel::Input(recipe) && 0 <= number < recipe.paths().len(),
    ensures
        places_of(steps).contains(
            Place { step: step as usize, path: steps[step].action->Input_0.paths()[number] },
        ),
    decreases steps.len(),
{
    let front = steps.drop_last();
    let wanted = Place { step: step as usize, path: steps[step].action->Input_0.paths()[number] };
    if step == steps.len() - 1 {
        assert(places_of(steps)[places_of(front).len() + number] == wanted);
    } else {
        lemma_places_of_hold(front, step, number);
        let found = choose|k: int| 0 <= k < places_of(front).len() && places_of(front)[k] == wanted;
        assert(places_of(steps)[found] == wanted);
    }
}

/// Every place that holds a subterm is among the places of the trace, as
/// long as the steps and the nodes of a recipe can be counted.
pub proof fn lemma_place_is_listed(trace: TraceModel, place: Place)
    requires
        trace.subterm(place) is Some,
        trace.steps.len() <= usize::MAX,
        trace.recipe(place.step as int)->0.size() <= usize::MAX,
    ensures
        trace.places().contains(place),
{
    let recipe = trace.recipe(place.step as int)->0;
    crate::term::lemma_path_is_listed(recipe, place.path);
    let number = choose|k: int| 0 <= k < recipe.paths().len() && recipe.paths()[k] == place.path;
    lemma_places_of_hold(trace.steps, place.step as int, number);
}

/// A well-typed trace stays well-typed when a subterm of a recipe is
/// exchanged for a well-typed term of the same type.
pub proof fn lemma_trace_replaced_well_typed(trace: TraceModel, place: Place, new: TermModel)
    requires
        trace.well_typed(),
        new.well_typed(),
        trace.subterm(place) matches Some(hole) && hole.type_shape().id == new.type_shape().id,
    ensures
        trace.replaced(place, new).well_typed(),
{
    let recipe = trace.recipe(place.step as int)->0;
    lemma_replaced_well_typed(recipe, place.path, new);
    let after = trace.replaced(place, new);
}

/// A subterm speaks of no other agents than the term it stands in.
pub proof fn lemma_subterm_refers_within(term: TermModel, path: Seq<usize>, agents: Seq<AgentName>)
    requires
        refers_within(term, agents),
    ensures
        term.subterm(path) matches Some(subterm) ==> refers_within(subterm, agents),
    decreases path.len(),
{
    if path.len() > 0 {
        match term {
            TermModel::Variable(_) => {},
            TermModel::Application(_, arguments) => {
                if path[0] < arguments.len() {
                    lemma_subterm_refers_within(arguments[path[0] as int], path.skip(1), agents);
                }
            },
        }
    }
}

/// A term speaks of no new agents when one of its subterms is exchanged
/// for a term that speaks of none.
pub proof fn lemma_replaced_refers_within(
    term: TermModel,
    path: Seq<usize>,
    new: TermModel,
    agents: Seq<AgentName>,
)
    requires
        refers_within(term, agents),
        refers_within(new, agents),
    ensures
        refers_within(term.replaced(path, new), agents),
    decreases path.len(),
{
    if path.len() > 0 {
        match term {
            TermModel::Variable(_) => {},
            TermModel::Application(_, arguments) => {
                if path[0] < arguments.len() {
                    let index = path[0] as int;
                    lemma_replaced_refers_within(arguments[index], path.skip(1), new, agents);
                }
            },
        }
    }
}

/// A closed trace stays closed when a subterm of a recipe is exchanged for
/// a term that speaks of agents of the trace only.
pub proof fn lemma_trace_replaced_closed(trace: TraceModel, place: Place, new: TermModel)
    requires
        trace.is_closed(),
        refers_within(new, described(trace.descriptors)),
    ensures
        trace.replaced(place, new).is_closed(),
{
    if trace.recipe(place.step as int) is Some {
        let recipe = trace.recipe(place.step as int)->0;
        lemma_replaced_refers_within(recipe, place.path, new, described(trace.descriptors));
    }
}

/// A subterm of a recipe of a closed trace speaks of agents of the trace only.
pub proof fn lemma_trace_subterm_closed(trace: TraceModel, place: Place)
    requires
        trace.is_closed(),
    ensures
        trace.subterm(place) matches Some(subterm) ==> refers_within(
            subterm,
            described(trace.descriptors),
        ),
{
    if trace.recipe(place.step as int) is Some {
        let recipe = trace.recipe(place.step as int)->0;
        lemma_subterm_refers_within(recipe, place.path, described(trace.descriptors));
    }
}

/// A subterm of a recipe of a well-typed trace is well-typed.
pub proof fn lemma_trace_subterm_well_typed(trace: TraceModel, place: Place)
    requires
        trace.well_typed(),
    ensures
        trace.subterm(place) matches Some(subterm) ==> subterm.well_typed(),
{
    if trace.recipe(place.step as int) is Some {
        lemma_subterm_well_typed(trace.recipe(place.step as int)->0, place.path);
    }
}

/// Whether `first` is the beginning of `second`.
pub fn path_is_prefix(first: &Vec<usize>, second: &Vec<usize>) -> (r: bool)
    ensures
        r == is_prefix(first@, second@),
{
    if first.len() > second.len() {
        return false;
    }
    let mut i: usize = 0;
    while i < first.len()
        invariant
            i <= first.len() <= second.len(),
            second@.take(i as int) == first@.take(i as int),
        decreases first.len() - i,
    {
        if first[i] != second[i] {
            return false;
        }
        i = i + 1;
    }
    assert(first@.take(first.len() as int) =~= first@);
    true
}

impl TracePath {
    /// Whether both are the same place.
    pub fn same(&self, other: &TracePath) -> (r: bool)
        ensures
            r == (self@ == other@),
    {
        let r = self.step == other.step && self.path.len() == other.path.len() && path_is_prefix(
            &self.path,
            &other.path,
        );
        proof {
            if self@ == other@ {
                assert(other.path@.take(self.path.len() as int) =~= other.path@);
            }
        }
        r
    }

    /// Whether the two places are apart.
    pub fn is_apart(&self, other: &TracePath) -> (r: bool)
        ensures
            r == apart(self@, other@),
    {
        self.step != other.step || (!path_is_prefix(&self.path, &other.path) && !path_is_prefix(
            &other.path,
            &self.path,
        ))
    }
}

impl Trace {
    /// The recipe of the step with the given index, if it is an input step.
    pub fn recipe(&self, step: usize) -> (r: Option<&Term>)
        ensures
            optional_model(r) == self@.recipe(step as int),
    {
        if step >= self.steps.len() {
            return None;
        }
        match &self.steps[step].action {
            Action::Input(input) => Some(&input.recipe),
            Action::Output(_) => None,
        }
    }

    /// The subterm at `position`, if there is one.
    pub fn get_subterm(&self, position: &TracePath) -> (r: Option<&Term>)
        ensures
            optional_model(r) == self@.subterm(position@),
    {
        match self.recipe(position.step) {
            Some(recipe) => recipe.get_at_path(&position.path),
            None => None,
        }
    }

    /// Exchanges the subterm at `position` for `subterm`.
    ///
    /// Fails, and leaves the trace as it is, where there is no subterm at
    /// `position` (`Error::Missing`) or where `subterm` is of another type
    /// than the subterm it is to stand for (`Error::Type`).
    pub fn replace_subterm(&mut self, position: &TracePath, subterm: Term) -> (r: Result<(), Error>)
        ensures
            match old(self)@.subterm(position@) {
                None => r == Err::<(), Error>(Error::Missing) && final(self)@ == old(self)@,
                Some(hole) => if hole.type_shape().id == subterm@.type_shape().id {
                    r == Ok::<(), Error>(()) && final(self)@ == old(self)@.replaced(
                        position@,
                        subterm@,
                    )
                } else {
                    r == Err::<(), Error>(Error::Type) && final(self)@ == old(self)@
                },
            },
    {
        if position.step >= self.steps.len() {
            return Err(Error::Missing);
        }
        let r = match &mut self.steps[position.step].action {
            Action::Input(input) => input.recipe.replace_at_path(&position.path, subterm),
            Action::Output(_) => Err(Error::Missing),
        };
        proof {
            if r is Ok {
                assert(self@.steps =~= old(self)@.replaced(position@, subterm@).steps);
            } else {
                assert(self@.steps =~= old(self)@.steps);
            }
        }
        match r {
            Ok(_) => Ok(()),
            Err(error) => Err(error),
        }
    }

    /// The places of all subterms of all recipes, step by step, each
    /// recipe's in pre-order.
    pub fn positions(&self) -> (r: Vec<TracePath>)
        ensures
            places(r@) == self@.places(),
    {
        let mut all: Vec<TracePath> = Vec::new();
        let mut step: usize = 0;
        while step < self.steps.len()
            invariant
                step <= self.steps.len(),
                places(all@) == places_of(self@.steps.take(step as int)),
            decreases self.steps.len() - step,
        {
            proof {
                let steps = self@.steps;
                assert(steps.take(step as int + 1).drop_last() =~= steps.take(step as int));
            }
            match &self.steps[step].action {
                Action::Output(_) => {},
                Action::Input(input) => {
                    let mut paths = input.recipe.paths();
                    let ghost wanted = input.recipe@.paths();
                    let ghost start = places(all@);
                    let count = paths.len();
                    let mut reversed: Vec<Vec<usize>> = Vec::new();
                    while paths.len() > 0
                        invariant
                            paths.len() + reversed.len() == count,
                            count == wanted.len(),
                            forall|j: int| 0 <= j < paths.len() ==> paths[j]@ == wanted[j],
                            forall|j: int|
                                0 <= j < reversed.len() ==> reversed[j]@ == wanted[count - 1 - j],
                        decreases paths.len(),
                    {
                        let path = paths.pop().unwrap();
                        reversed.push(path);
                    }
                    let mut i: usize = 0;
                    while reversed.len() > 0
                        invariant
                            i + reversed.len() == count,
                            count == wanted.len(),
                            forall|j: int|
                                0 <= j < reversed.len() ==> reversed[j]@ == wanted[count - 1 - j],
                            places(all@) == start + in_step(step, wanted.take(i as int)),
                        decreases reversed.len(),
                    {
                        let path = reversed.pop().unwrap();
                        let ghost before = places(all@);
                        let ghost place = Place { step, path: path@ };
                        all.push(TracePath { step, path });
                        proof {
                            assert(places(all@) =~= before.push(place));
                        }
                        i = i + 1;
                    }
                },
            }
            step = step + 1;
        }
        assert(self@.steps.take(self.steps.len() as int) =~= self@.steps);
        all
    }
}

/// `count`, but no more than the largest number of sixteen bits.
pub open spec fn capped(count: nat) -> u16 {
    if count <= u16::MAX {
        count as u16
    } else {
        u16::MAX
    }
}

/// How many applications of the function called `name` the recipes of `steps` hold.
pub open spec fn occurrences_in(steps: Seq<StepModel>, name: Seq<char>) -> nat
    decreases steps.len(),
{
    if steps.len() == 0 {
        0
    } else {
        occurrences_in(steps.drop_last(), name) + match steps.last().action {
            ActionModel::Input(recipe) => recipe.occurrences(name),
            ActionModel::Output => 0,
        }
    }
}

/// Counts the applications of the function called `find_name` in `term`;
/// the count stops at the largest number of sixteen bits.
pub fn count_functions_term(term: &Term, find_name: &str) -> (r: u16)
    ensures
        r == capped(term@.occurrences(find_name@)),
{
    let wanted = String::from_str(find_name);
    let nodes = term.traverse_from_root();
    let ghost all = term@.preorder();
    let mut extension_appends: u16 = 0;
    let mut i: usize = 0;
    while i < nodes.len()
        invariant
            i <= nodes.len(),
            wanted@ == find_name@,
            all == borrowed_models(nodes@),
            extension_appends == capped(count_named(all.take(i as int), find_name@)),
        decreases nodes.len() - i,
    {
        proof {
            assert(all.take(i as int + 1).drop_last() =~= all.take(i as int));
        }
        if nodes[i].is_named(&wanted) {
            if extension_appends < u16::MAX {
                extension_appends = extension_appends + 1;
            }
        }
        i = i + 1;
    }
    proof {
        assert(all.take(nodes.len() as int) =~= all);
    }
    extension_appends
}

/// Counts the applications of the function called `find_name` in the
/// recipes of `trace`; the count stops at the largest number of sixteen bits.
pub fn count_functions(trace: &Trace, find_name: &str) -> (r: u16)
    ensures
        r == capped(occurrences_in(trace@.steps, find_name@)),
{
    let mut total: u16 = 0;
    let mut i: usize = 0;
    while i < trace.steps.len()
        invariant
            i <= trace.steps.len(),
            total == capped(occurrences_in(trace@.steps.take(i as int), find_name@)),
        decreases trace.steps.len() - i,
    {
        proof {
            let steps = trace@.steps;
            assert(steps.take(i as int + 1).drop_last() =~= steps.take(i as int));
        }
        let found = match &trace.steps[i].action {
            Action::Input(input) => count_functions_term(&input.recipe, find_name),
            Action::Output(_) => 0,
        };
        total = if found > u16::MAX - total {
            u16::MAX
        } else {
            total + found
        };
        i = i + 1;
    }
    proof {
        assert(trace@.steps.take(trace.steps.len() as int) =~= trace@.steps);
    }
    total
}

} // verus!
