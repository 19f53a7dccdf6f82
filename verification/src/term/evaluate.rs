//! Evaluation: from a term to the value it stands for.

use crate::error::{Error, FnError};
use crate::term::dynamic_function::{
    dynamic_result, make_dynamic, value_models, FunctionLibrary, Value, ValueModel,
};
use crate::term::{lemma_models, Term, TermModel};
use crate::trace::{find_variable, KnowledgeModel, TraceContext};
use vstd::prelude::*;

verus! {

/// How the failure of a dynamic call is reported by an evaluation: a wrong
/// number or type of arguments as a type error, the function's own error as such.
pub open spec fn evaluation_error(error: FnError) -> Error {
    match error {
        FnError::Unknown(reason) => Error::Function(FnError::Unknown(reason)),
        _ => Error::Type,
    }
}

/// The values of the terms of a sequence, or the error of the first term that has none.
pub open spec fn evaluated_all<L: FunctionLibrary>(
    terms: Seq<TermModel>,
    knowledge: Seq<KnowledgeModel>,
    library: L,
) -> Result<Seq<ValueModel>, Error>
    decreases terms, 0nat,
{
    if terms.len() == 0 {
        Ok(Seq::empty())
    } else {
        match evaluated_all(terms.drop_last(), knowledge, library) {
            Err(error) => Err(error),
            Ok(values) => match evaluated(terms.last(), knowledge, library) {
                Err(error) => Err(error),
                Ok(value) => Ok(values.push(value)),
            },
        }
    }
}

/// The value of a term.
///
/// A variable stands for the value that the knowledge holds for it, and has
/// none where that is missing. An application has the value that the dynamic
/// call of its function gives on the values of its arguments; the first
/// argument without a value leaves the application without one, for the
/// same reason.
pub open spec fn evaluated<L: FunctionLibrary>(
    term: TermModel,
    knowledge: Seq<KnowledgeModel>,
    library: L,
) -> Result<ValueModel, Error>
    decreases term, 1nat,
{
    match term {
        TermModel::Variable(variable) => match find_variable(knowledge, variable) {
            Some(value) => Ok(value),
            None => Err(Error::Missing),
        },
        TermModel::Application(function, arguments) => match evaluated_all(
            arguments,
            knowledge,
            library,
        ) {
            Err(error) => Err(error),
            Ok(values) => match dynamic_result(library, function, values) {
                Ok(value) => Ok(value),
                Err(error) => Err(evaluation_error(error)),
            },
        },
    }
}

/// The model of the outcome of an evaluation.
pub open spec fn evaluation_model(outcome: Result<Value, Error>) -> Result<ValueModel, Error> {
    match outcome {
        Ok(value) => Ok(value@),
        Err(error) => Err(error),
    }
}

impl Term {
    /// Evaluates the term with what `context` knows and what `library` computes.
    pub fn evaluate<L: FunctionLibrary>(&self, context: &TraceContext, library: &L) -> (r: Result<
        Value,
        Error,
    >)
        ensures
            evaluation_model(r) == evaluated(self@, context@.knowledge, *library),
        decreases self,
    {
        match self {
            Term::Variable(variable) => match context.find_variable(variable) {
                Some(value) => Ok(value.clone()),
                None => Err(Error::Missing),
            },
            Term::Application(function, arguments) => {
                let ghost knowledge = context@.knowledge;
                let mut values: Vec<Value> = Vec::new();
                let mut i: usize = 0;
                proof {
                    lemma_models(arguments@);
                    assert(value_models(values@) =~= Seq::<ValueModel>::empty());
                }
                while i < arguments.len()
                    invariant
                        i <= arguments.len(),
                        *self == Term::Application(*function, *arguments),
                        knowledge == context@.knowledge,
                        self@->Application_1.len() == arguments.len(),
                        forall|j: int|
                            0 <= j < arguments.len() ==> self@->Application_1[j] == arguments[j]@,
                        evaluated_all(self@->Application_1.take(i as int), knowledge, *library)
                            == Ok::<Seq<ValueModel>, Error>(value_models(values@)),
                    decreases arguments.len() - i,
                {
                    proof {
                        let children = self@->Application_1;
                        assert(children.take(i as int + 1).drop_last() =~= children.take(i as int));
                        lemma_first_failure(children, i as int + 1, knowledge, *library);
                    }
                    match arguments[i].evaluate(context, library) {
                        Err(error) => {
                            return Err(error);
                        },
                        Ok(value) => {
                            let ghost before = value_models(values@);
                            values.push(value);
                            assert(value_models(values@) =~= before.push(value@));
                        },
                    }
                    i = i + 1;
                }
                assert(self@->Application_1.take(arguments.len() as int) =~= self@->Application_1);
                match make_dynamic(library, function).call(&values) {
                    Ok(value) => Ok(value),
                    Err(FnError::Unknown(reason)) => Err(Error::Function(FnError::Unknown(reason))),
                    Err(_) => Err(Error::Type),
                }
            },
        }
    }
}

/// Where the first terms of a sequence have no values, the whole sequence
/// has none, for the same reason.
pub proof fn lemma_first_failure<L: FunctionLibrary>(
    terms: Seq<TermModel>,
    count: int,
    knowledge: Seq<KnowledgeModel>,
    library: L,
)
    requires
        0 <= count <= terms.len(),
    ensures
        evaluated_all(terms.take(count), knowledge, library) matches Err(error) ==> evaluated_all(
            terms,
            knowledge,
            library,
        ) == Err::<Seq<ValueModel>, Error>(error),
    decreases terms.len(),
{
    if count < terms.len() {
        lemma_first_failure(terms.drop_last(), count, knowledge, library);
        assert(terms.drop_last().take(count) =~= terms.take(count));
    } else {
        assert(terms.take(count) =~= terms);
    }
}

/// Evaluation determinism: whatever two evaluations of one term with the same
/// context and library give is the same.
pub proof fn lemma_evaluation_is_deterministic<L: FunctionLibrary>(
    term: Term,
    context: TraceContext,
    library: L,
    first: Result<Value, Error>,
    second: Result<Value, Error>,
)
    requires
        call_ensures(Term::evaluate::<L>, (&term, &context, &library), first),
        call_ensures(Term::evaluate::<L>, (&term, &context, &library), second),
    ensures
        evaluation_model(first) == evaluation_model(second),
{
}

/// Clone idempotence: a copy of a term evaluates to what the term evaluates to.
pub proof fn lemma_clone_evaluates_alike<L: FunctionLibrary>(
    term: Term,
    copy: Term,
    knowledge: Seq<KnowledgeModel>,
    library: L,
)
    requires
        cloned(term, copy),
    ensures
        evaluated(copy@, knowledge, library) == evaluated(term@, knowledge, library),
{
}

/// The value of a well-typed term, where it has one, is of the term's type.
pub proof fn lemma_value_is_typed<L: FunctionLibrary>(
    term: TermModel,
    knowledge: Seq<KnowledgeModel>,
    library: L,
)
    requires
        term.well_typed(),
    ensures
        evaluated(term, knowledge, library) matches Ok(value) ==> value.shape.id
            == term.type_shape().id,
{
    match term {
        TermModel::Variable(variable) => {
            crate::trace::lemma_answer_is_typed(knowledge, variable, 0, variable.counter as nat);
        },
        TermModel::Application(function, arguments) => {
            match evaluated_all(arguments, knowledge, library) {
                Err(_) => {},
                Ok(values) => {
                    if dynamic_result(library, function, values) is Ok {
                        if values.len() == function.shape.argument_types.len() {
                            crate::term::dynamic_function::lemma_no_mismatch(
                                function.shape.argument_types,
                                values,
                                0,
                            );
                            library.result_is_typed(function, values);
                        }
                    }
                },
            }
        },
    }
}

} // verus!
