//! The term algebra: variables and applications of function symbols.

pub mod atoms;
pub mod dynamic_function;
pub mod evaluate;
pub mod pretty;
pub mod signature;

use crate::error::Error;
use crate::term::atoms::{Function, FunctionModel, Variable};
use crate::term::dynamic_function::TypeShape;
use vstd::prelude::*;

verus! {

/// A term: a variable, or a function symbol applied to argument terms.
#[derive(Debug)]
pub enum Term {
    Variable(Variable),
    Application(Function, Vec<Term>),
}

/// A term as plain mathematics.
pub enum TermModel {
    Variable(Variable),
    Application(FunctionModel, Seq<TermModel>),
}

/// The models of a sequence of terms, item by item.
pub open spec fn models(terms: Seq<Term>) -> Seq<TermModel>
    decreases terms, 0nat,
{
    if terms.len() == 0 {
        Seq::empty()
    } else {
        models(terms.drop_last()).push(model(terms.last()))
    }
}

/// The model of a term.
pub open spec fn model(term: Term) -> TermModel
    decreases term, 1nat,
{
    match term {
        Term::Variable(variable) => TermModel::Variable(variable),
        Term::Application(function, arguments) => TermModel::Application(
            function@,
            models(arguments@),
        ),
    }
}

impl View for Term {
    type V = TermModel;

    open spec fn view(&self) -> TermModel {
        model(*self)
    }
}

/// `models` keeps the length and maps item by item.
pub proof fn lemma_models(terms: Seq<Term>)
    ensures
        models(terms).len() == terms.len(),
        forall|i: int| 0 <= i < terms.len() ==> (#[trigger] models(terms)[i]) == terms[i]@,
    decreases terms.len(),
{
    if terms.len() > 0 {
        lemma_models(terms.drop_last());
    }
}

/// The models of a sequence of borrowed terms.
pub open spec fn borrowed_models(terms: Seq<&Term>) -> Seq<TermModel> {
    Seq::new(terms.len(), |i: int| terms[i]@)
}

/// The subterms of each term of a sequence in turn, each term's in pre-order.
pub open spec fn preorders(terms: Seq<TermModel>) -> Seq<TermModel>
    decreases terms, 0nat,
{
    if terms.len() == 0 {
        Seq::empty()
    } else {
        preorders(terms.drop_last()) + terms.last().preorder()
    }
}

/// Each of `paths` with `prefix` in front.
pub open spec fn prefixed(paths: Seq<Seq<usize>>, prefix: Seq<usize>) -> Seq<Seq<usize>> {
    Seq::new(paths.len(), |i: int| prefix + paths[i])
}

/// The paths to the subterms of each term of a sequence in turn; those into
/// the `i`-th term begin with `i`.
pub open spec fn paths_below(terms: Seq<TermModel>) -> Seq<Seq<usize>>
    decreases terms, 0nat,
{
    if terms.len() == 0 {
        Seq::empty()
    } else {
        paths_below(terms.drop_last()) + prefixed(
            terms.last().paths(),
            seq![(terms.len() - 1) as usize],
        )
    }
}

/// The views of a sequence of paths.
pub open spec fn path_views(paths: Seq<Vec<usize>>) -> Seq<Seq<usize>> {
    Seq::new(paths.len(), |i: int| paths[i]@)
}

/// How many of `nodes` are applications of a function called `name`.
pub open spec fn count_named(nodes: Seq<TermModel>, name: Seq<char>) -> nat
    decreases nodes.len(),
{
    if nodes.len() == 0 {
        0
    } else {
        count_named(nodes.drop_last(), name) + if nodes.last().is_named(name) {
            1nat
        } else {
            0nat
        }
    }
}

impl TermModel {
    /// The type of the value that the term stands for.
    pub open spec fn type_shape(self) -> TypeShape {
        match self {
            TermModel::Variable(variable) => variable.typ,
            TermModel::Application(function, _) => function.shape.return_type,
        }
    }

    /// Whether the root is an application of a function called `name`.
    pub open spec fn is_named(self, name: Seq<char>) -> bool {
        self matches TermModel::Application(function, _) && function.shape.name == name
    }

    /// Whether the term is well-typed: every application has as many
    /// arguments as its function takes, each of the declared type and
    /// well-typed itself.
    pub open spec fn well_typed(self) -> bool
        decreases self,
    {
        match self {
            TermModel::Variable(_) => true,
            TermModel::Application(function, arguments) => {
                &&& arguments.len() == function.shape.argument_types.len()
                &&& forall|i: int|
                    0 <= i < arguments.len() ==> {
                        &&& (#[trigger] arguments[i]).well_typed()
                        &&& arguments[i].type_shape().id == function.shape.argument_types[i].id
                    }
            },
        }
    }

    /// All subterms, the term itself first, then those of each argument in order.
    pub open spec fn preorder(self) -> Seq<TermModel>
        decreases self, 1nat,
    {
        match self {
            TermModel::Variable(_) => seq![self],
            TermModel::Application(_, arguments) => seq![self] + preorders(arguments),
        }
    }

    /// The number of nodes.
    pub open spec fn size(self) -> nat {
        self.preorder().len()
    }

    /// How many applications of a function called `name` the term holds.
    pub open spec fn occurrences(self, name: Seq<char>) -> nat {
        count_named(self.preorder(), name)
    }

    /// The subterm that `path` leads to, each entry of the path choosing an
    /// argument, if there is one.
    pub open spec fn subterm(self, path: Seq<usize>) -> Option<TermModel>
        decreases path.len(),
    {
        if path.len() == 0 {
            Some(self)
        } else {
            match self {
                TermModel::Variable(_) => None,
                TermModel::Application(_, arguments) => if path[0] < arguments.len() {
                    arguments[path[0] as int].subterm(path.skip(1))
                } else {
                    None
                },
            }
        }
    }

    /// The term with the subterm at `path` exchanged for `new`; the term
    /// itself where `path` leads nowhere.
    pub open spec fn replaced(self, path: Seq<usize>, new: TermModel) -> TermModel
        decreases path.len(),
    {
        if path.len() == 0 {
            new
        } else {
            match self {
                TermModel::Variable(_) => self,
                TermModel::Application(function, arguments) => if path[0] < arguments.len() {
                    TermModel::Application(
                        function,
                        arguments.update(
                            path[0] as int,
                            arguments[path[0] as int].replaced(path.skip(1), new),
                        ),
                    )
                } else {
                    self
                },
            }
        }
    }

    /// The paths to all subterms, in the order of [`TermModel::preorder`].
    pub open spec fn paths(self) -> Seq<Seq<usize>>
        decreases self, 1nat,
    {
        match self {
            TermModel::Variable(_) => seq![Seq::empty()],
            TermModel::Application(_, arguments) => seq![Seq::empty()] + paths_below(arguments),
        }
    }
}

/// The subterms of the first terms of a sequence are among those of all.
pub proof fn lemma_preorders_prefix(terms: Seq<TermModel>, count: int)
    requires
        0 <= count <= terms.len(),
    ensures
        preorders(terms.take(count)).len() <= preorders(terms).len(),
    decreases terms.len(),
{
    if count < terms.len() {
        lemma_preorders_prefix(terms.drop_last(), count);
        assert(terms.drop_last().take(count) =~= terms.take(count));
    } else {
        assert(terms.take(count) =~= terms);
    }
}

/// An argument is smaller than the application it stands in.
pub proof fn lemma_size_of_argument(term: TermModel, index: int)
    requires
        term is Application,
        0 <= index < term->Application_1.len(),
    ensures
        term->Application_1[index].size() < term.size(),
{
    let arguments = term->Application_1;
    lemma_preorders_prefix(arguments, index + 1);
}

/// A subterm of a well-typed term is well-typed.
pub proof fn lemma_subterm_well_typed(term: TermModel, path: Seq<usize>)
    requires
        term.well_typed(),
    ensures
        term.subterm(path) matches Some(subterm) ==> subterm.well_typed(),
    decreases path.len(),
{
    if path.len() > 0 {
        match term {
            TermModel::Variable(_) => {},
            TermModel::Application(_, arguments) => {
                if path[0] < arguments.len() {
                    lemma_subterm_well_typed(arguments[path[0] as int], path.skip(1));
                }
            },
        }
    }
}

/// A well-typed term stays well-typed, and keeps its type, when one of its
/// subterms is exchanged for a well-typed term of the same type.
pub proof fn lemma_replaced_well_typed(term: TermModel, path: Seq<usize>, new: TermModel)
    requires
        term.well_typed(),
        new.well_typed(),
        term.subterm(path) matches Some(hole) && hole.type_shape().id == new.type_shape().id,
    ensures
        term.replaced(path, new).well_typed(),
        term.replaced(path, new).type_shape().id == term.type_shape().id,
    decreases path.len(),
{
    if path.len() > 0 {
        match term {
            TermModel::Variable(_) => {},
            TermModel::Application(function, arguments) => {
                let index = path[0] as int;
                lemma_replaced_well_typed(arguments[index], path.skip(1), new);
            },
        }
    }
}

/// What stands at a place after an exchange there is what was put there.
pub proof fn lemma_subterm_of_replaced(term: TermModel, path: Seq<usize>, new: TermModel)
    requires
        term.subterm(path) is Some,
    ensures
        term.replaced(path, new).subterm(path) == Some(new),
    decreases path.len(),
{
    if path.len() > 0 {
        match term {
            TermModel::Variable(_) => {},
            TermModel::Application(_, arguments) => {
                lemma_subterm_of_replaced(arguments[path[0] as int], path.skip(1), new);
            },
        }
    }
}

/// The subterms of the first terms of a sequence come first among those of all.
pub proof fn lemma_paths_below_index(terms: Seq<TermModel>, count: int)
    requires
        0 <= count < terms.len(),
    ensures
        paths_below(terms.take(count + 1)) == paths_below(terms.take(count)) + prefixed(
            terms[count].paths(),
            seq![count as usize],
        ),
{
    assert(terms.take(count + 1).drop_last() =~= terms.take(count));
}

/// There are as many paths as subterms.
pub proof fn lemma_paths_count(term: TermModel)
    ensures
        term.paths().len() == term.preorder().len(),
    decreases term, 1nat,
{
    match term {
        TermModel::Variable(_) => {},
        TermModel::Application(_, arguments) => {
            lemma_paths_below_count(arguments);
        },
    }
}

/// There are as many paths into the terms of a sequence as subterms of them.
pub proof fn lemma_paths_below_count(terms: Seq<TermModel>)
    ensures
        paths_below(terms).len() == preorders(terms).len(),
    decreases terms, 0nat,
{
    if terms.len() > 0 {
        lemma_paths_below_count(terms.drop_last());
        lemma_paths_count(terms.last());
    }
}

/// Every term of a sequence has a subterm: itself.
pub proof fn lemma_preorders_count(terms: Seq<TermModel>)
    ensures
        terms.len() <= preorders(terms).len(),
    decreases terms.len(),
{
    if terms.len() > 0 {
        lemma_preorders_count(terms.drop_last());
        assert(terms.last().preorder().len() >= 1);
    }
}

/// The path with a given number leads to the subterm with that number.
pub proof fn lemma_path_leads_to_subterm(term: TermModel, number: int)
    requires
        0 <= number < term.paths().len(),
        term.size() <= usize::MAX,
    ensures
        term.paths().len() == term.preorder().len(),
        term.subterm(term.paths()[number]) == Some(term.preorder()[number]),
    decreases term, 1nat,
{
    lemma_paths_count(term);
    match term {
        TermModel::Variable(_) => {},
        TermModel::Application(_, arguments) => {
            if number > 0 {
                lemma_path_below_leads_to_subterm(arguments, number - 1);
                let path = paths_below(arguments)[number - 1];
            }
        },
    }
}

/// The path with a given number into the terms of a sequence begins with
/// the index of one of them and leads on to the subterm with that number.
pub proof fn lemma_path_below_leads_to_subterm(terms: Seq<TermModel>, number: int)
    requires
        0 <= number < paths_below(terms).len(),
        preorders(terms).len() <= usize::MAX,
    ensures
        paths_below(terms).len() == preorders(terms).len(),
        ({
            let path = paths_below(terms)[number];
            &&& path.len() > 0
            &&& path[0] < terms.len()
            &&& terms[path[0] as int].subterm(path.skip(1)) == Some(preorders(terms)[number])
        }),
    decreases terms, 0nat,
{
    lemma_paths_below_count(terms);
    lemma_preorders_count(terms);
    let front = terms.drop_last();
    if number < paths_below(front).len() {
        lemma_path_below_leads_to_subterm(front, number);
        let path = paths_below(front)[number];
    } else {
        let last = terms.last();
        let inner = number - paths_below(front).len();
        lemma_path_leads_to_subterm(last, inner);
        let index = (terms.len() - 1) as usize;
        let path = paths_below(terms)[number];
        assert(path.skip(1) =~= last.paths()[inner]);
    }
}

/// The paths into one term of a sequence are among the paths into all of them.
pub proof fn lemma_paths_below_hold(terms: Seq<TermModel>, index: int, number: int)
    requires
        0 <= index < terms.len(),
        0 <= number < terms[index].paths().len(),
        terms.len() <= usize::MAX,
    ensures
        paths_below(terms).contains(seq![index as usize] + terms[index].paths()[number]),
    decreases terms.len(),
{
    let front = terms.drop_last();
    let wanted = seq![index as usize] + terms[index].paths()[number];
    if index == terms.len() - 1 {
        assert(paths_below(terms)[paths_below(front).len() + number] == wanted);
    } else {
        lemma_paths_below_hold(front, index, number);
        let found = choose|k: int| 0 <= k < paths_below(front).len() && paths_below(front)[k] == wanted;
        assert(paths_below(terms)[found] == wanted);
    }
}

/// Every path that leads to a subterm is among the paths of the term.
pub proof fn lemma_path_is_listed(term: TermModel, path: Seq<usize>)
    requires
        term.subterm(path) is Some,
        term.size() <= usize::MAX,
    ensures
        term.paths().contains(path),
    decreases path.len(),
{
    if path.len() == 0 {
        assert(term.paths()[0] =~= path);
    } else {
        match term {
            TermModel::Variable(_) => {},
            TermModel::Application(_, arguments) => {
                let index = path[0] as int;
                let argument = arguments[index];
                lemma_size_of_argument(term, index);
                lemma_path_is_listed(argument, path.skip(1));
                let number = choose|k: int|
                    0 <= k < argument.paths().len() && argument.paths()[k] == path.skip(1);
                lemma_preorders_count(arguments);
                lemma_paths_below_hold(arguments, index, number);
                assert(seq![index as usize] + path.skip(1) =~= path);
                let found = choose|k: int|
                    0 <= k < paths_below(arguments).len() && paths_below(arguments)[k] == path;
                assert(term.paths()[found + 1] == path);
            },
        }
    }
}

/// The model of an optional borrowed term.
pub open spec fn optional_model(term: Option<&Term>) -> Option<TermModel> {
    match term {
        Some(term) => Some(term@),
        None => None,
    }
}

fn collect_subterms<'a>(term: &'a Term, out: &mut Vec<&'a Term>)
    ensures
        borrowed_models(final(out)@) == borrowed_models(old(out)@) + term@.preorder(),
    decreases term,
{
    let ghost start = borrowed_models(out@);
    out.push(term);
    match term {
        Term::Variable(_) => {},
        Term::Application(function, arguments) => {
            let mut i: usize = 0;
            proof {
                lemma_models(arguments@);
            }
            while i < arguments.len()
                invariant
                    i <= arguments.len(),
                    *term == Term::Application(*function, *arguments),
                    term@->Application_1.len() == arguments.len(),
                    forall|j: int|
                        0 <= j < arguments.len() ==> term@->Application_1[j] == arguments[j]@,
                    borrowed_models(out@) == start + seq![term@] + preorders(
                        term@->Application_1.take(i as int),
                    ),
                decreases arguments.len() - i,
            {
                collect_subterms(&arguments[i], out);
                proof {
                    let children = term@->Application_1;
                    assert(children.take(i as int + 1).drop_last() =~= children.take(i as int));
                }
                i = i + 1;
            }
            proof {
                let children = term@->Application_1;
                assert(children.take(arguments.len() as int) =~= children);
            }
        },
    }
}

impl Term {
    /// The type of the value that the term stands for.
    pub fn get_type_shape(&self) -> (r: &TypeShape)
        ensures
            *r == self@.type_shape(),
    {
        match self {
            Term::Variable(variable) => &variable.typ,
            Term::Application(function, _) => &function.shape.return_type,
        }
    }

    /// Whether the root is an application of a function called `name`.
    pub fn is_named(&self, name: &String) -> (r: bool)
        ensures
            r == self@.is_named(name@),
    {
        match self {
            Term::Variable(_) => false,
            Term::Application(function, _) => function.shape.name == *name,
        }
    }

    /// All subterms in pre-order: the term itself, then the subterms of each
    /// argument in turn.
    pub fn traverse_from_root(&self) -> (r: Vec<&Term>)
        ensures
            borrowed_models(r@) == self@.preorder(),
    {
        let mut out: Vec<&Term> = Vec::new();
        collect_subterms(self, &mut out);
        out
    }

    /// The number of nodes.
    pub fn size(&self) -> (r: usize)
        ensures
            r == self@.size(),
    {
        self.traverse_from_root().len()
    }

    /// Whether the term is well-typed.
    pub fn is_well_typed(&self) -> (r: bool)
        ensures
            r == self@.well_typed(),
        decreases self,
    {
        match self {
            Term::Variable(_) => true,
            Term::Application(function, arguments) => {
                proof {
                    lemma_models(arguments@);
                }
                if arguments.len() != function.shape.argument_types.len() {
                    return false;
                }
                let mut i: usize = 0;
                while i < arguments.len()
                    invariant
                        i <= arguments.len(),
                        *self == Term::Application(*function, *arguments),
                        arguments.len() == function.shape.argument_types.len(),
                        self@->Application_1.len() == arguments.len(),
                        forall|j: int|
                            0 <= j < arguments.len() ==> self@->Application_1[j] == arguments[j]@,
                        forall|j: int|
                            0 <= j < i ==> {
                                &&& (#[trigger] self@->Application_1[j]).well_typed()
                                &&& self@->Application_1[j].type_shape().id
                                    == function.shape.argument_types[j].id
                            },
                    decreases arguments.len() - i,
                {
                    if !arguments[i].is_well_typed() {
                        assert(!self@->Application_1[i as int].well_typed());
                        return false;
                    }
                    if arguments[i].get_type_shape().id != function.shape.argument_types[i].id {
                        assert(self@->Application_1[i as int].type_shape().id
                            != function.shape.argument_types[i as int].id);
                        return false;
                    }
                    i = i + 1;
                }
                true
            },
        }
    }

    fn get_from(&self, path: &Vec<usize>, depth: usize) -> (r: Option<&Term>)
        requires
            depth <= path.len(),
        ensures
            optional_model(r) == self@.subterm(path@.skip(depth as int)),
        decreases path.len() - depth,
    {
        if depth == path.len() {
            Some(self)
        } else {
            let index = path[depth];
            assert(path@.skip(depth as int).skip(1) =~= path@.skip(depth as int + 1));
            match self {
                Term::Variable(_) => None,
                Term::Application(_, arguments) => {
                    proof {
                        lemma_models(arguments@);
                    }
                    if index < arguments.len() {
                        arguments[index].get_from(path, depth + 1)
                    } else {
                        None
                    }
                },
            }
        }
    }

    /// The subterm that `path` leads to, if there is one.
    pub fn get_at_path(&self, path: &Vec<usize>) -> (r: Option<&Term>)
        ensures
            optional_model(r) == self@.subterm(path@),
    {
        assert(path@.skip(0) =~= path@);
        self.get_from(path, 0)
    }

    fn replace_from(&mut self, path: &Vec<usize>, depth: usize, new: Term)
        requires
            depth <= path.len(),
        ensures
            final(self)@ == old(self)@.replaced(path@.skip(depth as int), new@),
        decreases path.len() - depth,
    {
        if depth == path.len() {
            *self = new;
        } else {
            let index = path[depth];
            let ghost before = *self;
            let ghost rest = path@.skip(depth as int + 1);
            assert(path@.skip(depth as int).skip(1) =~= rest);
            match self {
                Term::Variable(_) => {},
                Term::Application(_, arguments) => {
                    if index < arguments.len() {
                        arguments[index].replace_from(path, depth + 1, new);
                    }
                },
            }
            proof {
                if before is Application {
                    let old_arguments = before->Application_1;
                    lemma_models(old_arguments@);
                    if index < old_arguments.len() {
                        let new_arguments = (*self)->Application_1;
                        lemma_models(new_arguments@);
                        assert(self@->Application_1 =~= before@->Application_1.update(
                            index as int,
                            before@->Application_1[index as int].replaced(rest, new@),
                        ));
                    }
                }
            }
        }
    }

    /// Exchanges the subterm at `path` for `subterm`.
    ///
    /// Fails, and leaves the term as it is, where `path` leads nowhere
    /// (`Error::Missing`) or where `subterm` is of another type than the
    /// subterm it is to stand for (`Error::Type`).
    pub fn replace_at_path(&mut self, path: &Vec<usize>, subterm: Term) -> (r: Result<(), Error>)
        ensures
            match old(self)@.subterm(path@) {
                None => r == Err::<(), Error>(Error::Missing) && final(self)@ == old(self)@,
                Some(hole) => if hole.type_shape().id == subterm@.type_shape().id {
                    r is Ok && final(self)@ == old(self)@.replaced(path@, subterm@)
                } else {
                    r == Err::<(), Error>(Error::Type) && final(self)@ == old(self)@
                },
            },
    {
        let fits = match self.get_at_path(path) {
            None => {
                return Err(Error::Missing);
            },
            Some(hole) => hole.get_type_shape().id == subterm.get_type_shape().id,
        };
        if !fits {
            return Err(Error::Type);
        }
        assert(path@.skip(0) =~= path@);
        self.replace_from(path, 0, subterm);
        Ok(())
    }
}

impl Clone for Term {
    /// A deep copy; every symbol keeps its ids.
    fn clone(&self) -> (r: Term)
        ensures
            r@ == self@,
        decreases self,
    {
        match self {
            Term::Variable(variable) => Term::Variable(variable.clone()),
            Term::Application(function, arguments) => {
                let mut copies: Vec<Term> = Vec::new();
                let mut i: usize = 0;
                while i < arguments.len()
                    invariant
                        i <= arguments.len(),
                        copies.len() == i,
                        forall|j: int| 0 <= j < i ==> copies[j]@ == arguments[j]@,
                        *self == Term::Application(*function, *arguments),
                    decreases arguments.len() - i,
                {
                    proof {
                        assert(decreases_to!(self->Application_1 => self->Application_1[i as int]));
                    }
                    copies.push(arguments[i].clone());
                    i = i + 1;
                }
                let r = Term::Application(function.clone(), copies);
                proof {
                    lemma_models(copies@);
                    lemma_models(arguments@);
                    assert(r@->Application_1 =~= self@->Application_1);
                }
                r
            },
        }
    }
}

/// A copy of a path.
pub fn clone_path(path: &Vec<usize>) -> (r: Vec<usize>)
    ensures
        r@ == path@,
{
    let mut copy: Vec<usize> = Vec::new();
    let mut i: usize = 0;
    while i < path.len()
        invariant
            i <= path.len(),
            copy@ == path@.take(i as int),
        decreases path.len() - i,
    {
        copy.push(path[i]);
        i = i + 1;
    }
    copy
}

fn collect_paths(term: &Term, prefix: &mut Vec<usize>, out: &mut Vec<Vec<usize>>)
    ensures
        final(prefix)@ == old(prefix)@,
        path_views(final(out)@) == path_views(old(out)@) + prefixed(term@.paths(), old(prefix)@),
    decreases term,
{
    let ghost start = path_views(out@);
    let ghost front = prefix@;
    out.push(clone_path(prefix));
    match term {
        Term::Variable(_) => {},
        Term::Application(function, arguments) => {
            proof {
                lemma_models(arguments@);
            }
            let mut i: usize = 0;
            while i < arguments.len()
                invariant
                    i <= arguments.len(),
                    *term == Term::Application(*function, *arguments),
                    prefix@ == front,
                    term@->Application_1.len() == arguments.len(),
                    forall|j: int|
                        0 <= j < arguments.len() ==> term@->Application_1[j] == arguments[j]@,
                    path_views(out@) == start + prefixed(
                        seq![Seq::<usize>::empty()] + paths_below(
                            term@->Application_1.take(i as int),
                        ),
                        front,
                    ),
                decreases arguments.len() - i,
            {
                prefix.push(i);
                collect_paths(&arguments[i], prefix, out);
                prefix.pop();
                proof {
                    let children = term@->Application_1;
                    lemma_paths_below_index(children, i as int);
                    let deeper = prefixed(arguments[i as int]@.paths(), front.push(i));
                    let shallow = prefixed(
                        prefixed(children[i as int].paths(), seq![i]),
                        front,
                    );
                    assert forall|k: int| 0 <= k < deeper.len() implies deeper[k] == shallow[k] by {
                    }
                }
                i = i + 1;
            }
            proof {
                let children = term@->Application_1;
                assert(children.take(arguments.len() as int) =~= children);
            }
        },
    }
}

impl Term {
    /// The paths to all subterms, in pre-order: the empty path to the term
    /// itself first.
    pub fn paths(&self) -> (r: Vec<Vec<usize>>)
        ensures
            path_views(r@) == self@.paths(),
    {
        let mut out: Vec<Vec<usize>> = Vec::new();
        let mut prefix: Vec<usize> = Vec::new();
        collect_paths(self, &mut prefix, &mut out);
        out
    }
}

} // verus!
