//! Drawings of terms and traces in the language of the `dot` tool.

use crate::term::atoms::Variable;
use crate::term::pretty::{
    remove_fn_prefix, remove_prefix, variable_text, without_fn, without_prefix,
};
use crate::term::{lemma_models, Term, TermModel};
use crate::text::{decimal, join, join_lines, joined, push_decimal, texts};
use crate::trace::{Action, ActionModel, StepModel, Trace, TraceModel};
use vstd::prelude::*;
use vstd::string::StringExecFns;

verus! {

pub const FONT: &'static str = "Latin Modern Roman";

pub const SHAPE: &'static str = "none";

pub const SHAPE_LEAVES: &'static str = "none";

pub const STYLE: &'static str = "";

pub const COLOR: &'static str = "#00000000";

pub const COLOR_LEAVES: &'static str = "#00000000";

pub const SHOW_LABELS: bool = false;

/// The name of the node that stands for the root of `term`.
///
/// In tree mode the name is made of the cluster and the symbol's unique id,
/// so that no two clusters share a node; otherwise of the resistant id alone.
pub open spec fn node_id(term: TermModel, tree_mode: bool, cluster_id: nat) -> Seq<char> {
    match term {
        TermModel::Variable(variable) => if tree_mode {
            "v_"@ + decimal(cluster_id) + "_"@ + decimal(variable.unique_id as nat)
        } else {
            "v_"@ + decimal(variable.resistant_id as nat)
        },
        TermModel::Application(function, _) => if tree_mode {
            "f_"@ + decimal(cluster_id) + "_"@ + decimal(function.unique_id as nat)
        } else {
            "f_"@ + decimal(function.resistant_id as nat)
        },
    }
}

/// The attribute list of a node with the given label, fill colour and shape.
pub open spec fn attributes(label: Seq<char>, color: Seq<char>, shape: Seq<char>) -> Seq<char> {
    "[label=\""@ + label + "\",style=\""@ + STYLE@ + "\",colorscheme=dark28,fillcolor=\""@ + color
        + "\",shape=\""@ + shape + "\"]"@
}

/// The label of the node that stands for the root of `term`.
pub open spec fn node_label(term: TermModel) -> Seq<char> {
    match term {
        TermModel::Variable(variable) => variable_text(variable),
        TermModel::Application(function, _) => without_fn(without_prefix(function.shape.name)),
    }
}

/// The statement that declares the node of the root of `term`.
pub open spec fn node_statement(term: TermModel, tree_mode: bool, cluster_id: nat) -> Seq<char> {
    let leaf = match term {
        TermModel::Variable(_) => true,
        TermModel::Application(function, _) => function.shape.argument_types.len() == 0,
    };
    node_id(term, tree_mode, cluster_id) + " "@ + attributes(
        node_label(term),
        if leaf {
            COLOR_LEAVES@
        } else {
            COLOR@
        },
        if leaf {
            SHAPE_LEAVES@
        } else {
            SHAPE@
        },
    ) + " [fontname=\""@ + FONT@ + "\"];"@
}

/// The statement that draws the edge between two nodes.
pub open spec fn edge_statement(from: Seq<char>, to: Seq<char>) -> Seq<char> {
    from + " -> "@ + to + ";"@
}

/// For each of `children` in turn: the edge from `parent` to it, then its own statements.
pub open spec fn child_statements(
    parent: Seq<char>,
    children: Seq<TermModel>,
    tree_mode: bool,
    cluster_id: nat,
) -> Seq<Seq<char>>
    decreases children, 0nat,
{
    if children.len() == 0 {
        Seq::empty()
    } else {
        child_statements(parent, children.drop_last(), tree_mode, cluster_id).push(
            edge_statement(parent, node_id(children.last(), tree_mode, cluster_id)),
        ) + statements(children.last(), tree_mode, cluster_id)
    }
}

/// The statements that draw `term`: its root's node, then for each argument
/// the edge to it and the argument's own statements.
pub open spec fn statements(term: TermModel, tree_mode: bool, cluster_id: nat) -> Seq<Seq<char>>
    decreases term, 1nat,
{
    match term {
        TermModel::Variable(_) => seq![node_statement(term, tree_mode, cluster_id)],
        TermModel::Application(_, arguments) => seq![node_statement(term, tree_mode, cluster_id)]
            + child_statements(
            node_id(term, tree_mode, cluster_id),
            arguments,
            tree_mode,
            cluster_id,
        ),
    }
}

/// The label that a cluster carries.
pub open spec fn shown_label(label: Seq<char>) -> Seq<char> {
    if SHOW_LABELS {
        label
    } else {
        ""@
    }
}

/// The cluster that draws `term`.
pub open spec fn term_subgraph(term: TermModel, tree_mode: bool, cluster_id: nat, label: Seq<char>) -> Seq<
    char,
> {
    "subgraph cluster"@ + decimal(cluster_id) + " { peripheries=0;fontname=\""@ + FONT@
        + "\";label=\""@ + shown_label(label) + "\";\n"@ + joined(
        statements(term, tree_mode, cluster_id),
        "\n"@,
    ) + "\n}"@
}

/// The name of the step with the given index.
pub open spec fn step_name(index: nat, step: StepModel) -> Seq<char> {
    "Step #"@ + decimal(index) + " (Agent  "@ + decimal(step.agent.0 as nat) + ")"@
}

/// The cluster that draws the step with the given index: the recipe of an
/// input step, an empty node for an output step.
pub open spec fn step_subgraph(index: nat, step: StepModel, tree_mode: bool) -> Seq<char> {
    match step.action {
        ActionModel::Input(recipe) => term_subgraph(
            recipe,
            tree_mode,
            index,
            step_name(index, step),
        ),
        ActionModel::Output => "subgraph cluster"@ + decimal(index) + " { peripheries=0;label=\""@
            + shown_label(step_name(index, step)) + "\";\"\" [color=\"#00000000\"];}"@,
    }
}

/// The clusters of all steps of a trace, in order.
pub open spec fn trace_subgraphs(trace: TraceModel, tree_mode: bool) -> Seq<Seq<char>> {
    Seq::new(trace.steps.len(), |i: int| step_subgraph(i as nat, trace.steps[i], tree_mode))
}

/// The whole drawing of a trace.
pub open spec fn trace_graph(trace: TraceModel, tree_mode: bool) -> Seq<char> {
    "strict digraph \"Trace\" { splines=false;fontname=\""@ + FONT@ + "\";"@ + joined(
        trace_subgraphs(trace, tree_mode),
        "\n"@,
    ) + " }"@
}

fn shown(label: &str) -> (r: &str)
    ensures
        r@ == shown_label(label@),
{
    if SHOW_LABELS {
        label
    } else {
        ""
    }
}

impl Trace {
    /// The drawing of the trace: one cluster per step.
    pub fn dot_graph(&self, tree_mode: bool) -> (r: String)
        ensures
            r@ == trace_graph(self@, tree_mode),
    {
        let subgraphs = self.dot_subgraphs(tree_mode);
        let body = join_lines(&subgraphs, "\n");
        let mut out = String::new();
        out.append("strict digraph \"Trace\" { splines=false;fontname=\"");
        out.append(FONT);
        out.append("\";");
        out.append(body.as_str());
        out.append(" }");
        out
    }

    /// The clusters of the steps, in order.
    pub fn dot_subgraphs(&self, tree_mode: bool) -> (r: Vec<String>)
        ensures
            texts(r@) == trace_subgraphs(self@, tree_mode),
    {
        let mut subgraphs: Vec<String> = Vec::new();
        let mut i: usize = 0;
        while i < self.steps.len()
            invariant
                i <= self.steps.len(),
                texts(subgraphs@) == trace_subgraphs(self@, tree_mode).take(i as int),
            decreases self.steps.len() - i,
        {
            let step = &self.steps[i];
            let mut subgraph_name = String::new();
            subgraph_name.append("Step #");
            push_decimal(&mut subgraph_name, i as u64);
            subgraph_name.append(" (Agent  ");
            push_decimal(&mut subgraph_name, step.agent.0 as u64);
            subgraph_name.append(")");
            let subgraph = match &step.action {
                Action::Input(input) => input.recipe.dot_subgraph(
                    tree_mode,
                    i,
                    subgraph_name.as_str(),
                ),
                Action::Output(_) => {
                    let mut out = String::new();
                    out.append("subgraph cluster");
                    push_decimal(&mut out, i as u64);
                    out.append(" { peripheries=0;label=\"");
                    out.append(shown(subgraph_name.as_str()));
                    out.append("\";\"\" [color=\"#00000000\"];}");
                    out
                },
            };
            let ghost before = texts(subgraphs@);
            subgraphs.push(subgraph);
            assert(texts(subgraphs@) =~= before.push(subgraph@));
            i = i + 1;
        }
        subgraphs
    }
}

impl Term {
    /// The name of the node that stands for the root of the term.
    pub fn unique_id(&self, tree_mode: bool, cluster_id: usize) -> (r: String)
        ensures
            r@ == node_id(self@, tree_mode, cluster_id as nat),
    {
        let mut out = String::new();
        match self {
            Term::Variable(variable) => {
                out.append("v_");
                if tree_mode {
                    push_decimal(&mut out, cluster_id as u64);
                    out.append("_");
                    push_decimal(&mut out, variable.unique_id as u64);
                } else {
                    push_decimal(&mut out, variable.resistant_id as u64);
                }
            },
            Term::Application(function, _) => {
                out.append("f_");
                if tree_mode {
                    push_decimal(&mut out, cluster_id as u64);
                    out.append("_");
                    push_decimal(&mut out, function.unique_id as u64);
                } else {
                    push_decimal(&mut out, function.resistant_id as u64);
                }
            },
        }
        out
    }

    /// The attribute list of a node.
    pub fn node_attributes(displayable: &str, color: &str, shape: &str) -> (r: String)
        ensures
            r@ == attributes(displayable@, color@, shape@),
    {
        let mut out = String::new();
        out.append("[label=\"");
        out.append(displayable);
        out.append("\",style=\"");
        out.append(STYLE);
        out.append("\",colorscheme=dark28,fillcolor=\"");
        out.append(color);
        out.append("\",shape=\"");
        out.append(shape);
        out.append("\"]");
        out
    }

    fn node_statement(&self, tree_mode: bool, cluster_id: usize) -> (r: String)
        ensures
            r@ == node_statement(self@, tree_mode, cluster_id as nat),
    {
        let mut out = self.unique_id(tree_mode, cluster_id);
        out.append(" ");
        let attributes = match self {
            Term::Variable(variable) => {
                let label = variable.to_text();
                Self::node_attributes(label.as_str(), COLOR_LEAVES, SHAPE_LEAVES)
            },
            Term::Application(function, _) => {
                let stripped = remove_prefix(function.name());
                let label = remove_fn_prefix(stripped.as_str());
                Self::node_attributes(
                    label.as_str(),
                    if function.arity() == 0 {
                        COLOR_LEAVES
                    } else {
                        COLOR
                    },
                    if function.arity() == 0 {
                        SHAPE_LEAVES
                    } else {
                        SHAPE
                    },
                )
            },
        };
        out.append(attributes.as_str());
        out.append(" [fontname=\"");
        out.append(FONT);
        out.append("\"];");
        out
    }

    /// Appends to `statements` the statements that draw `term`.
    pub fn collect_statements(
        term: &Term,
        tree_mode: bool,
        cluster_id: usize,
        statements: &mut Vec<String>,
    )
        ensures
            texts(final(statements)@) == texts(old(statements)@) + self::statements(
                term@,
                tree_mode,
                cluster_id as nat,
            ),
        decreases term,
    {
        let ghost start = texts(statements@);
        let ghost cluster = cluster_id as nat;
        let node = term.node_statement(tree_mode, cluster_id);
        statements.push(node);
        match term {
            Term::Variable(_) => {},
            Term::Application(function, subterms) => {
                proof {
                    lemma_models(subterms@);
                }
                let ghost parent = node_id(term@, tree_mode, cluster);
                let mut i: usize = 0;
                while i < subterms.len()
                    invariant
                        i <= subterms.len(),
                        *term == Term::Application(*function, *subterms),
                        cluster == cluster_id as nat,
                        parent == node_id(term@, tree_mode, cluster),
                        term@->Application_1.len() == subterms.len(),
                        forall|j: int|
                            0 <= j < subterms.len() ==> term@->Application_1[j] == subterms[j]@,
                        texts(statements@) == start + seq![
                            node_statement(term@, tree_mode, cluster),
                        ] + child_statements(
                            parent,
                            term@->Application_1.take(i as int),
                            tree_mode,
                            cluster,
                        ),
                    decreases subterms.len() - i,
                {
                    let subterm = &subterms[i];
                    let mut edge = term.unique_id(tree_mode, cluster_id);
                    edge.append(" -> ");
                    let target = subterm.unique_id(tree_mode, cluster_id);
                    edge.append(target.as_str());
                    edge.append(";");
                    let ghost before = texts(statements@);
                    statements.push(edge);
                    assert(texts(statements@) =~= before.push(edge@));
                    Self::collect_statements(subterm, tree_mode, cluster_id, statements);
                    proof {
                        let children = term@->Application_1;
                        assert(children.take(i as int + 1).drop_last() =~= children.take(i as int));
                    }
                    i = i + 1;
                }
                proof {
                    let children = term@->Application_1;
                    assert(children.take(subterms.len() as int) =~= children);
                }
            },
        }
    }

    /// The cluster that draws the term.
    ///
    /// In tree mode the cluster stands for itself and shares no node with
    /// another: the drawing is a tree. Otherwise equal symbols of different
    /// clusters meet in one node.
    pub fn dot_subgraph(&self, tree_mode: bool, cluster_id: usize, label: &str) -> (r: String)
        ensures
            r@ == term_subgraph(self@, tree_mode, cluster_id as nat, label@),
    {
        let mut statements: Vec<String> = Vec::new();
        Self::collect_statements(self, tree_mode, cluster_id, &mut statements);
        let body = join(&statements, "\n");
        let mut out = String::new();
        out.append("subgraph cluster");
        push_decimal(&mut out, cluster_id as u64);
        out.append(" { peripheries=0;fontname=\"");
        out.append(FONT);
        out.append("\";label=\"");
        out.append(shown(label));
        out.append("\";\n");
        out.append(body.as_str());
        out.append("\n}");
        out
    }
}

/// The name of the file that holds the drawing with the given number.
pub open spec fn plot_name(number: u16) -> Seq<char> {
    "test_mutation"@ + decimal(number as nat) + ".svg"@
}

/// What is needed to plot `trace` as the drawing with the number `i`: the
/// name of the file to write, and the script to hand to `dot`.
pub fn plot(trace: &Trace, i: u16) -> (r: (String, String))
    ensures
        r.0@ == plot_name(i),
        r.1@ == trace_graph(trace@, true),
{
    let mut name = String::new();
    name.append("test_mutation");
    push_decimal(&mut name, i as u64);
    name.append(".svg");
    (name, trace.dot_graph(true))
}

} // verus!
