//! How symbols and terms are written out for a reader.

use crate::term::atoms::Variable;
use crate::term::{lemma_models, Term, TermModel};
use crate::text::{decimal, join, joined, push_decimal, texts};
use vstd::prelude::*;
use vstd::string::StrSliceExecFns;
use vstd::string::StringExecFns;

verus! {

/// The index of the first `wanted` in `text` at or after `from`, or the
/// length of `text` if there is none.
pub open spec fn index_of(text: Seq<char>, wanted: char, from: int) -> int
    decreases text.len() - from,
{
    if from >= text.len() {
        text.len() as int
    } else if from >= 0 && text[from] == wanted {
        from
    } else {
        index_of(text, wanted, from + 1)
    }
}

/// The index just behind the last `::` that ends at or before `end`, or 0 if
/// there is none.
pub open spec fn path_end(text: Seq<char>, end: int) -> int
    decreases end,
{
    if end < 2 || end > text.len() {
        0
    } else if text[end - 2] == ':' && text[end - 1] == ':' {
        end
    } else {
        path_end(text, end - 1)
    }
}

/// `text` without the module path in front of its last segment.
pub open spec fn last_segment(text: Seq<char>) -> Seq<char> {
    text.subrange(path_end(text, text.len() as int), text.len() as int)
}

/// A type or function name without its module paths.
///
/// A name with exactly one `<` is taken as a generic type: the part before
/// the `<` and the part behind it, less its closing character, each lose
/// their path. Any other name loses the path in front of its last segment.
pub open spec fn without_prefix(text: Seq<char>) -> Seq<char> {
    let open = index_of(text, '<', 0);
    if open < text.len() && index_of(text, '<', open + 1) == text.len() {
        let head = text.subrange(0, open);
        let tail = text.subrange(open + 1, text.len() as int);
        let inner = if tail.len() > 0 {
            tail.drop_last()
        } else {
            tail
        };
        last_segment(head) + seq!['<'] + last_segment(inner) + seq!['>']
    } else {
        last_segment(text)
    }
}

/// `text` with every `fn_` taken out, reading from the left.
pub open spec fn without_fn(text: Seq<char>) -> Seq<char>
    decreases text.len(),
{
    if text.len() == 0 {
        Seq::empty()
    } else if text.len() >= 3 && text[0] == 'f' && text[1] == 'n' && text[2] == '_' {
        without_fn(text.skip(3))
    } else {
        seq![text[0]] + without_fn(text.skip(1))
    }
}

/// How a variable is written: its agent and counter, then its type.
pub open spec fn variable_text(variable: Variable) -> Seq<char> {
    "("@ + decimal(variable.agent.0 as nat) + ","@ + decimal(variable.counter as nat) + ")/"@
        + without_prefix(variable.typ.name@)
}

/// As many tabulators as `depth` says.
pub open spec fn tabs(depth: nat) -> Seq<char>
    decreases depth,
{
    if depth == 0 {
        Seq::empty()
    } else {
        tabs((depth - 1) as nat) + "\t"@
    }
}

/// Each term of a sequence as [`TermModel::pretty_at`] writes it.
pub open spec fn pretty_each(terms: Seq<TermModel>, depth: nat) -> Seq<Seq<char>>
    decreases terms, 0nat,
{
    if terms.len() == 0 {
        Seq::empty()
    } else {
        pretty_each(terms.drop_last(), depth).push(terms.last().pretty_at(depth))
    }
}

impl TermModel {
    /// The term written out with one line per symbol, each argument one
    /// tabulator deeper than its function.
    pub open spec fn pretty_at(self, depth: nat) -> Seq<char>
        decreases self, 1nat,
    {
        match self {
            TermModel::Variable(variable) => tabs(depth) + variable_text(variable),
            TermModel::Application(function, arguments) => if arguments.len() == 0 {
                tabs(depth) + without_prefix(function.shape.name)
            } else {
                tabs(depth) + without_prefix(function.shape.name) + "(\n"@ + joined(
                    pretty_each(arguments, depth + 1),
                    ",\n"@,
                ) + "\n"@ + tabs(depth) + ")"@
            },
        }
    }
}

fn find_char(text: &str, wanted: char, from: usize) -> (r: usize)
    ensures
        r == index_of(text@, wanted, from as int),
        r <= text@.len(),
{
    let length = text.unicode_len();
    let mut i: usize = from;
    while i < length
        invariant
            length == text@.len(),
            index_of(text@, wanted, i as int) == index_of(text@, wanted, from as int),
        decreases length - i,
    {
        if text.get_char(i) == wanted {
            return i;
        }
        i = i + 1;
    }
    length
}

fn find_path_end(text: &str, end: usize) -> (r: usize)
    requires
        end <= text@.len(),
    ensures
        r == path_end(text@, end as int),
        r <= end,
{
    let mut i: usize = end;
    while i >= 2
        invariant
            i <= end,
            end <= text@.len(),
            path_end(text@, i as int) == path_end(text@, end as int),
        decreases i,
    {
        if text.get_char(i - 2) == ':' && text.get_char(i - 1) == ':' {
            return i;
        }
        i = i - 1;
    }
    0
}

fn push_last_segment(out: &mut String, text: &str)
    ensures
        final(out)@ == old(out)@ + last_segment(text@),
{
    let length = text.unicode_len();
    let start = find_path_end(text, length);
    out.append(text.substring_char(start, length));
}

/// Strips the module paths from a type or function name.
pub fn remove_prefix(name: &str) -> (r: String)
    ensures
        r@ == without_prefix(name@),
{
    let length = name.unicode_len();
    let open = find_char(name, '<', 0);
    let mut out = String::new();
    if open < length && find_char(name, '<', open + 1) == length {
        let head = name.substring_char(0, open);
        let tail = name.substring_char(open + 1, length);
        let tail_length = tail.unicode_len();
        let inner = if tail_length > 0 {
            tail.substring_char(0, tail_length - 1)
        } else {
            tail
        };
        proof {
            reveal_strlit("<");
            reveal_strlit(">");
        }
        push_last_segment(&mut out, head);
        out.append("<");
        push_last_segment(&mut out, inner);
        out.append(">");
    } else {
        push_last_segment(&mut out, name);
    }
    out
}

/// Takes every `fn_` out of a name.
pub fn remove_fn_prefix(name: &str) -> (r: String)
    ensures
        r@ == without_fn(name@),
{
    let length = name.unicode_len();
    let mut out = String::new();
    let mut i: usize = 0;
    assert(name@.skip(0) =~= name@);
    while i < length
        invariant
            i <= length,
            length == name@.len(),
            out@ + without_fn(name@.skip(i as int)) == without_fn(name@),
        decreases length - i,
    {
        let ghost rest = name@.skip(i as int);
        if length - i >= 3 && name.get_char(i) == 'f' && name.get_char(i + 1) == 'n'
            && name.get_char(i + 2) == '_' {
            assert(rest.skip(3) =~= name@.skip(i as int + 3));
            i = i + 3;
        } else {
            out.append(name.substring_char(i, i + 1));
            proof {
                assert(rest.skip(1) =~= name@.skip(i as int + 1));
            }
            i = i + 1;
        }
    }
    out
}

impl Variable {
    /// The variable as it is shown to a reader.
    pub fn to_text(&self) -> (r: String)
        ensures
            r@ == variable_text(*self),
    {
        let mut out = String::new();
        out.append("(");
        push_decimal(&mut out, self.agent.0 as u64);
        out.append(",");
        push_decimal(&mut out, self.counter as u64);
        out.append(")/");
        let typ = remove_prefix(self.typ.name.as_str());
        out.append(typ.as_str());
        out
    }
}

fn push_tabs(out: &mut String, depth: usize)
    ensures
        final(out)@ == old(out)@ + tabs(depth as nat),
{
    let mut i: usize = 0;
    while i < depth
        invariant
            i <= depth,
            out@ == old(out)@ + tabs(i as nat),
        decreases depth - i,
    {
        out.append("\t");
        i = i + 1;
    }
}

impl Term {
    fn display_at_depth(&self, depth: usize) -> (r: String)
        requires
            depth + self@.size() <= usize::MAX,
        ensures
            r@ == self@.pretty_at(depth as nat),
        decreases self,
    {
        let mut out = String::new();
        push_tabs(&mut out, depth);
        match self {
            Term::Variable(variable) => {
                let text = variable.to_text();
                out.append(text.as_str());
            },
            Term::Application(function, arguments) => {
                let name = remove_prefix(function.shape.name.as_str());
                out.append(name.as_str());
                proof {
                    lemma_models(arguments@);
                }
                if arguments.len() > 0 {
                    let mut lines: Vec<String> = Vec::new();
                    let mut i: usize = 0;
                    while i < arguments.len()
                        invariant
                            i <= arguments.len(),
                            *self == Term::Application(*function, *arguments),
                            depth + self@.size() <= usize::MAX,
                            self@->Application_1.len() == arguments.len(),
                            forall|j: int|
                                0 <= j < arguments.len() ==> self@->Application_1[j]
                                    == arguments[j]@,
                            texts(lines@) == pretty_each(
                                self@->Application_1.take(i as int),
                                (depth + 1) as nat,
                            ),
                        decreases arguments.len() - i,
                    {
                        proof {
                            crate::term::lemma_size_of_argument(self@, i as int);
                        }
                        let line = arguments[i].display_at_depth(depth + 1);
                        lines.push(line);
                        proof {
                            let children = self@->Application_1;
                            assert(children.take(i as int + 1).drop_last() =~= children.take(
                                i as int,
                            ));
                        }
                        i = i + 1;
                    }
                    assert(self@->Application_1.take(arguments.len() as int)
                        =~= self@->Application_1);
                    let body = join(&lines, ",\n");
                    out.append("(\n");
                    out.append(body.as_str());
                    out.append("\n");
                    push_tabs(&mut out, depth);
                    out.append(")");
                }
            },
        }
        out
    }

    /// The term written out for a reader, one line per symbol.
    pub fn pretty(&self) -> (r: String)
        ensures
            r@ == self@.pretty_at(0),
    {
        let size = self.size();
        self.display_at_depth(0)
    }
}

} // verus!
