use crate::display::answer;
use crate::display::any_placeholder;
use crate::display::append_answer;
use crate::display::append_name;
use crate::display::name;
use crate::error::Error;
use crate::graph::Edge;
use crate::graph::EdgeType;
use crate::graph::Graph;
use crate::graph::GraphNodeType;
use crate::text::decimal;
use crate::text::replace;
use crate::text::replaced;
use crate::text::to_decimal;
use vstd::prelude::*;
use vstd::string::StringExecFns;

verus! {

/// The text in front of the nodes: the packages, the style of a block, and the opening of
/// the picture.
pub const PROLOGUE: &'static str = "\n\\documentclass[tikz,border=10pt]{standalone}\n\\usepackage{ctex}\n\\usetikzlibrary{graphdrawing}\n\\usetikzlibrary{shapes}\n\\usepackage{spverbatim}\n\\usepackage{varwidth}\n\\usetikzlibrary{graphs}\n\\usegdlibrary{layered}\n\\usepackage[T1]{fontenc}% NOT OT1!\n\\usepackage{lmodern}% Latin Modern fonts,\n  % a modern variant of Computer Modern fonts\n\\let\\ttdefault\\rmdefault\n\\tikzstyle{block} = [%\n   draw,thick,fill=blue!0,\n   inner sep=0.3cm,\n   text centered, minimum height=1em,\n   execute at begin node={\\begin{varwidth}{8em}},\n   execute at end node={\\end{varwidth}}]\n\\begin{document}\n\\tikz [layered layout, sibling distance=3cm] {\n  ";

/// The text behind the edges.
pub const EPILOGUE: &'static str = "\n}\n\\end{document}\n  ";

/// What every TikZ document starts with: the packages, the style of a block, and the
/// opening of the picture.
pub open spec fn prologue() -> Seq<char> {
    PROLOGUE@
}

/// What every TikZ document ends with.
pub open spec fn epilogue() -> Seq<char> {
    EPILOGUE@
}

/// The command that draws one node. The text of an instruction or a decision is set
/// verbatim, with its percent signs escaped, and the command of such a node is kept on
/// one line: every line break in it, the one at its end too, becomes a blank. A
/// placeholder has no command.
pub open spec fn node_line(id: usize, kind: GraphNodeType) -> Seq<char> {
    match kind {
        GraphNodeType::Begin => "\\node[draw] ("@ + name(id)
            + ") [rounded rectangle, block] { Begin };\n"@,
        GraphNodeType::End => "\\node[draw] ("@ + name(id) + ") [rounded rectangle, block] { End };\n"@,
        GraphNodeType::Node(text) => replaced(
            "\\node[draw] ("@ + name(id) + ") [rectangle, block] { \\spverb$"@ + replaced(
                text@,
                '%',
                "\\%"@,
            ) + "$ };\n"@,
            '\n',
            " "@,
        ),
        GraphNodeType::Choice(text) => replaced(
            "\\node[draw] ("@ + name(id) + ") [diamond, aspect=2, block] { \\spverb$"@ + replaced(
                text@,
                '%',
                "\\%"@,
            ) + "$ };\n"@,
            '\n',
            " "@,
        ),
        GraphNodeType::Dummy => Seq::empty(),
    }
}

/// The command that draws one edge. The command of a branch holds the index of the
/// target where a label is expected and the answer where the target is expected.
pub open spec fn edge_line(e: Edge) -> Seq<char> {
    match e.2 {
        EdgeType::Normal => "\\draw ("@ + name(e.0) + ") edge[->] ("@ + name(e.1) + ");\n"@,
        EdgeType::Branch(taken) => "\\draw ("@ + name(e.0) + ") edge[->, below] node { "@ + decimal(
            e.1 as nat,
        ) + " } (D"@ + answer(taken) + ");\n"@,
    }
}

/// The commands of the listed nodes, one after the other.
pub open spec fn node_lines(nodes: Seq<(usize, GraphNodeType)>) -> Seq<char>
    decreases nodes.len(),
{
    if nodes.len() == 0 {
        Seq::empty()
    } else {
        node_lines(nodes.drop_last()) + node_line(nodes.last().0, nodes.last().1)
    }
}

/// The commands of the listed edges, one after the other.
pub open spec fn edge_lines(edges: Seq<Edge>) -> Seq<char>
    decreases edges.len(),
{
    if edges.len() == 0 {
        Seq::empty()
    } else {
        edge_lines(edges.drop_last()) + edge_line(edges.last())
    }
}

/// A whole graph as a TikZ document.
pub open spec fn document(nodes: Seq<(usize, GraphNodeType)>, edges: Seq<Edge>) -> Seq<char> {
    prologue() + node_lines(nodes) + edge_lines(edges) + epilogue()
}

/// The command of one node, appended to `text`.
fn append_node(text: &mut String, id: usize, kind: &GraphNodeType)
    ensures
        final(text)@ == old(text)@ + node_line(id, *kind),
{
    match kind {
        GraphNodeType::Begin => {
            text.append("\\node[draw] (");
            append_name(text, id);
            text.append(") [rounded rectangle, block] { Begin };\n");
        },
        GraphNodeType::End => {
            text.append("\\node[draw] (");
            append_name(text, id);
            text.append(") [rounded rectangle, block] { End };\n");
        },
        GraphNodeType::Node(label) => {
            let mut line = String::from_str("\\node[draw] (");
            append_name(&mut line, id);
            line.append(") [rectangle, block] { \\spverb$");
            let escaped = replace(label.as_str(), '%', "\\%");
            line.append(escaped.as_str());
            line.append("$ };\n");
            let flat = replace(line.as_str(), '\n', " ");
            text.append(flat.as_str());
        },
        GraphNodeType::Choice(label) => {
            let mut line = String::from_str("\\node[draw] (");
            append_name(&mut line, id);
            line.append(") [diamond, aspect=2, block] { \\spverb$");
            let escaped = replace(label.as_str(), '%', "\\%");
            line.append(escaped.as_str());
            line.append("$ };\n");
            let flat = replace(line.as_str(), '\n', " ");
            text.append(flat.as_str());
        },
        GraphNodeType::Dummy => {},
    }
    assert(text@ =~= old(text)@ + node_line(id, *kind));
}

/// The command of one edge, appended to `text`.
fn append_edge(text: &mut String, e: &Edge)
    ensures
        final(text)@ == old(text)@ + edge_line(*e),
{
    text.append("\\draw (");
    append_name(text, e.0);
    match e.2 {
        EdgeType::Normal => {
            text.append(") edge[->] (");
            append_name(text, e.1);
            text.append(");\n");
        },
        EdgeType::Branch(taken) => {
            text.append(") edge[->, below] node { ");
            let digits = to_decimal(e.1);
            text.append(digits.as_str());
            text.append(" } (D");
            append_answer(text, taken);
            text.append(");\n");
        },
    }
    assert(text@ =~= old(text)@ + edge_line(*e));
}

/// The listed nodes and edges as a TikZ document, or an error if a placeholder is among
/// the nodes.
pub fn render(nodes: &Vec<(usize, GraphNodeType)>, edges: &Vec<Edge>) -> (r: Result<String, Error>)
    ensures
        r is Err == any_placeholder(nodes@),
        r matches Ok(text) ==> text@ == document(nodes@, edges@),
        r matches Err(e) ==> e is UnexpectedDummyGraphNode,
{
    let mut text = String::from_str(PROLOGUE);
    let mut i: usize = 0;
    while i < nodes.len()
        invariant
            i <= nodes.len(),
            text@ == prologue() + node_lines(nodes@.take(i as int)),
            forall|k: int| 0 <= k < i ==> !((#[trigger] nodes@[k]).1 is Dummy),
        decreases nodes.len() - i,
    {
        match &nodes[i].1 {
            GraphNodeType::Dummy => {
                return Err(Error::UnexpectedDummyGraphNode);
            },
            kind => {
                append_node(&mut text, nodes[i].0, kind);
            },
        }
        proof {
            assert(nodes@.take(i + 1).drop_last() =~= nodes@.take(i as int));
            assert(text@ =~= prologue() + node_lines(nodes@.take(i + 1)));
        }
        i += 1;
    }
    let ghost body = text@;
    let mut j: usize = 0;
    while j < edges.len()
        invariant
            j <= edges.len(),
            text@ == body + edge_lines(edges@.take(j as int)),
        decreases edges.len() - j,
    {
        append_edge(&mut text, &edges[j]);
        proof {
            assert(edges@.take(j + 1).drop_last() =~= edges@.take(j as int));
            assert(text@ =~= body + edge_lines(edges@.take(j + 1)));
        }
        j += 1;
    }
    text.append(EPILOGUE);
    proof {
        assert(nodes@.take(nodes@.len() as int) =~= nodes@);
        assert(edges@.take(edges@.len() as int) =~= edges@);
        assert(text@ =~= document(nodes@, edges@));
    }
    Ok(text)
}

/// The graph as a TikZ document: its nodes in the order of their indices, then its
/// edges. `_curved` makes no difference to this notation.
pub fn from_graph(graph: &Graph, _curved: bool) -> (r: Result<String, Error>)
    ensures
        match r {
            Ok(text) => exists|nodes: Seq<(usize, GraphNodeType)>, edges: Seq<Edge>|
                {
                    &&& crate::display::lists_nodes(graph@, nodes)
                    &&& crate::display::lists_edges(graph@, edges)
                    &&& !any_placeholder(nodes)
                    &&& #[trigger] document(nodes, edges) == text@
                },
            Err(e) => e is UnexpectedDummyGraphNode && exists|n: usize|
                graph@.has(n) && #[trigger] graph@.nodes[n] is Dummy,
        },
{
    let nodes = graph.node_references();
    let edges = graph.edge_references();
    let r = render(&nodes, &edges);
    proof {
        assert(crate::display::lists_nodes(graph@, nodes@));
        assert(crate::display::lists_edges(graph@, edges@));
        if r is Ok {
            assert(document(nodes@, edges@) == r->Ok_0@);
        } else {
            let i = choose|i: int| 0 <= i < nodes@.len() && (#[trigger] nodes@[i]).1 is Dummy;
            assert(graph@.has(nodes@[i].0));
        }
    }
    r
}

} // verus!
