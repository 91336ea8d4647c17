pub mod ast;
pub mod builder;
pub mod counter;
pub mod display;
pub mod dot;
pub mod error;
pub mod graph;
pub mod laws;
pub mod model;
pub mod parser;
pub mod simplify;
pub mod soundness;
pub mod source;
pub mod syntax;
pub mod text;
pub mod tikz;

use crate::ast::Ast;
use crate::builder::first_error;
use crate::builder::flow_graph_of;
use crate::builder::from_ast;
use crate::display::any_placeholder;
use crate::display::lists_edges;
use crate::display::lists_nodes;
use crate::display::GraphDisplay;
use crate::display::GraphDisplayBackend;
use crate::error::Error;
use crate::error::ErrorView;
use crate::graph::Edge;
use crate::graph::GraphNodeType;
use crate::model::GraphModel;
use crate::parser::function_from;
use crate::parser::parse;
use crate::parser::target_of;
use crate::simplify::Scaffold;
use crate::syntax::SyntaxNode;
use vstd::prelude::*;

verus! {

/// Whether `text` is the graph `graph` in the notation `backend`.
pub open spec fn notation_of(backend: GraphDisplayBackend, graph: GraphModel, text: Seq<char>) -> bool {
    exists|nodes: Seq<(usize, GraphNodeType)>, edges: Seq<Edge>|
        {
            &&& lists_nodes(graph, nodes)
            &&& lists_edges(graph, edges)
            &&& !any_placeholder(nodes)
            &&& #[trigger] backend.notation(nodes, edges) == text
        }
}

/// The flow chart of one function of a source file, in the notation `backend`.
///
/// `root` is the syntax tree of the source `content`, and `function_name` names the
/// function; without a name it is `main`. The function's body is read as a statement
/// tree, the tree is turned into its flow graph, and the graph is written down. The call
/// fails where the body cannot be read, and where the body has an error: a `break` or a
/// `continue` outside of a loop, a `switch`, or a `goto`.
pub fn generate(
    root: &SyntaxNode,
    content: &[u8],
    function_name: Option<String>,
    backend: GraphDisplayBackend,
) -> (r: Result<String, Error>)
    requires
        root.spans_within(content@.len()),
    ensures
        match r {
            Ok(text) => exists|ast: Ast, graph: GraphModel|
                {
                    &&& function_from(*root, 0, target_of(function_name), content@) == Ok::<
                        crate::ast::AstView,
                        ErrorView,
                    >(ast@)
                    &&& first_error(ast, false, false) is None
                    &&& #[trigger] flow_graph_of(ast, graph)
                    &&& graph.canonical()
                    &&& notation_of(backend, graph, text@)
                },
            Err(e) => function_from(*root, 0, target_of(function_name), content@) == Err::<
                crate::ast::AstView,
                ErrorView,
            >(e@) || exists|ast: Ast|
                {
                    &&& function_from(*root, 0, target_of(function_name), content@) == Ok::<
                        crate::ast::AstView,
                        ErrorView,
                    >(ast@)
                    &&& #[trigger] first_error(ast, false, false) == Some(e)
                },
        },
{
    let ast = match parse(root, content, function_name) {
        Ok(ast) => ast,
        Err(e) => {
            return Err(e);
        },
    };
    let graph = match from_ast(&ast) {
        Ok(graph) => graph,
        Err(e) => {
            assert(first_error(ast, false, false) == Some(e));
            return Err(e);
        },
    };
    assert(flow_graph_of(ast, graph@));
    match backend.generate_from_graph(&graph) {
        Ok(text) => {
            assert(notation_of(backend, graph@, text@));
            Ok(text)
        },
        Err(e) => {
            // Not reached: a canonical graph holds no placeholder.
            proof {
                let n = choose|n: usize| graph@.has(n) && #[trigger] graph@.nodes[n] is Dummy;
                assert(graph@.candidate(n, Scaffold::Placeholder));
                assert(false);
            }
            Err(e)
        },
    }
}

} // verus!
