//! The graph description of a syntax tree: a `graphviz` text with one
//! graph node per tree node, edges from each node to its children, and a
//! trailing block that maps node identifiers to readable labels. Writing
//! the text to a file and rendering it are left to the caller; this module
//! only builds the text, and builds it exactly as the ghost model
//! `spec_graph` gives it.

use vstd::prelude::*;
use vstd::string::StringExecFns;

use crate::parser::{spec_long_type, spec_short_type, ParseNode, Terminal};
use crate::text::{spec_nat_digits, u64_to_string};

verus! {

/// The identifier of a tree node in the graph text: its long label, its
/// depth and which side of its parent it hangs on, quoted.
pub open spec fn spec_node_id(n: ParseNode, side: Seq<char>) -> Seq<char> {
    "\"id="@ + spec_long_type(n.terminal) + "_"@ + spec_nat_digits(n.depth as nat) + "_"@ + side
        + "\""@
}

/// The label line of a tree node in the trailing block of the graph text.
pub open spec fn spec_node_entry(n: ParseNode, side: Seq<char>) -> Seq<char> {
    "\t\t"@ + spec_node_id(n, side) + " [label = \""@ + spec_short_type(n.terminal) + "\"]\n"@
}

/// What one subtree adds to the graph text: the edge text and the label
/// text. A leaf closes its edge chain; a parenthesis node starts a fresh
/// chain to its single child; any other node chains to both children.
pub open spec fn spec_add_child(n: ParseNode, side: Seq<char>) -> (Seq<char>, Seq<char>)
    decreases n,
{
    match n.left_child {
        None => (spec_node_id(n, side) + "\n\t"@, spec_node_entry(n, side)),
        Some(l) => match n.right_child {
            None => if n.terminal is Paren {
                let sub = spec_add_child(*l, "single"@);
                (
                    "\t"@ + spec_node_id(n, side) + " -- "@ + sub.0,
                    spec_node_entry(n, side) + sub.1,
                )
            } else {
                (Seq::empty(), Seq::empty())
            },
            Some(r) => {
                let subl = spec_add_child(*l, "left"@);
                let subr = spec_add_child(*r, "right"@);
                (
                    spec_node_id(n, side) + " -- "@ + subl.0 + spec_node_id(n, side) + " -- "@
                        + subr.0,
                    spec_node_entry(n, side) + subl.1 + spec_node_entry(n, side) + subr.1,
                )
            },
        },
    }
}

/// The whole graph text of a tree: the edge lines, then the label block,
/// inside `graph { ... }`.
pub open spec fn spec_graph(ast: ParseNode) -> Seq<char> {
    let body: (Seq<char>, Seq<char>) = match ast.left_child {
        None => ("graph {\n"@, "{\n"@),
        Some(l) => {
            let subl = spec_add_child(*l, "left"@);
            let g1 = "graph {\n"@ + "\t"@ + spec_node_id(ast, "root"@) + " -- "@ + subl.0;
            let p1 = "{\n"@ + spec_node_entry(ast, "root"@) + subl.1;
            match ast.right_child {
                None => (g1, p1),
                Some(r) => {
                    let subr = spec_add_child(*r, "right"@);
                    (
                        g1 + spec_node_id(ast, "root"@) + " -- "@ + subr.0,
                        p1 + spec_node_entry(ast, "root"@) + subr.1,
                    )
                },
            }
        },
    };
    body.0 + body.1 + "\t}\n"@ + "}"@
}

fn push_node_id(s: &mut String, n: &ParseNode, side: &str)
    ensures
        final(s)@ == old(s)@ + spec_node_id(*n, side@),
{
    s.append("\"id=");
    let lt = n.get_long_type();
    s.append(lt.as_str());
    s.append("_");
    let d = u64_to_string(n.get_depth() as u64);
    s.append(d.as_str());
    s.append("_");
    s.append(side);
    s.append("\"");
    proof {
        assert(s@ =~= old(s)@ + spec_node_id(*n, side@));
    }
}

fn push_node_entry(s: &mut String, n: &ParseNode, side: &str)
    ensures
        final(s)@ == old(s)@ + spec_node_entry(*n, side@),
{
    s.append("\t\t");
    push_node_id(s, n, side);
    s.append(" [label = \"");
    let st = n.get_short_type();
    s.append(st.as_str());
    s.append("\"]\n");
    proof {
        assert(s@ =~= old(s)@ + spec_node_entry(*n, side@));
    }
}

/// Appends what the subtree at `ast_node` adds to the edge text `graph`
/// and the label text `preamble`, hanging on the `side` of its parent.
#[verifier::rlimit(50)]
pub fn add_child(ast_node: &ParseNode, graph: &mut String, preamble: &mut String, side: &str)
    ensures
        final(graph)@ == old(graph)@ + spec_add_child(*ast_node, side@).0,
        final(preamble)@ == old(preamble)@ + spec_add_child(*ast_node, side@).1,
    decreases *ast_node,
{
    match &ast_node.left_child {
        None => {
            push_node_id(graph, ast_node, side);
            graph.append("\n\t");
            push_node_entry(preamble, ast_node, side);
            proof {
                assert(graph@ =~= old(graph)@ + spec_add_child(*ast_node, side@).0);
            }
        },
        Some(l) => match &ast_node.right_child {
            None => {
                if matches!(ast_node.terminal, Terminal::Paren) {
                    graph.append("\t");
                    push_node_id(graph, ast_node, side);
                    graph.append(" -- ");
                    push_node_entry(preamble, ast_node, side);
                    add_child(l, graph, preamble, "single");
                    proof {
                        assert(graph@ =~= old(graph)@ + spec_add_child(*ast_node, side@).0);
                        assert(preamble@ =~= old(preamble)@ + spec_add_child(
                            *ast_node,
                            side@,
                        ).1);
                    }
                } else {
                    proof {
                        assert(graph@ =~= old(graph)@ + spec_add_child(*ast_node, side@).0);
                        assert(preamble@ =~= old(preamble)@ + spec_add_child(
                            *ast_node,
                            side@,
                        ).1);
                    }
                }
            },
            Some(r) => {
                push_node_id(graph, ast_node, side);
                graph.append(" -- ");
                push_node_entry(preamble, ast_node, side);
                add_child(l, graph, preamble, "left");
                push_node_id(graph, ast_node, side);
                graph.append(" -- ");
                push_node_entry(preamble, ast_node, side);
                add_child(r, graph, preamble, "right");
                proof {
                    assert(graph@ =~= old(graph)@ + spec_add_child(*ast_node, side@).0);
                    assert(preamble@ =~= old(preamble)@ + spec_add_child(*ast_node, side@).1);
                }
            },
        },
    }
}

/// The graph description text of the tree rooted at `ast`, exactly as the
/// ghost model `spec_graph` gives it.
pub fn create_graph_from_ast(ast: &ParseNode) -> (s: String)
    ensures
        s@ == spec_graph(*ast),
{
    let mut graph = "graph {\n".to_owned();
    let mut preamble = "{\n".to_owned();
    match &ast.left_child {
        None => {},
        Some(l) => {
            graph.append("\t");
            push_node_id(&mut graph, ast, "root");
            graph.append(" -- ");
            push_node_entry(&mut preamble, ast, "root");
            add_child(l, &mut graph, &mut preamble, "left");
            match &ast.right_child {
                None => {},
                Some(r) => {
                    push_node_id(&mut graph, ast, "root");
                    graph.append(" -- ");
                    push_node_entry(&mut preamble, ast, "root");
                    add_child(r, &mut graph, &mut preamble, "right");
                },
            }
        },
    }
    preamble.append("\t}\n");
    graph.append(preamble.as_str());
    graph.append("}");
    proof {
        assert(graph@ =~= spec_graph(*ast));
    }
    graph
}

} // verus!
