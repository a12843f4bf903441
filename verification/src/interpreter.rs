//! The pipeline from source text to the graph of its syntax tree, and what
//! a prompt does with the outcome of a line.

use crate::error::{ErrorView, RLoxError, RLoxResult};
use crate::grammar::syntax_tree;
use crate::lexical::scan;
use crate::parser::Parser;
use crate::scanner::Scanner;
use vstd::prelude::*;

verus! {

/// The graph of the syntax tree of `source`, or the first fault that the
/// scanner finds in it.
pub open spec fn graph_of(source: Seq<char>) -> Result<Seq<char>, ErrorView> {
    match scan(source) {
        Ok(tokens) => Ok(syntax_tree(tokens).rendering()),
        Err(error) => Err(error),
    }
}

/// Scans and parses `src` and renders its syntax tree as a graph.
pub fn run(src: String) -> (result: RLoxResult<String>)
    requires
        src@.len() < usize::MAX,
    ensures
        (match graph_of(src@) {
            Ok(graph) => result matches Ok(text) && text@ == graph,
            Err(error) => result matches Err(reported) && reported@ == error,
        }),
{
    let mut scanner = Scanner::new(src);
    let tokens = match scanner.scan_tokens() {
        Ok(tokens) => tokens,
        Err(error) => {
            return Err(error);
        },
    };
    let mut parser = Parser::new(tokens);
    let ast = parser.parse();
    Ok(ast.pretty_print())
}

/// What a prompt does after a line has been run.
#[derive(Debug, PartialEq)]
pub enum PromptAction {
    /// Print the graph and read the next line.
    Print(String),
    /// Print the diagnostic line of a fault in the source and read the next
    /// line.
    Report(String),
    /// Leave the prompt with the error.
    Leave(RLoxError),
}

/// Decides what a prompt does with the outcome of a line: a graph is
/// printed, a fault in the source is reported and the prompt goes on, and
/// any other error ends it.
pub fn prompt_action(outcome: RLoxResult<String>) -> (action: PromptAction)
    ensures
        (match outcome {
            Ok(graph) => action == PromptAction::Print(graph),
            Err(RLoxError::Source { line, location, message }) => action matches PromptAction::Report(
                text,
            ) && text@ == outcome->Err_0@.text(),
            Err(error) => action == PromptAction::Leave(error),
        }),
{
    match outcome {
        Ok(graph) => PromptAction::Print(graph),
        Err(error) => match error {
            RLoxError::Source { .. } => PromptAction::Report(error.to_string()),
            _ => PromptAction::Leave(error),
        },
    }
}

} // verus!
