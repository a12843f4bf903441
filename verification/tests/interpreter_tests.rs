use rlox::error::RLoxError;
use rlox::interpreter::{prompt_action, run, PromptAction};

#[test]
fn run_renders_the_tree_of_the_source() {
    let expected = "digraph G {\n\
        \"+_0\"[label=\"+\"];\n\
        \"1_1\"[label=\"1\"];\n\
        \"*_1\"[label=\"*\"];\n\
        \"2_2\"[label=\"2\"];\n\
        \"3_2\"[label=\"3\"];\n\
        \"*_1\" -> \"2_2\";\n\
        \"*_1\" -> \"3_2\";\n\
        \"+_0\" -> \"1_1\";\n\
        \"+_0\" -> \"*_1\";\n\
        }";
    assert_eq!(run("1 + 2 * 3".to_string()).unwrap(), expected);
}

#[test]
fn run_renders_a_syntax_error_as_a_node() {
    assert_eq!(run("(1 + 2".to_string()).unwrap(), "digraph G {\n\"ERROR_0\"[label=\"ERROR\"];\n}");
}

#[test]
fn run_of_empty_source_is_an_error_node() {
    assert_eq!(run(String::new()).unwrap(), "digraph G {\n\"ERROR_0\"[label=\"ERROR\"];\n}");
}

#[test]
fn run_reports_a_lexical_fault() {
    assert_eq!(
        run("1 +\n \"open".to_string()).unwrap_err(),
        RLoxError::Source {
            line: 2,
            location: String::new(),
            message: "unterminated string".to_string()
        }
    );
}

#[test]
fn prompt_prints_a_graph() {
    assert_eq!(prompt_action(Ok("graph".to_string())), PromptAction::Print("graph".to_string()));
}

#[test]
fn prompt_reports_a_source_fault_and_goes_on() {
    let fault = RLoxError::source(2, String::new(), "unknown character: @".to_string());
    assert_eq!(
        prompt_action(Err(fault)),
        PromptAction::Report("[2] Error : unknown character: @".to_string())
    );
}

#[test]
fn prompt_leaves_on_an_io_error() {
    let error = RLoxError::IO { kind: std::io::ErrorKind::Other };
    assert_eq!(
        prompt_action(Err(error)),
        PromptAction::Leave(RLoxError::IO { kind: std::io::ErrorKind::Other })
    );
}
