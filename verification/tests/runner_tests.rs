use melorun::{ReplError, Runner, Value};

#[test]
fn classifies_spaced_binding() {
    let mut runner = Runner::new(None);
    let cand = runner.prepare_line("y = 1").unwrap();
    assert_eq!(cand.name.as_deref(), Some("y"));
    runner.commit_line(&cand.name, &Value::Int(0, 1));
}

#[test]
fn classifies_equality_test_as_bare_expression() {
    let runner = Runner::new(None);
    let cand = runner.prepare_line("a == 1").unwrap();
    assert_eq!(cand.name, None);
}

#[test]
fn classifies_unspaced_binding() {
    let runner = Runner::new(None);
    let cand = runner.prepare_line("x=2").unwrap();
    assert_eq!(cand.name.as_deref(), Some("x"));
}

#[test]
fn rejects_malformed_binding_name() {
    let runner = Runner::new(None);
    let err = runner.prepare_line("Y = 1").unwrap_err();
    assert!(matches!(err, ReplError::InvalidBindingName));
}

#[test]
fn repl_binding_is_spliced_as_literal() {
    let mut runner = Runner::new(None);
    let first = runner.prepare_line("x = 2 + 3").unwrap();
    assert!(first.program.contains("2 + 3"));
    let rendered = runner.commit_line(&first.name, &Value::Int(0, 5));
    assert_eq!(rendered, "5");
    let second = runner.prepare_line("x * 10").unwrap();
    // the second program re-binds x to its rendered literal, not to the
    // original expression
    assert!(second.program.contains("let x = (5) in (x * 10)"));
    assert!(!second.program.contains("2 + 3"));
}

#[test]
fn later_binding_replaces_earlier_one() {
    let mut runner = Runner::new(None);
    let first = runner.prepare_line("x = 1").unwrap();
    runner.commit_line(&first.name, &Value::Int(0, 1));
    let again = runner.prepare_line("x = 2").unwrap();
    runner.commit_line(&again.name, &Value::Int(0, 2));
    assert_eq!(runner.bindings.len(), 1);
    assert_eq!(runner.bindings[0].0, "x");
    assert_eq!(runner.bindings[0].1, "2");
}

#[test]
fn load_discards_repl_bindings() {
    let mut runner = Runner::new(None);
    let cand = runner.prepare_line("x = 1").unwrap();
    runner.commit_line(&cand.name, &Value::Int(0, 1));
    assert_eq!(runner.bindings.len(), 1);
    runner.commit_load("prog.melo", "def f() = 1");
    assert_eq!(runner.bindings.len(), 0);
    let after = runner.prepare_line("x * 10").unwrap();
    assert!(!after.program.contains("let x"));
}

#[test]
fn preamble_stops_at_first_divider() {
    let mut runner = Runner::new(None);
    runner.commit_load("prog.melo", "def f() = 1\n---\nf()\n");
    let cand = runner.prepare_line("f()").unwrap();
    assert!(cand.program.starts_with("def f() = 1\n"));
    // the old body after the divider does not reappear
    assert_eq!(cand.program.matches("---").count(), 1);
}

#[test]
fn sourceless_session_has_empty_preamble() {
    let mut runner = Runner::new(None);
    runner.commit_load("p.melo", "1 + 1");
    let cand = runner.prepare_line("2").unwrap();
    assert!(cand.program.starts_with("\n---\n"));
}

#[test]
fn failed_line_leaves_bindings_unchanged() {
    let mut runner = Runner::new(None);
    let cand = runner.prepare_line("x = 1").unwrap();
    runner.commit_line(&cand.name, &Value::Int(0, 1));
    let err = runner.prepare_line("BAD = 1").unwrap_err();
    assert!(matches!(err, ReplError::InvalidBindingName));
    assert_eq!(runner.bindings.len(), 1);
    assert_eq!(runner.bindings[0].0, "x");
}

#[test]
fn whitespace_around_line_is_trimmed() {
    let runner = Runner::new(None);
    let cand = runner.prepare_line("  y = 4  ").unwrap();
    assert_eq!(cand.name.as_deref(), Some("y"));
}

#[test]
fn fresh_session_preamble_is_placeholder_definition() {
    let runner = Runner::new(None);
    let cand = runner.prepare_line("1").unwrap();
    // the placeholder source contains a definition keyword, so it is kept
    // whole as the preamble
    assert!(cand.program.starts_with("def "));
}
