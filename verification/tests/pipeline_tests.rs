//! End-to-end REPL scenarios through the real compiler and bytecode
//! executor: each line is composed by the session manager, compiled,
//! executed, rendered, and committed back into the session.

use std::path::PathBuf;

use mil::compiler::Compile;

use melorun::{Runner, Value};

fn import(v: &themelio_stf::melvm::Value) -> Value {
    match v {
        themelio_stf::melvm::Value::Int(i) => {
            let (hi, lo) = i.into_words();
            Value::Int(hi, lo)
        }
        themelio_stf::melvm::Value::Bytes(b) => {
            Value::Bytes((0..b.len()).map(|i| *b.get(i).unwrap()).collect())
        }
        themelio_stf::melvm::Value::Vector(vv) => {
            Value::Vector((0..vv.len()).map(|i| import(vv.get(i).unwrap())).collect())
        }
    }
}

fn eval_line(runner: &mut Runner, line: &str) -> Result<String, String> {
    let cand = runner
        .prepare_line(line)
        .map_err(|_| "invalid binding name".to_string())?;
    let path = PathBuf::from(&runner.src_path);
    let (mil_code, _t) =
        melodeon::compile(&cand.program, &path).map_err(|e| format!("{}", e))?;
    let parsed = mil::parser::parse(&mil_code).expect("mil compilation failed");
    let ops = parsed.compile_onto(mil::compiler::BinCode(Vec::new())).0;
    let mut executor = themelio_stf::melvm::Executor::new_from_env(
        ops,
        themelio_stf::Transaction::empty_test(),
        None,
    );
    if !executor.run_to_end_preserve_stack() {
        return Err("execution failed".to_string());
    }
    let val = executor.stack.pop().ok_or("empty stack")?;
    Ok(runner.commit_line(&cand.name, &import(&val)))
}

#[test]
fn repl_binding_then_use_yields_fifty() {
    let mut runner = Runner::new(None);
    let first = eval_line(&mut runner, "x = 2 + 3").unwrap();
    assert_eq!(first, "5");
    let second = eval_line(&mut runner, "x * 10").unwrap();
    assert_eq!(second, "50");
}

#[test]
fn load_clears_bindings_and_unbinds_names() {
    let mut runner = Runner::new(None);
    eval_line(&mut runner, "x = 2 + 3").unwrap();
    assert_eq!(eval_line(&mut runner, "x * 10").unwrap(), "50");
    runner.commit_load("fresh.melo", "def g() = 1");
    // the name bound before the load no longer resolves: the composed
    // program must fail to compile, not reuse the old value
    assert!(eval_line(&mut runner, "x * 10").is_err());
}

#[test]
fn bare_expression_is_not_cached() {
    let mut runner = Runner::new(None);
    assert_eq!(eval_line(&mut runner, "1 + 1").unwrap(), "2");
    assert_eq!(runner.bindings.len(), 0);
}

#[test]
fn rebinding_uses_latest_value() {
    let mut runner = Runner::new(None);
    eval_line(&mut runner, "x = 1").unwrap();
    eval_line(&mut runner, "x = 41 + 1").unwrap();
    assert_eq!(eval_line(&mut runner, "x").unwrap(), "42");
}
