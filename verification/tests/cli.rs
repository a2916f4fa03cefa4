use crlfify_stdio::cli::{
    log_line, plan_invocation, read_error_line, spawn_failure_line, usage_line, write_error_line,
};

#[test]
fn no_argument_plans_nothing() {
    assert_eq!(plan_invocation(Vec::new()), None);
}

#[test]
fn first_argument_names_the_program() {
    let args = vec!["echo".to_string(), "-n".to_string(), "hi".to_string()];
    let inv = plan_invocation(args).unwrap();
    assert_eq!(inv.program, "echo");
    assert_eq!(inv.arguments, vec!["-n".to_string(), "hi".to_string()]);
}

#[test]
fn single_argument_leaves_no_child_arguments() {
    let inv = plan_invocation(vec!["true".to_string()]).unwrap();
    assert_eq!(inv.program, "true");
    assert!(inv.arguments.is_empty());
}

#[test]
fn usage_names_the_tool() {
    assert_eq!(usage_line(), "Usage: crlfify-stdio <cmd> [args]");
}

#[test]
fn log_lines_carry_the_tag() {
    assert_eq!(log_line("hello"), "[crlfify-stdio] hello");
}

#[test]
fn spawn_failure_is_tagged() {
    assert_eq!(
        spawn_failure_line("no such file"),
        "[crlfify-stdio] Failed to spawn command: no such file"
    );
}

#[test]
fn read_error_is_tagged() {
    assert_eq!(read_error_line("boom"), "[crlfify-stdio] Read error: boom");
}

#[test]
fn write_error_is_tagged() {
    assert_eq!(write_error_line("boom"), "[crlfify-stdio] Write error: boom");
}
