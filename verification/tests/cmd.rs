use fx::cmd::{_cmdlist, cmd, generate_items};
use fx::executor::ExecutionOutcome;
use fx::template::ConfigError;

#[test]
fn test_cmd_make_list() {
    assert_eq!(_cmdlist("echo %", &["foo", "bar", "xyzzy"]),
               ["echo foo", "echo bar", "echo xyzzy"]);
}

#[test]
fn generate_items_uses_the_given_placeholder() {
    assert_eq!(generate_items("echo %", "%", &["foo", "bar", "xyzzy"]),
               ["echo foo", "echo bar", "echo xyzzy"]);
    assert_eq!(generate_items("cp {} {}.bak", "{}", &["a", "b"]),
               ["cp a a.bak", "cp b b.bak"]);
}

#[test]
fn generate_items_keeps_order_and_duplicates() {
    assert_eq!(generate_items("ls %", "%", &["b", "a", "b"]), ["ls b", "ls a", "ls b"]);
    let none: [&str; 0] = [];
    assert!(generate_items("ls %", "%", &none).is_empty());
}

#[test]
fn cmd_refuses_a_command_without_placeholder() {
    match cmd(false, false, "echo hello", &["a"]) {
        Err(e) => {
            assert_eq!(e, ConfigError::MissingPlaceholder);
            assert_eq!(e.message("echo hello", "%"), "no '%' found in 'echo hello'");
        }
        Ok(_) => panic!("a command without placeholder was accepted"),
    }
}

#[test]
fn cmd_prepares_one_step_per_item() {
    let mut run = cmd(true, false, "echo %", &["x", "y"]).unwrap();
    assert_eq!(run.commands(), &["echo x", "echo y"]);
    let first = run.next_step().unwrap();
    assert_eq!(first.report, Some(String::from("would do 'echo x'")));
    assert!(first.invocation.is_none());
    assert_eq!(run.record(ExecutionOutcome::Succeeded), None);
    let second = run.next_step().unwrap();
    assert_eq!(second.report, Some(String::from("would do 'echo y'")));
    assert_eq!(run.record(ExecutionOutcome::Succeeded), None);
    assert!(run.is_done());
    assert!(run.next_step().is_none());
}
