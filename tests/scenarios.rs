use kappa_coder::parser::Parser;
use kappa_coder::registry::{Effect, ErrorKind, Generator};

fn demo_parser() -> Parser {
    let mut p = Parser::new();
    let r = p.parse_command(
        "create library demo path /tmp metadata \"demo\"; create processor_block demo.filter; create input demo.filter.in type f32"
            .to_string(),
    );
    assert!(r.is_ok());
    p
}

fn modules_of(p: &Parser, name: &str) -> Vec<String> {
    match p.generator(name) {
        Some(Generator::Library(l)) => l.get_modules().clone(),
        _ => panic!("no library generator"),
    }
}

#[test]
fn scenario_library_block_input() {
    let p = demo_parser();
    assert_eq!(modules_of(&p, "demo"), vec!["filter".to_string()]);
    match p.generator("demo.filter") {
        Some(Generator::Block(b)) => {
            assert_eq!(b.get_inputs().get("in"), Some(&"f32".to_string()));
            assert_eq!(b.get_inputs().len(), 1);
        }
        _ => panic!("no block generator"),
    }
}

#[test]
fn scenario_repeated_library_conflicts() {
    let mut p = demo_parser();
    let r = p.parse_command("create library demo path /tmp metadata \"demo\"".to_string());
    match r {
        Err(b) => {
            assert_eq!(b.error.kind, ErrorKind::Conflict);
            assert!(b.applied.is_empty());
        }
        Ok(_) => panic!("expected a conflict"),
    }
    assert_eq!(modules_of(&p, "demo"), vec!["filter".to_string()]);
    assert!(p.object("demo.filter.in").is_some());
}

#[test]
fn scenario_connect_without_ports_rejected() {
    let mut p = demo_parser();
    let r = p.parse_command(
        "create application app path /tmp metadata \"x\"; create task app.t1; create processor_instance app.t1.p1 type filter; connect demo.filter.p1.out app.t1.p1.in"
            .to_string(),
    );
    match r {
        Err(b) => {
            assert_eq!(b.error.kind, ErrorKind::Reference);
            assert_eq!(b.applied.len(), 11);
        }
        Ok(_) => panic!("expected a reference error"),
    }
    assert!(p.object("app.t1.p1").is_some());
    let again = p.parse_command("connect app.t1.p1.out app.t1.p1.in".to_string());
    assert_eq!(again.err().map(|b| b.error.kind), Some(ErrorKind::Reference));
}

#[test]
fn scenario_delete_library_removes_everything() {
    let mut p = demo_parser();
    let r = p
        .parse_command("create static demo.filter.k type u32 value 1; delete demo".to_string())
        .ok()
        .unwrap();
    match r.last() {
        Some(Effect::RemoveProject { path }) => assert_eq!(path, "/tmp/demo"),
        _ => panic!("expected the project's removal"),
    }
    for name in ["demo", "demo.filter", "demo.filter.in", "demo.filter.k"] {
        assert!(p.object(name).is_none());
    }
    assert!(p.generator("demo").is_none());
    assert!(p.generator("demo.filter").is_none());
}

#[test]
fn scenario_build_after_delete_fails() {
    let mut p = demo_parser();
    assert!(p.parse_command("delete demo".to_string()).is_ok());
    match p.parse_command("build demo release".to_string()) {
        Err(b) => {
            assert_eq!(b.error.kind, ErrorKind::Reference);
            assert!(b.error.message.contains("does not exist"));
            assert!(b.applied.is_empty());
        }
        Ok(_) => panic!("the build must fail"),
    }
}
