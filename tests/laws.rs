use kappa_coder::parser::Parser;
use kappa_coder::registry::{Effect, ErrorKind, Generator};

fn demo_parser() -> Parser {
    let mut p = Parser::new();
    assert!(p
        .parse_command(
            "create library demo path /tmp metadata d; create processor_block demo.filter; create input demo.filter.in type f32; create output demo.filter.out type f32; create parameter demo.filter.gain type f32 value 1.0"
                .to_string()
        )
        .is_ok());
    assert!(p
        .parse_command(
            "create application app path /tmp metadata a; create task app.t1; create processor_instance app.t1.p1 type filter; create processor_instance app.t1.p2 type filter"
                .to_string()
        )
        .is_ok());
    p
}

fn kind_of(r: Result<Vec<Effect>, kappa_coder::parser::BatchError>) -> Option<ErrorKind> {
    r.err().map(|b| b.error.kind)
}

fn block_text(p: &Parser, name: &str) -> String {
    match p.generator(name) {
        Some(Generator::Block(b)) => b.generate(),
        _ => panic!("no block generator"),
    }
}

fn app_text(p: &Parser, name: &str) -> String {
    match p.generator(name) {
        Some(Generator::Application(a)) => a.generate(),
        _ => panic!("no application generator"),
    }
}

#[test]
fn repeated_create_of_each_kind_conflicts() {
    let mut p = demo_parser();
    let before = block_text(&p, "demo.filter");
    for stmt in [
        "create processor_block demo.filter",
        "create input demo.filter.in type f32",
        "create parameter demo.filter.gain type f32 value 1.0",
        "create task app.t1",
        "create processor_instance app.t1.p1 type filter",
        "create application app path /tmp metadata a",
    ] {
        assert_eq!(kind_of(p.parse_command(stmt.to_string())), Some(ErrorKind::Conflict));
    }
    assert_eq!(block_text(&p, "demo.filter"), before);
}

#[test]
fn member_needs_existing_block() {
    let mut p = demo_parser();
    let before = block_text(&p, "demo.filter");
    assert_eq!(
        kind_of(p.parse_command("create input demo.other.x type f32".to_string())),
        Some(ErrorKind::Reference)
    );
    assert_eq!(
        kind_of(p.parse_command("create state app.t1.x type f32".to_string())),
        Some(ErrorKind::Reference)
    );
    assert_eq!(
        kind_of(p.parse_command("create processor_instance demo.filter.p type filter".to_string())),
        Some(ErrorKind::Reference)
    );
    assert_eq!(
        kind_of(p.parse_command("create task demo.t".to_string())),
        Some(ErrorKind::Reference)
    );
    assert!(p.object("demo.other.x").is_none());
    assert!(p.object("app.t1.x").is_none());
    assert_eq!(block_text(&p, "demo.filter"), before);
}

#[test]
fn rendering_twice_gives_the_same_text() {
    let p = demo_parser();
    assert_eq!(block_text(&p, "demo.filter"), block_text(&p, "demo.filter"));
    assert_eq!(app_text(&p, "app"), app_text(&p, "app"));
}

#[test]
fn connect_accepts_output_to_input_only() {
    let mut p = demo_parser();
    assert_eq!(
        kind_of(p.parse_command("connect app.t1.p1.in app.t1.p2.out".to_string())),
        Some(ErrorKind::Reference)
    );
    assert_eq!(
        kind_of(p.parse_command("connect app.t1.p1.out app.t1.p9.in".to_string())),
        Some(ErrorKind::Reference)
    );
    assert!(p.parse_command("connect app.t1.p1.out app.t1.p2.in".to_string()).is_ok());
    let text = app_text(&p, "app");
    assert!(text.contains("    let sender = app_t1_p2.get_input::<_>(\"in\").unwrap().sender;"));
    assert!(text.contains("    app_t1_p1.connect::<_>(\"out\", sender).unwrap();"));
}

#[test]
fn export_and_import_restore_the_project() {
    let mut p = demo_parser();
    let objects = p.project_objects("demo");
    assert_eq!(objects.len(), 5);
    let lib_before = match p.generator("demo") {
        Some(Generator::Library(l)) => l.generate(),
        _ => panic!(),
    };
    let block_before = block_text(&p, "demo.filter");
    let lib = match p.generator("demo") {
        Some(Generator::Library(l)) => kappa_coder::lib_coder::LibCoder::from_parts(
            l.get_modules().clone(),
            kappa_coder::lib_coder::ModuleStruct {
                name: l.get_descriptor().name.clone(),
                description: l.get_descriptor().description.clone(),
                authors: l.get_descriptor().authors.clone(),
                release_date: l.get_descriptor().release_date.clone(),
                version: l.get_descriptor().version,
                dependencies: l.get_descriptor().dependencies.clone(),
                provides: l.get_descriptor().provides.clone(),
            },
            l.get_path().clone(),
            l.get_file_path().clone(),
        )
        .unwrap(),
        _ => panic!(),
    };
    let block = match p.generator("demo.filter") {
        Some(Generator::Block(b)) => rebuild_block(b),
        _ => panic!(),
    };
    assert!(p.parse_command("delete demo".to_string()).is_ok());
    assert!(p.object("demo").is_none());
    let r = p.import_project(objects, Generator::Library(lib), vec![block]);
    assert!(r.is_ok());
    assert!(p.object("demo.filter.gain").is_some());
    let lib_after = match p.generator("demo") {
        Some(Generator::Library(l)) => l.generate(),
        _ => panic!(),
    };
    assert_eq!(lib_after, lib_before);
    assert_eq!(block_text(&p, "demo.filter"), block_before);
}

fn copy_map(m: &kappa_coder::strmap::StrMap<String>) -> kappa_coder::strmap::StrMap<String> {
    kappa_coder::strmap::StrMap::from_entries(m.entries().clone()).unwrap()
}

fn copy_slots(
    m: &kappa_coder::strmap::StrMap<kappa_coder::processor_coder::Typed>,
) -> kappa_coder::strmap::StrMap<kappa_coder::processor_coder::Typed> {
    let v = m
        .entries()
        .iter()
        .map(|(k, t)| {
            (
                k.clone(),
                kappa_coder::processor_coder::Typed {
                    category: t.category,
                    name: t.name.clone(),
                    data_type: t.data_type.clone(),
                    default: t.default.clone(),
                    limits: t.limits.as_ref().map(|l| kappa_coder::processor_coder::Limits {
                        min: l.min.clone(),
                        max: l.max.clone(),
                    }),
                },
            )
        })
        .collect();
    kappa_coder::strmap::StrMap::from_entries(v).unwrap()
}

fn rebuild_block(
    b: &kappa_coder::processor_coder::ProcessorCoder,
) -> kappa_coder::processor_coder::ProcessorCoder {
    kappa_coder::processor_coder::ProcessorCoder::from_parts(
        b.get_name().clone(),
        b.get_path().clone(),
        copy_map(b.get_inputs()),
        copy_map(b.get_outputs()),
        copy_map(b.get_states()),
        copy_slots(b.get_statics()),
        copy_slots(b.get_parameters()),
        b.get_codes().clone(),
    )
    .unwrap()
}

#[test]
fn import_into_a_loaded_project_conflicts() {
    let mut p = demo_parser();
    let objects = p.project_objects("demo");
    let lib = kappa_coder::lib_coder::LibCoder::new("/tmp/demo".to_string());
    let r = p.import_project(objects, Generator::Library(lib), Vec::new());
    assert_eq!(r.err().map(|e| e.kind), Some(ErrorKind::Conflict));
}

#[test]
fn failed_statement_keeps_earlier_ones() {
    let mut p = Parser::new();
    match p.parse_command("create library a path /tmp metadata x; frobnicate a".to_string()) {
        Err(b) => {
            assert_eq!(b.error.kind, ErrorKind::Grammar);
            assert_eq!(b.applied.len(), 5);
        }
        Ok(_) => panic!("the second statement must fail"),
    }
    assert!(p.object("a").is_some());
}
