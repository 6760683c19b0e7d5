use kappa_coder::cargo_interface::CargoInterface;
use kappa_coder::lib_coder::LibCoder;
use kappa_coder::main_coder::{MainCoder, MainCoderParts};
use kappa_coder::naming::{ident, split_last, to_snake_case, ObjectCategory};
use kappa_coder::parser::{statements, Parser};
use kappa_coder::processor_coder::{ModCoderParts, ProcessorCoder};
use kappa_coder::registry::{Effect, ErrorKind, Generator};
use kappa_coder::server::Server;
use kappa_coder::text::{decimal_text, parse_small_number, split_text, tokenize};
use kappa_coder::tmpfile::temp_file_path;

#[test]
fn snake_case_of_names() {
    assert_eq!(to_snake_case("MyBlock"), "my_block");
    assert_eq!(to_snake_case("filter"), "filter");
    assert_eq!(to_snake_case("ABC"), "a_b_c");
    assert_eq!(to_snake_case("Low_Pass"), "low__pass");
    assert_eq!(to_snake_case("lowPass"), "low_pass");
    assert_eq!(to_snake_case(""), "");
}

#[test]
fn category_keywords() {
    assert_eq!(ObjectCategory::from_keyword("processor_instance"), Some(ObjectCategory::ProcessorInstance));
    assert_eq!(ObjectCategory::from_keyword("crate"), None);
    assert_eq!(ObjectCategory::Static.keyword(), "static");
}

#[test]
fn dotted_names() {
    assert_eq!(split_text("a.b.c", '.'), vec!["a", "b", "c"]);
    assert_eq!(split_text("", '.'), vec![""]);
    assert_eq!(split_last("app.t1.p1"), ("app.t1".to_string(), "p1".to_string()));
    assert_eq!(split_last("app"), ("".to_string(), "app".to_string()));
    assert_eq!(ident("app.t1.p1"), "app_t1_p1");
}

#[test]
fn tokens_and_statements() {
    assert_eq!(tokenize("  create\tlibrary  x "), vec!["create", "library", "x"]);
    assert!(tokenize("   ").is_empty());
    let s = statements("a  b; c;");
    assert_eq!(s, vec![vec!["a".to_string(), "b".to_string()], vec!["c".to_string()], vec![]]);
}

#[test]
fn numbers() {
    assert_eq!(decimal_text(0), "0");
    assert_eq!(decimal_text(1203), "1203");
    assert_eq!(parse_small_number("12"), Some(12));
    assert_eq!(parse_small_number("007"), Some(7));
    assert_eq!(parse_small_number("1000"), None);
    assert_eq!(parse_small_number("1a"), None);
    assert_eq!(parse_small_number(""), None);
}

#[test]
fn section_identifiers() {
    assert_eq!(ModCoderParts::from_index(9), Some(ModCoderParts::InitBody));
    assert_eq!(ModCoderParts::from_index(4), None);
    assert_eq!(ModCoderParts::from_index(13), None);
    assert_eq!(MainCoderParts::from_index(8), Some(MainCoderParts::StreamStop));
    assert_eq!(MainCoderParts::from_index(9), None);
}

#[test]
fn temp_file_names() {
    let a = temp_file_path();
    assert!(a.starts_with("/tmp/processor_coder_"));
    assert!(a.ends_with(".rs"));
    let middle = &a["/tmp/processor_coder_".len()..a.len() - 3];
    assert_eq!(middle.len(), 16);
    assert!(middle.chars().all(|c| c.is_ascii_alphanumeric()));
}

#[test]
fn block_generator_text() {
    let mut b = ProcessorCoder::new("/tmp/demo/src/filter.rs".to_string(), "Filter".to_string());
    b.add_typed(&"input".to_string(), &"in".to_string(), &"f32".to_string());
    b.add_typed(&"output".to_string(), &"out".to_string(), &"f64".to_string());
    b.add_typed(&"bogus".to_string(), &"x".to_string(), &"f64".to_string());
    b.add_settable(&"static".to_string(), &"k".to_string(), &"u32".to_string(), &"1".to_string(), Some(&"0,10".to_string()));
    b.add_settable(&"parameter".to_string(), &"g".to_string(), &"f32".to_string(), &"2.0".to_string(), None);
    b.add_code_section(ModCoderParts::RunBody, "        self.step()".to_string());
    let text = b.generate();
    assert!(text.starts_with("use std::collections::HashMap;\n"));
    assert!(text.contains("pub struct Filter {\n"));
    assert!(text.contains("        ret.new_input::<f32>(\"in\");\n        ret.new_output::<f64>(\"out\");\n        ret.new_statics::<u32>(\"k\", 1, Some((0, 10)));\n        ret.new_parameter::<f32>(\"g\", 2.0, None);"));
    assert!(!text.contains("\"x\""));
    assert!(text.contains("    fn run(&mut self) -> Result<(), StreamingError> {\n        self.step()\n    }"));
    assert!(text.contains("    fn init(&mut self) -> Result<(), StreamingError> {\n        Ok(())\n    }"));
    assert!(text.ends_with("    }\n}"));
    b.delete_object(&"in".to_string());
    assert!(!b.generate().contains("new_input"));
    assert_eq!(b.get_statics().get("k").unwrap().limits.as_ref().unwrap().max, "10");
}

#[test]
fn library_generator_text() {
    let mut l = LibCoder::new("/tmp/demo".to_string());
    l.set_metadata("demo".to_string(), "a demo".to_string());
    l.add_module("LowPass".to_string());
    l.add_module("LowPass".to_string());
    assert_eq!(l.get_modules().len(), 1);
    let text = l.generate();
    assert!(text.starts_with("pub mod low_pass;\nuse std::ffi::c_char;\n"));
    assert!(text.contains("    name: b\"demo\\0\".as_ptr() as *const c_char,\n"));
    assert!(text.contains("    version: Version { major: 0, minor: 0, build: 0 },\n"));
    assert!(text.contains("    dependencies: std::ptr::null(),\n    dependency_number: 0,\n"));
    assert!(text.contains("        \"LowPass\" => {\n            proc = Box::new(low_pass::LowPass::new(block_name_str));\n"));
    assert!(text.ends_with("            get_error_return(1)\n        }\n    }\n}"));
    assert_eq!(l.get_file_path(), "/tmp/demo/src/lib.rs");
    l.delete_object(&"LowPass".to_string());
    assert!(l.get_modules().is_empty());
}

#[test]
fn application_generator_text() {
    let mut a = MainCoder::new("/tmp/app".to_string());
    a.add_task_processor("app.t1".to_string());
    a.add_stream_processor("app.t1.p1".to_string(), "Filter".to_string());
    a.add_stream_processor("app.t9.p2".to_string(), "Filter".to_string());
    a.add_setting_value("app.t1.p1".to_string(), "static".to_string(), "k".to_string(), "3".to_string());
    a.add_setting_value("app.t1.p1".to_string(), "other".to_string(), "k".to_string(), "3".to_string());
    a.add_code_section(MainCoderParts::StreamInit, "    println!(\"ready\");".to_string());
    let text = a.generate();
    assert!(text.starts_with("// Auto-generated main.rs file\nuse processor_engine::log;\n"));
    assert!(text.contains("    let mut app_t1_p1 = Filter::new(\"app.t1.p1\");\n    processor_engine.register_processor(\"app.t1.p1\", Box::new(app_t1_p1)).unwrap();"));
    assert!(!text.contains("app.t9.p2"));
    assert!(text.contains("    app_t1_p1.set_statics_value(\"k\", 3).unwrap();\n"));
    assert!(!text.contains("other"));
    assert!(text.contains("    processor_engine.init().unwrap();\n    println!(\"ready\");\n"));
    assert!(text.contains("    task_manager.spawn_task(\"app.t1\", move || {\n        processor_engine.process(\"app.t1.p1\").unwrap();\n    });"));
    assert!(text.ends_with("    processor_engine.stop().unwrap();\n}"));
    a.delete_object(&"app.t1.p1".to_string());
    let after = a.generate();
    assert!(!after.contains("app_t1_p1"));
    assert!(after.contains("task_manager.spawn_task(\"app.t1\""));
    a.delete_object(&"app.t1".to_string());
    assert!(!a.generate().contains("spawn_task"));
}

#[test]
fn error_kinds() {
    let mut p = Parser::new();
    let kind = |p: &mut Parser, c: &str| p.parse_command(c.to_string()).err().map(|b| b.error.kind);
    assert_eq!(kind(&mut p, "frobnicate x"), Some(ErrorKind::Grammar));
    assert_eq!(kind(&mut p, ";"), Some(ErrorKind::Grammar));
    assert_eq!(kind(&mut p, "create library demo /tmp metadata d"), Some(ErrorKind::Grammar));
    assert_eq!(kind(&mut p, "create library a.b path /tmp metadata d"), Some(ErrorKind::Shape));
    assert_eq!(kind(&mut p, "create processor_block demo"), Some(ErrorKind::Shape));
    assert_eq!(kind(&mut p, "create processor_block demo.f"), Some(ErrorKind::Reference));
    assert!(p.parse_command("create library demo path /tmp metadata d".to_string()).is_ok());
    assert_eq!(kind(&mut p, "create library demo path /tmp metadata d"), Some(ErrorKind::Conflict));
    assert_eq!(kind(&mut p, "create static demo.f.k type u32 value 1 limits"), Some(ErrorKind::Reference));
    assert!(p.parse_command("create processor_block demo.f".to_string()).is_ok());
    assert_eq!(kind(&mut p, "create static demo.f.k type u32 value 1 limits"), Some(ErrorKind::Grammar));
    assert_eq!(kind(&mut p, "create static demo.f.k type u32 value 1 bounds 0,1"), Some(ErrorKind::Grammar));
    assert_eq!(kind(&mut p, "build demo fast"), Some(ErrorKind::Grammar));
    assert_eq!(kind(&mut p, "code demo.f 4 x"), Some(ErrorKind::Grammar));
    assert_eq!(kind(&mut p, "code demo.f.k 9 x"), Some(ErrorKind::Reference));
}

#[test]
fn build_and_code_statements() {
    let mut p = Parser::new();
    assert!(p.parse_command("create library demo path /tmp metadata d; create processor_block demo.Gain".to_string()).is_ok());
    let effs = p.parse_command("build demo".to_string()).ok().unwrap();
    match &effs[..] {
        [Effect::Build { path, release }] => {
            assert_eq!(path, "/tmp/demo");
            assert!(!*release);
        }
        _ => panic!("one build"),
    }
    let effs = p.parse_command("code demo.Gain 12 self.flush()  .ok()".to_string()).ok().unwrap();
    match &effs[..] {
        [Effect::WriteSource { path, content }, Effect::SaveGenerator { name, file }] => {
            assert_eq!(path, "/tmp/demo/src/gain.rs");
            assert!(content.contains("    fn stop(&mut self) -> Result<(), StreamingError> {\nself.flush() .ok()\n    }"));
            assert_eq!(name, "demo.Gain");
            assert_eq!(file, "/tmp/demo/.project/Gain.json");
        }
        _ => panic!("a write and a save"),
    }
    match p.generator("demo.Gain") {
        Some(Generator::Block(b)) => assert_eq!(b.get_codes()[12], Some("self.flush() .ok()".to_string())),
        _ => panic!(),
    }
    let effs = p.parse_command("import /tmp/demo".to_string()).ok().unwrap();
    assert!(matches!(&effs[..], [Effect::Import { path }] if path == "/tmp/demo"));
}

#[test]
fn create_effects_of_a_library() {
    let mut p = Parser::new();
    let effs = p.parse_command("create library demo path /tmp metadata d".to_string()).ok().unwrap();
    assert_eq!(effs.len(), 5);
    assert!(matches!(&effs[0], Effect::Scaffold { path, library: true } if path == "/tmp/demo"));
    assert!(matches!(&effs[1], Effect::DeclareDependencies { path } if path == "/tmp/demo"));
    assert!(matches!(&effs[2], Effect::SaveRegistry { project, file } if project == "demo" && file == "/tmp/demo/.project/memory_map.json"));
    assert!(matches!(&effs[3], Effect::WriteSource { path, .. } if path == "/tmp/demo/src/lib.rs"));
    assert!(matches!(&effs[4], Effect::SaveGenerator { file, .. } if file == "/tmp/demo/.project/lib_coder.json"));
}

#[test]
fn settings_need_declared_slots() {
    let mut p = Parser::new();
    assert!(p.parse_command("create library demo path /tmp metadata d; create processor_block demo.filter; create parameter demo.filter.gain type f32 value 1.0; create application app path /tmp metadata a; create task app.t1; create processor_instance app.t1.p1 type filter".to_string()).is_ok());
    assert_eq!(p.parse_command("set static app.t1.p1.gain 2.0".to_string()).err().map(|b| b.error.kind), Some(ErrorKind::Reference));
    assert_eq!(p.parse_command("set colour app.t1.p1.gain 2.0".to_string()).err().map(|b| b.error.kind), Some(ErrorKind::Grammar));
    assert!(p.parse_command("set parameter app.t1.p1.gain 2.0".to_string()).is_ok());
    match p.generator("app") {
        Some(Generator::Application(a)) => assert!(a.generate().contains("    app_t1_p1.set_parameter_value(\"gain\", 2.0).unwrap();")),
        _ => panic!(),
    }
}

#[test]
fn toolchain_arguments() {
    let c = CargoInterface { cargo_path: "cargo".to_string(), library_path: "/opt/kappa".to_string() };
    let cmds = c.dependency_commands();
    assert_eq!(cmds.len(), 7);
    assert_eq!(cmds[2], vec!["add", "serde", "--features", "derive"]);
    assert_eq!(cmds[4], vec!["add", "stream_proc_macro", "--path", "/opt/kappa/processor_engine/src/stream_proc_macro"]);
    assert_eq!(c.new_project_args("/tmp/x", true), vec!["new", "--lib", "/tmp/x"]);
    assert_eq!(c.new_project_args("/tmp/x", false), vec!["new", "/tmp/x"]);
    assert_eq!(c.build_args(true), vec!["build", "--release"]);
}

#[test]
fn response_protocol() {
    assert_eq!(Server::clean_command("create\r\n task a.b\n"), "create task a.b");
    assert_eq!(Server::response(&Ok(())), "Ok\n");
    assert_eq!(Server::response(&Err("bad".to_string())), "Error: bad\n");
}
