//! The command dispatcher: it validates each statement against the project
//! registry, updates the registry and the owning generator, and hands back
//! the file-system and toolchain work that the statement calls for.

use vstd::prelude::*;
use crate::naming::{ObjectCategory, snake_case, to_snake_case, is_under};
use crate::strmap::{StrMap, to_map};
use crate::text::{views, split_on, split_text, same_text, cat, cat3, join_with, join_sep,
    small_number, parse_small_number, words, tokenize};
use crate::registry::{MemoryObject, ObjectView, Generator, GeneratorView, generator_wf, ErrorKind,
    CommandError, Effect, EffectView, effect_views};
use crate::lib_coder::{LibCoder, LibraryModel, DescriptorView, Version, render_library,
    library_file, modules_add, modules_remove};
use crate::main_coder::{MainCoder, AppModel, TaskView, ConnectionView, SettingView, MainCoderParts,
    main_part_at, main_part_index, app_delete, render_app, application_file, MAIN_PARTS,
    app_add_instance};
use crate::strmap::{pairs_insert, lemma_to_map_domain, lemma_to_map_value, map_outside, map_inside,
    unique_keys, entry_views, lemma_union_push};
use crate::processor_coder::{ProcessorCoder, BlockModel, block_model_wf, render_block, no_codes, MOD_PARTS,
    block_add_typed, block_add_settable, ModCoderParts, mod_part_at, mod_part_index, block_delete};

verus! {

/// What the dispatcher holds: the entity records by dotted name, and the
/// generators by the name of the project or block that owns them.
pub struct ParserModel {
    pub objects: Map<Seq<char>, ObjectView>,
    pub coders: Map<Seq<char>, GeneratorView>,
}

/// What a statement does: the new state and the work left to perform, or
/// the kind of error that stopped it, leaving the state as it was.
pub type Outcome = Result<(ParserModel, Seq<EffectView>), ErrorKind>;

/// The dotted name `a.b`.
pub open spec fn dot2(a: Seq<char>, b: Seq<char>) -> Seq<char> {
    a + "."@ + b
}

/// The registry file of the project in `dir`.
pub open spec fn registry_file(dir: Seq<char>) -> Seq<char> {
    dir + "/.project/memory_map.json"@
}

/// The state file of a library's generator.
pub open spec fn library_state_file(dir: Seq<char>) -> Seq<char> {
    dir + "/.project/lib_coder.json"@
}

/// The state file of an application's generator.
pub open spec fn application_state_file(dir: Seq<char>) -> Seq<char> {
    dir + "/.project/main_coder.json"@
}

/// The state file of the generator of block `block`.
pub open spec fn block_state_file(dir: Seq<char>, block: Seq<char>) -> Seq<char> {
    dir + "/.project/"@ + block + ".json"@
}

/// The source file of block `block`.
pub open spec fn block_source_file(dir: Seq<char>, block: Seq<char>) -> Seq<char> {
    dir + "/src/"@ + snake_case(block) + ".rs"@
}

/// The entity `name` exists and has category `c`; otherwise a reference
/// error.
pub open spec fn check_var(m: ParserModel, name: Seq<char>, c: ObjectCategory) -> Option<ErrorKind> {
    if m.objects.contains_key(name) && m.objects[name].category == c {
        None
    } else {
        Some(ErrorKind::Reference)
    }
}

pub open spec fn object(
    parent: Seq<char>,
    category: ObjectCategory,
    object_type: Seq<char>,
    value: Seq<char>,
    limits: Seq<char>,
) -> ObjectView {
    ObjectView { parent, category, object_type, value, limits }
}

/// A fresh library generator.
pub open spec fn new_library(dir: Seq<char>, name: Seq<char>, metadata: Seq<char>) -> LibraryModel {
    LibraryModel {
        modules: Seq::empty(),
        descriptor: DescriptorView {
            name,
            description: metadata,
            authors: Seq::empty(),
            release_date: Seq::empty(),
            version: Version { major: 0, minor: 0, build: 0 },
            dependencies: Seq::empty(),
            provides: Seq::empty(),
        },
        crate_path: dir,
        file_path: library_file(dir),
    }
}

/// A fresh application generator.
pub open spec fn new_application(dir: Seq<char>) -> AppModel {
    AppModel {
        tasks: Seq::empty(),
        instances: Seq::empty(),
        connections: Seq::empty(),
        settings: Seq::empty(),
        codes: no_codes(MAIN_PARTS as int),
        crate_path: dir,
        file_path: application_file(dir),
    }
}

/// `create library|application <name> path <dir> metadata <text>`.
pub open spec fn create_project_outcome(m: ParserModel, t: Seq<Seq<char>>, library: bool) -> Outcome {
    if t.len() < 3 {
        Err(ErrorKind::Grammar)
    } else if split_on(t[2], '.').len() != 1 {
        Err(ErrorKind::Shape)
    } else if m.objects.contains_key(t[2]) {
        Err(ErrorKind::Conflict)
    } else if t.len() < 5 || t[3] != "path"@ {
        Err(ErrorKind::Grammar)
    } else if t.len() < 7 || t[5] != "metadata"@ {
        Err(ErrorKind::Grammar)
    } else {
        let name = t[2];
        let dir = t[4] + "/"@ + name;
        let obj = object(
            Seq::empty(),
            if library { ObjectCategory::Library } else { ObjectCategory::Application },
            dir,
            t[6],
            Seq::empty(),
        );
        if library {
            let g = new_library(dir, name, t[6]);
            Ok((
                ParserModel {
                    objects: m.objects.insert(name, obj),
                    coders: m.coders.insert(name, GeneratorView::Library(g)),
                },
                seq![
                    EffectView::Scaffold { path: dir, library: true },
                    EffectView::DeclareDependencies { path: dir },
                    EffectView::SaveRegistry { project: name, file: registry_file(dir) },
                    EffectView::WriteSource { path: g.file_path, content: render_library(g) },
                    EffectView::SaveGenerator { name, file: library_state_file(dir) },
                ],
            ))
        } else {
            let g = new_application(dir);
            Ok((
                ParserModel {
                    objects: m.objects.insert(name, obj),
                    coders: m.coders.insert(name, GeneratorView::Application(g)),
                },
                seq![
                    EffectView::Scaffold { path: dir, library: false },
                    EffectView::DeclareDependencies { path: dir },
                    EffectView::SaveRegistry { project: name, file: registry_file(dir) },
                    EffectView::WriteSource { path: g.file_path, content: render_app(g) },
                    EffectView::SaveGenerator { name, file: application_state_file(dir) },
                ],
            ))
        }
    }
}

/// A fresh block generator.
pub open spec fn new_block(name: Seq<char>, path: Seq<char>) -> BlockModel {
    BlockModel {
        name,
        path,
        inputs: Seq::empty(),
        outputs: Seq::empty(),
        states: Seq::empty(),
        statics: Seq::empty(),
        parameters: Seq::empty(),
        codes: no_codes(MOD_PARTS as int),
    }
}

/// The generator `name` exists and is a library generator.
pub open spec fn has_library(m: ParserModel, name: Seq<char>) -> bool {
    m.coders.contains_key(name) && m.coders[name] is Library
}

pub open spec fn has_application(m: ParserModel, name: Seq<char>) -> bool {
    m.coders.contains_key(name) && m.coders[name] is Application
}

pub open spec fn has_block(m: ParserModel, name: Seq<char>) -> bool {
    m.coders.contains_key(name) && m.coders[name] is Block
}

/// `create processor_block <lib>.<block>`.
pub open spec fn create_block_outcome(m: ParserModel, t: Seq<Seq<char>>) -> Outcome {
    if t.len() < 3 {
        Err(ErrorKind::Grammar)
    } else if split_on(t[2], '.').len() != 2 {
        Err(ErrorKind::Shape)
    } else {
        let name = t[2];
        let lib_name = split_on(name, '.')[0];
        let block_name = split_on(name, '.')[1];
        if check_var(m, lib_name, ObjectCategory::Library) is Some {
            Err(ErrorKind::Reference)
        } else if m.objects.contains_key(name) {
            Err(ErrorKind::Conflict)
        } else if !has_library(m, lib_name) {
            Err(ErrorKind::Reference)
        } else {
            let dir = m.objects[lib_name].object_type;
            let lib = m.coders[lib_name]->Library_0;
            let block = new_block(block_name, block_source_file(dir, block_name));
            let lib2 = LibraryModel { modules: modules_add(lib.modules, block_name), ..lib };
            Ok((
                ParserModel {
                    objects: m.objects.insert(
                        name,
                        object(lib_name, ObjectCategory::ProcessorBlock, Seq::empty(), Seq::empty(), Seq::empty()),
                    ),
                    coders: m.coders.insert(name, GeneratorView::Block(block)).insert(
                        lib_name,
                        GeneratorView::Library(lib2),
                    ),
                },
                seq![
                    EffectView::WriteSource { path: block.path, content: render_block(block) },
                    EffectView::SaveGenerator { name, file: block_state_file(dir, block_name) },
                    EffectView::SaveRegistry { project: lib_name, file: registry_file(dir) },
                    EffectView::WriteSource { path: lib2.file_path, content: render_library(lib2) },
                    EffectView::SaveGenerator { name: lib_name, file: library_state_file(dir) },
                ],
            ))
        }
    }
}

/// The checks shared by the creation of a block member
/// `<lib>.<block>.<name>`: the tokens and the name's shape, then the library
/// and the block.
pub open spec fn member_check(m: ParserModel, t: Seq<Seq<char>>) -> Option<ErrorKind> {
    if t.len() < 3 {
        Some(ErrorKind::Grammar)
    } else if split_on(t[2], '.').len() != 3 {
        Some(ErrorKind::Shape)
    } else {
        let s = split_on(t[2], '.');
        if check_var(m, s[0], ObjectCategory::Library) is Some {
            Some(ErrorKind::Reference)
        } else if check_var(m, dot2(s[0], s[1]), ObjectCategory::ProcessorBlock) is Some {
            Some(ErrorKind::Reference)
        } else {
            None
        }
    }
}

/// The state and effects after a block member was recorded as `obj` and
/// the block generator became `b2`.
pub open spec fn member_done(
    m: ParserModel,
    t: Seq<Seq<char>>,
    obj: ObjectView,
    b2: BlockModel,
) -> (ParserModel, Seq<EffectView>) {
    let s = split_on(t[2], '.');
    let parent = dot2(s[0], s[1]);
    let dir = m.objects[s[0]].object_type;
    (
        ParserModel {
            objects: m.objects.insert(t[2], obj),
            coders: m.coders.insert(parent, GeneratorView::Block(b2)),
        },
        seq![
            EffectView::SaveRegistry { project: s[0], file: registry_file(dir) },
            EffectView::WriteSource { path: b2.path, content: render_block(b2) },
            EffectView::SaveGenerator { name: parent, file: block_state_file(dir, s[1]) },
        ],
    )
}

/// `create input|output|state <lib>.<block>.<name> type <type>`, where the
/// keyword `t[1]` names the category `c`.
pub open spec fn create_typed_outcome(m: ParserModel, t: Seq<Seq<char>>, c: ObjectCategory) -> Outcome {
    if member_check(m, t) is Some {
        Err(member_check(m, t)->Some_0)
    } else if t.len() < 5 || t[3] != "type"@ {
        Err(ErrorKind::Grammar)
    } else if m.objects.contains_key(t[2]) {
        Err(ErrorKind::Conflict)
    } else {
        let s = split_on(t[2], '.');
        let parent = dot2(s[0], s[1]);
        if !has_block(m, parent) {
            Err(ErrorKind::Reference)
        } else {
            let b2 = block_add_typed(m.coders[parent]->Block_0, t[1], s[2], t[4]);
            Ok(member_done(m, t, object(parent, c, t[4], Seq::empty(), Seq::empty()), b2))
        }
    }
}

/// The limits of a settable creation, where given.
pub open spec fn limits_token(t: Seq<Seq<char>>) -> Option<Seq<char>> {
    if t.len() > 8 {
        Some(t[8])
    } else {
        None
    }
}

/// `create static|parameter <lib>.<block>.<name> type <type> value <default>
/// [limits <min,max>]`, where the keyword `t[1]` names the category `c`.
pub open spec fn create_settable_outcome(
    m: ParserModel,
    t: Seq<Seq<char>>,
    c: ObjectCategory,
) -> Outcome {
    if member_check(m, t) is Some {
        Err(member_check(m, t)->Some_0)
    } else if t.len() < 5 || t[3] != "type"@ {
        Err(ErrorKind::Grammar)
    } else if t.len() < 7 || t[5] != "value"@ {
        Err(ErrorKind::Grammar)
    } else if t.len() > 7 && (t[7] != "limits"@ || t.len() < 9) {
        Err(ErrorKind::Grammar)
    } else if m.objects.contains_key(t[2]) {
        Err(ErrorKind::Conflict)
    } else {
        let s = split_on(t[2], '.');
        let parent = dot2(s[0], s[1]);
        if !has_block(m, parent) {
            Err(ErrorKind::Reference)
        } else {
            let lim = limits_token(t);
            let b2 = block_add_settable(m.coders[parent]->Block_0, t[1], s[2], t[4], t[6], lim);
            let obj = object(
                parent,
                c,
                t[4],
                t[6],
                match lim {
                    Some(l) => l,
                    None => Seq::empty(),
                },
            );
            Ok(member_done(m, t, obj, b2))
        }
    }
}

/// The state and effects after an entity of application `app` was
/// recorded under `name` as `obj` and the application's generator became
/// `a2`.
pub open spec fn app_member_done(
    m: ParserModel,
    app: Seq<char>,
    name: Seq<char>,
    obj: ObjectView,
    a2: AppModel,
) -> (ParserModel, Seq<EffectView>) {
    let dir = m.objects[app].object_type;
    (
        ParserModel {
            objects: m.objects.insert(name, obj),
            coders: m.coders.insert(app, GeneratorView::Application(a2)),
        },
        seq![
            EffectView::SaveRegistry { project: app, file: registry_file(dir) },
            EffectView::WriteSource { path: a2.file_path, content: render_app(a2) },
            EffectView::SaveGenerator { name: app, file: application_state_file(dir) },
        ],
    )
}

/// `create task <app>.<task>`.
pub open spec fn create_task_outcome(m: ParserModel, t: Seq<Seq<char>>) -> Outcome {
    if t.len() < 3 {
        Err(ErrorKind::Grammar)
    } else if split_on(t[2], '.').len() != 2 {
        Err(ErrorKind::Shape)
    } else {
        let app = split_on(t[2], '.')[0];
        if check_var(m, app, ObjectCategory::Application) is Some {
            Err(ErrorKind::Reference)
        } else if m.objects.contains_key(t[2]) {
            Err(ErrorKind::Conflict)
        } else if !has_application(m, app) {
            Err(ErrorKind::Reference)
        } else {
            let a = m.coders[app]->Application_0;
            let a2 = AppModel {
                tasks: pairs_insert(a.tasks, t[2], TaskView { name: t[2], processors: Seq::empty() }),
                ..a
            };
            Ok(
                app_member_done(
                    m,
                    app,
                    t[2],
                    object(app, ObjectCategory::Task, Seq::empty(), Seq::empty(), Seq::empty()),
                    a2,
                ),
            )
        }
    }
}

/// `create processor_instance <app>.<task>.<name> type <blocktype>`.
pub open spec fn create_instance_outcome(m: ParserModel, t: Seq<Seq<char>>) -> Outcome {
    if t.len() < 3 {
        Err(ErrorKind::Grammar)
    } else if split_on(t[2], '.').len() != 3 {
        Err(ErrorKind::Shape)
    } else {
        let s = split_on(t[2], '.');
        let task = dot2(s[0], s[1]);
        if check_var(m, s[0], ObjectCategory::Application) is Some {
            Err(ErrorKind::Reference)
        } else if check_var(m, task, ObjectCategory::Task) is Some {
            Err(ErrorKind::Reference)
        } else if t.len() < 5 || t[3] != "type"@ {
            Err(ErrorKind::Grammar)
        } else if m.objects.contains_key(t[2]) {
            Err(ErrorKind::Conflict)
        } else if !has_application(m, s[0]) {
            Err(ErrorKind::Reference)
        } else {
            let a2 = app_add_instance(m.coders[s[0]]->Application_0, t[2], t[4]);
            Ok(
                app_member_done(
                    m,
                    s[0],
                    t[2],
                    object(task, ObjectCategory::ProcessorInstance, t[4], Seq::empty(), Seq::empty()),
                    a2,
                ),
            )
        }
    }
}

/// `create <kind> ...`, by the kind keyword.
pub open spec fn create_outcome(m: ParserModel, t: Seq<Seq<char>>) -> Outcome {
    if t.len() < 2 {
        Err(ErrorKind::Grammar)
    } else if t[1] == "library"@ {
        create_project_outcome(m, t, true)
    } else if t[1] == "application"@ {
        create_project_outcome(m, t, false)
    } else if t[1] == "processor_block"@ {
        create_block_outcome(m, t)
    } else if t[1] == "input"@ {
        create_typed_outcome(m, t, ObjectCategory::Input)
    } else if t[1] == "output"@ {
        create_typed_outcome(m, t, ObjectCategory::Output)
    } else if t[1] == "state"@ {
        create_typed_outcome(m, t, ObjectCategory::State)
    } else if t[1] == "static"@ {
        create_settable_outcome(m, t, ObjectCategory::Static)
    } else if t[1] == "parameter"@ {
        create_settable_outcome(m, t, ObjectCategory::Parameter)
    } else if t[1] == "task"@ {
        create_task_outcome(m, t)
    } else if t[1] == "processor_instance"@ {
        create_instance_outcome(m, t)
    } else {
        Err(ErrorKind::Grammar)
    }
}

/// Some library declares, in its block named `block_type`, an entity named
/// `port` of category `c`.
pub open spec fn port_resolves(
    m: ParserModel,
    block_type: Seq<char>,
    port: Seq<char>,
    c: ObjectCategory,
) -> bool {
    exists|lib: Seq<char>|
        #[trigger] m.objects.contains_key(lib) && m.objects[lib].category == ObjectCategory::Library
            && check_var(m, dot2(dot2(lib, block_type), port), c) is None
}

/// The dotted name of the first three segments.
pub open spec fn instance_of(s: Seq<Seq<char>>) -> Seq<char> {
    dot2(dot2(s[0], s[1]), s[2])
}

/// The state and effects after the generator of application `app` became
/// `a2`.
pub open spec fn app_done(m: ParserModel, app: Seq<char>, a2: AppModel) -> (
    ParserModel,
    Seq<EffectView>,
) {
    let dir = m.objects[app].object_type;
    (
        ParserModel { coders: m.coders.insert(app, GeneratorView::Application(a2)), ..m },
        seq![
            EffectView::WriteSource { path: a2.file_path, content: render_app(a2) },
            EffectView::SaveGenerator { name: app, file: application_state_file(dir) },
        ],
    )
}

/// `connect <app>.<task>.<proc>.<output> <app>.<task>.<proc>.<input>`: both
/// instances exist in one application, and their block types declare the
/// source as an output and the target as an input.
pub open spec fn connect_outcome(m: ParserModel, t: Seq<Seq<char>>) -> Outcome {
    if t.len() < 3 {
        Err(ErrorKind::Grammar)
    } else if split_on(t[1], '.').len() != 4 || split_on(t[2], '.').len() != 4 {
        Err(ErrorKind::Shape)
    } else {
        let src = split_on(t[1], '.');
        let dst = split_on(t[2], '.');
        let from = instance_of(src);
        let to = instance_of(dst);
        if check_var(m, src[0], ObjectCategory::Application) is Some {
            Err(ErrorKind::Reference)
        } else if check_var(m, from, ObjectCategory::ProcessorInstance) is Some {
            Err(ErrorKind::Reference)
        } else if check_var(m, to, ObjectCategory::ProcessorInstance) is Some {
            Err(ErrorKind::Reference)
        } else if src[0] != dst[0] {
            Err(ErrorKind::Shape)
        } else if !port_resolves(m, m.objects[from].object_type, src[3], ObjectCategory::Output) {
            Err(ErrorKind::Reference)
        } else if !port_resolves(m, m.objects[to].object_type, dst[3], ObjectCategory::Input) {
            Err(ErrorKind::Reference)
        } else if !has_application(m, src[0]) {
            Err(ErrorKind::Reference)
        } else {
            let a = m.coders[src[0]]->Application_0;
            let a2 = AppModel {
                connections: a.connections.push(
                    ConnectionView {
                        from_processor: from,
                        from_output: src[3],
                        to_processor: to,
                        to_input: dst[3],
                    },
                ),
                ..a
            };
            Ok(app_done(m, src[0], a2))
        }
    }
}

/// `set parameter|static <app>.<task>.<proc>.<slot> <value>`: the instance
/// exists and its block type declares the slot with that category.
pub open spec fn set_outcome(m: ParserModel, t: Seq<Seq<char>>) -> Outcome {
    if t.len() < 4 {
        Err(ErrorKind::Grammar)
    } else if t[1] != "parameter"@ && t[1] != "static"@ {
        Err(ErrorKind::Grammar)
    } else if split_on(t[2], '.').len() != 4 {
        Err(ErrorKind::Shape)
    } else {
        let s = split_on(t[2], '.');
        let inst = instance_of(s);
        let c = if t[1] == "parameter"@ { ObjectCategory::Parameter } else { ObjectCategory::Static };
        if check_var(m, s[0], ObjectCategory::Application) is Some {
            Err(ErrorKind::Reference)
        } else if check_var(m, inst, ObjectCategory::ProcessorInstance) is Some {
            Err(ErrorKind::Reference)
        } else if !port_resolves(m, m.objects[inst].object_type, s[3], c) {
            Err(ErrorKind::Reference)
        } else if !has_application(m, s[0]) {
            Err(ErrorKind::Reference)
        } else {
            let a = m.coders[s[0]]->Application_0;
            let a2 = AppModel {
                settings: a.settings.push(
                    SettingView {
                        processor_name: inst,
                        settable_type: t[1],
                        settable_name: s[3],
                        value: t[3],
                    },
                ),
                ..a
            };
            Ok(app_done(m, s[0], a2))
        }
    }
}

/// `build <library-or-application> [release|debug]`; debug by default.
pub open spec fn build_outcome(m: ParserModel, t: Seq<Seq<char>>) -> Outcome {
    if t.len() < 2 {
        Err(ErrorKind::Grammar)
    } else if !m.objects.contains_key(t[1]) {
        Err(ErrorKind::Reference)
    } else if m.objects[t[1]].category != ObjectCategory::Library && m.objects[t[1]].category
        != ObjectCategory::Application {
        Err(ErrorKind::Reference)
    } else if t.len() > 2 && t[2] != "release"@ && t[2] != "debug"@ {
        Err(ErrorKind::Grammar)
    } else {
        Ok(
            (
                m,
                seq![
                    EffectView::Build {
                        path: m.objects[t[1]].object_type,
                        release: t.len() > 2 && t[2] == "release"@,
                    },
                ],
            ),
        )
    }
}

/// `import <path>`: the snapshot under `path` is to be loaded.
pub open spec fn import_outcome(m: ParserModel, t: Seq<Seq<char>>) -> Outcome {
    if t.len() < 2 {
        Err(ErrorKind::Grammar)
    } else {
        Ok((m, seq![EffectView::Import { path: t[1] }]))
    }
}

/// The code of a `code` statement: its remaining tokens, joined by spaces.
pub open spec fn code_text(t: Seq<Seq<char>>) -> Seq<char> {
    join_with(t.skip(3), ' ')
}

/// `code <target> <section-id> <text>`, on a processor block or an
/// application.
pub open spec fn code_outcome(m: ParserModel, t: Seq<Seq<char>>) -> Outcome {
    if t.len() < 2 {
        Err(ErrorKind::Grammar)
    } else if check_var(m, t[1], ObjectCategory::ProcessorBlock) is None {
        let x = t[1];
        let s = split_on(x, '.');
        if t.len() < 4 {
            Err(ErrorKind::Grammar)
        } else if small_number(t[2]) is None || mod_part_at(small_number(t[2])->Some_0) is None {
            Err(ErrorKind::Grammar)
        } else if !has_block(m, x) || s.len() != 2 || !m.objects.contains_key(s[0]) {
            Err(ErrorKind::Reference)
        } else {
            let part = mod_part_at(small_number(t[2])->Some_0)->Some_0;
            let b = m.coders[x]->Block_0;
            let b2 = BlockModel {
                codes: b.codes.update(mod_part_index(part), Some(code_text(t))),
                ..b
            };
            Ok(
                (
                    ParserModel { coders: m.coders.insert(x, GeneratorView::Block(b2)), ..m },
                    seq![
                        EffectView::WriteSource { path: b2.path, content: render_block(b2) },
                        EffectView::SaveGenerator {
                            name: x,
                            file: block_state_file(m.objects[s[0]].object_type, s[1]),
                        },
                    ],
                ),
            )
        }
    } else if check_var(m, t[1], ObjectCategory::Application) is None {
        let x = t[1];
        if t.len() < 4 {
            Err(ErrorKind::Grammar)
        } else if small_number(t[2]) is None || main_part_at(small_number(t[2])->Some_0) is None {
            Err(ErrorKind::Grammar)
        } else if !has_application(m, x) {
            Err(ErrorKind::Reference)
        } else {
            let part = main_part_at(small_number(t[2])->Some_0)->Some_0;
            let a = m.coders[x]->Application_0;
            let a2 = AppModel {
                codes: a.codes.update(main_part_index(part), Some(code_text(t))),
                ..a
            };
            Ok(app_done(m, x, a2))
        }
    } else {
        Err(ErrorKind::Reference)
    }
}

/// The categories of a block's members.
pub open spec fn member_category(c: ObjectCategory) -> bool {
    c == ObjectCategory::Input || c == ObjectCategory::Output || c == ObjectCategory::State || c
        == ObjectCategory::Static || c == ObjectCategory::Parameter
}

/// `delete <name>`: the entity and everything beneath it leave the
/// registry. A project root takes its generators along and its directory
/// is to be removed; a block leaves its library's module list; a task or an
/// instance leaves its application with the connections and settings that
/// refer to it; a port or slot leaves its block.
pub open spec fn delete_outcome(m: ParserModel, t: Seq<Seq<char>>) -> Outcome {
    if t.len() < 2 {
        Err(ErrorKind::Grammar)
    } else if !m.objects.contains_key(t[1]) {
        Err(ErrorKind::Reference)
    } else {
        let x = t[1];
        let s = split_on(x, '.');
        if s.len() == 1 {
            Ok(
                (
                    ParserModel {
                        objects: map_outside(m.objects, x),
                        coders: map_outside(m.coders, x),
                    },
                    seq![EffectView::RemoveProject { path: m.objects[x].object_type }],
                ),
            )
        } else if !m.objects.contains_key(s[0]) {
            Err(ErrorKind::Reference)
        } else {
            let c = m.objects[x].category;
            let dir = m.objects[s[0]].object_type;
            let objs = map_outside(m.objects, x);
            let save = EffectView::SaveRegistry { project: s[0], file: registry_file(dir) };
            if c == ObjectCategory::ProcessorBlock {
                if !has_library(m, s[0]) {
                    Err(ErrorKind::Reference)
                } else {
                    let lib = m.coders[s[0]]->Library_0;
                    let lib2 = LibraryModel { modules: modules_remove(lib.modules, s[1]), ..lib };
                    Ok(
                        (
                            ParserModel {
                                objects: objs,
                                coders: map_outside(m.coders, x).insert(
                                    s[0],
                                    GeneratorView::Library(lib2),
                                ),
                            },
                            seq![
                                save,
                                EffectView::WriteSource {
                                    path: lib2.file_path,
                                    content: render_library(lib2),
                                },
                                EffectView::SaveGenerator {
                                    name: s[0],
                                    file: library_state_file(dir),
                                },
                            ],
                        ),
                    )
                }
            } else if c == ObjectCategory::Task || c == ObjectCategory::ProcessorInstance {
                if !has_application(m, s[0]) {
                    Err(ErrorKind::Reference)
                } else {
                    let a2 = app_delete(m.coders[s[0]]->Application_0, x);
                    Ok(
                        (
                            ParserModel {
                                objects: objs,
                                coders: m.coders.insert(s[0], GeneratorView::Application(a2)),
                            },
                            seq![
                                save,
                                EffectView::WriteSource { path: a2.file_path, content: render_app(a2) },
                                EffectView::SaveGenerator {
                                    name: s[0],
                                    file: application_state_file(dir),
                                },
                            ],
                        ),
                    )
                }
            } else if member_category(c) && s.len() == 3 {
                let parent = dot2(s[0], s[1]);
                if !has_block(m, parent) {
                    Err(ErrorKind::Reference)
                } else {
                    let b2 = block_delete(m.coders[parent]->Block_0, s[2]);
                    Ok(
                        (
                            ParserModel {
                                objects: objs,
                                coders: m.coders.insert(parent, GeneratorView::Block(b2)),
                            },
                            seq![
                                save,
                                EffectView::WriteSource { path: b2.path, content: render_block(b2) },
                                EffectView::SaveGenerator {
                                    name: parent,
                                    file: block_state_file(dir, s[1]),
                                },
                            ],
                        ),
                    )
                }
            } else {
                Ok((ParserModel { objects: objs, ..m }, seq![save]))
            }
        }
    }
}

/// One statement, by its verb.
#[verifier::opaque]
pub open spec fn statement_outcome(m: ParserModel, t: Seq<Seq<char>>) -> Outcome {
    if t.len() == 0 {
        Err(ErrorKind::Grammar)
    } else if t[0] == "create"@ {
        create_outcome(m, t)
    } else if t[0] == "connect"@ {
        connect_outcome(m, t)
    } else if t[0] == "set"@ {
        set_outcome(m, t)
    } else if t[0] == "delete"@ {
        delete_outcome(m, t)
    } else if t[0] == "code"@ {
        code_outcome(m, t)
    } else if t[0] == "build"@ {
        build_outcome(m, t)
    } else if t[0] == "import"@ {
        import_outcome(m, t)
    } else {
        Err(ErrorKind::Grammar)
    }
}

/// The tokens of each statement of a command: statements are separated by
/// `;` and tokens by whitespace.
pub open spec fn command_statements(c: Seq<char>) -> Seq<Seq<Seq<char>>> {
    split_on(c, ';').map_values(|st: Seq<char>| words(st))
}

/// A batch of statements run in order: the state after the statements
/// that ran, their effects in order, and the error of the first one that
/// failed, after which nothing else runs. Nothing is undone.
pub open spec fn batch_outcome(m: ParserModel, stmts: Seq<Seq<Seq<char>>>) -> (
    ParserModel,
    Seq<EffectView>,
    Option<ErrorKind>,
)
    decreases stmts.len(),
{
    if stmts.len() == 0 {
        (m, Seq::empty(), None)
    } else {
        let (m1, e1, err) = batch_outcome(m, stmts.drop_last());
        if err is Some {
            (m1, e1, err)
        } else {
            match statement_outcome(m1, stmts.last()) {
                Ok((m2, e2)) => (m2, e1 + e2, None),
                Err(k) => (m1, e1, Some(k)),
            }
        }
    }
}

pub open spec fn block_views(v: Seq<ProcessorCoder>) -> Seq<BlockModel> {
    v.map_values(|b: ProcessorCoder| b@)
}

/// A dotted name of one segment: the name of a project root.
pub open spec fn is_root_key(k: Seq<char>) -> bool {
    split_on(k, '.').len() == 1
}

/// The position of a project root among the entries of a snapshot.
pub open spec fn root_index(s: Seq<(Seq<char>, ObjectView)>) -> int {
    choose|i: int| 0 <= i < s.len() && is_root_key(s[i].0)
}

/// Each block generator keyed by `<project>.<block>`.
pub open spec fn block_entries(project: Seq<char>, blocks: Seq<BlockModel>) -> Seq<
    (Seq<char>, GeneratorView),
> {
    blocks.map_values(|b: BlockModel| (dot2(project, b.name), GeneratorView::Block(b)))
}

/// Loading a project snapshot: its entries, its generator, and the
/// generators of its blocks. The entries name one project root and lie
/// beneath it; nothing of that project is in the registry yet; the
/// generator's kind matches the root's category.
pub open spec fn import_project_outcome(
    m: ParserModel,
    s: Seq<(Seq<char>, ObjectView)>,
    g: GeneratorView,
    blocks: Seq<BlockModel>,
) -> Result<ParserModel, ErrorKind> {
    if !unique_keys(s) {
        Err(ErrorKind::Grammar)
    } else if !generator_wf(g) || exists|i: int| 0 <= i < blocks.len() && !block_model_wf(#[trigger] blocks[i]) {
        Err(ErrorKind::Grammar)
    } else if !(exists|i: int| 0 <= i < s.len() && is_root_key(#[trigger] s[i].0)) {
        Err(ErrorKind::Grammar)
    } else {
        let r = s[root_index(s)].0;
        let c = s[root_index(s)].1.category;
        if exists|i: int| 0 <= i < s.len() && !is_under(#[trigger] s[i].0, r) {
            Err(ErrorKind::Shape)
        } else if exists|k: Seq<char>| #[trigger] m.objects.contains_key(k) && is_under(k, r) {
            Err(ErrorKind::Conflict)
        } else if !((c == ObjectCategory::Library && g is Library) || (c
            == ObjectCategory::Application && g is Application)) {
            Err(ErrorKind::Reference)
        } else {
            Ok(
                ParserModel {
                    objects: m.objects.union_prefer_right(crate::strmap::to_map(s)),
                    coders: m.coders.insert(r, g).union_prefer_right(
                        crate::strmap::to_map(block_entries(r, blocks)),
                    ),
                },
            )
        }
    }
}

/// The exec result matches the outcome: on success the new state and the
/// effects; on failure the state unchanged and the error's kind.
pub open spec fn matches_outcome(
    r: Result<Vec<Effect>, CommandError>,
    before: ParserModel,
    after: ParserModel,
    o: Outcome,
) -> bool {
    match (r, o) {
        (Ok(effs), Ok((m, e))) => after == m && effect_views(effs@) == e,
        (Err(err), Err(k)) => after == before && err.kind == k,
        _ => false,
    }
}

pub open spec fn model_wf(m: ParserModel) -> bool {
    forall|k: Seq<char>| #[trigger] m.coders.contains_key(k) ==> generator_wf(m.coders[k])
}

/// A batch that stopped at a failing statement: the effects of the
/// statements before it, which stay applied, and its error.
pub struct BatchError {
    pub applied: Vec<Effect>,
    pub error: CommandError,
}

pub open spec fn token_views(v: Seq<Vec<String>>) -> Seq<Seq<Seq<char>>> {
    v.map_values(|t: Vec<String>| views(t@))
}

/// Splits a command into the tokens of each of its statements.
pub fn statements(command: &str) -> (r: Vec<Vec<String>>)
    ensures
        token_views(r@) == command_statements(command@),
{
    let parts = split_text(command, ';');
    let mut out: Vec<Vec<String>> = Vec::new();
    let mut i: usize = 0;
    while i < parts.len()
        invariant
            0 <= i <= parts@.len(),
            token_views(out@) == views(parts@).take(i as int).map_values(|st: Seq<char>| words(st)),
        decreases parts@.len() - i,
    {
        let toks = tokenize(parts[i].as_str());
        let ghost before = token_views(out@);
        out.push(toks);
        proof {
            assert(token_views(out@) =~= before.push(views(toks@)));
            assert(views(parts@).take(i + 1).map_values(|st: Seq<char>| words(st)) =~= views(
                parts@,
            ).take(i as int).map_values(|st: Seq<char>| words(st)).push(words(parts@[i as int]@)));
        }
        i = i + 1;
    }
    proof {
        assert(views(parts@).take(parts@.len() as int) =~= views(parts@));
    }
    out
}

/// Once a statement of a batch fails, the rest of the batch changes
/// nothing.
pub proof fn lemma_batch_stops(m: ParserModel, stmts: Seq<Seq<Seq<char>>>, k: int)
    requires
        0 <= k <= stmts.len(),
        batch_outcome(m, stmts.take(k)).2 is Some,
    ensures
        batch_outcome(m, stmts) == batch_outcome(m, stmts.take(k)),
    decreases stmts.len() - k,
{
    if k < stmts.len() {
        assert(stmts.take(k + 1).drop_last() =~= stmts.take(k));
        lemma_batch_stops(m, stmts, k + 1);
    } else {
        assert(stmts.take(k) =~= stmts);
    }
}

/// Whether every block generator is well formed.
fn blocks_well_formed(blocks: &Vec<ProcessorCoder>) -> (r: bool)
    ensures
        r == forall|j: int| 0 <= j < blocks@.len() ==> block_model_wf(#[trigger] block_views(blocks@)[j]),
{
    let mut i: usize = 0;
    while i < blocks.len()
        invariant
            0 <= i <= blocks@.len(),
            forall|j: int| 0 <= j < i ==> block_model_wf(#[trigger] block_views(blocks@)[j]),
        decreases blocks@.len() - i,
    {
        if !blocks[i].is_well_formed() {
            proof {
                assert(!block_model_wf(block_views(blocks@)[i as int]));
            }
            return false;
        }
        i = i + 1;
    }
    true
}

/// The position of the first project root of a snapshot.
fn find_root(snapshot: &StrMap<MemoryObject>) -> (r: Option<usize>)
    ensures
        match r {
            Some(i) => i < snapshot.pairs().len() && is_root_key(snapshot.pairs()[i as int].0),
            None => forall|j: int| 0 <= j < snapshot.pairs().len() ==> !is_root_key(#[trigger] snapshot.pairs()[j].0),
        },
{
    let mut i: usize = 0;
    while i < snapshot.len()
        invariant
            0 <= i <= snapshot.pairs().len(),
            forall|j: int| 0 <= j < i ==> !is_root_key(#[trigger] snapshot.pairs()[j].0),
        decreases snapshot.pairs().len() - i,
    {
        if split_text(snapshot.key_at(i).as_str(), '.').len() == 1 {
            return Some(i);
        }
        i = i + 1;
    }
    None
}

/// Whether every key of a snapshot is `x` or lies beneath it.
fn all_under(snapshot: &StrMap<MemoryObject>, x: &str) -> (r: bool)
    ensures
        r == forall|j: int| 0 <= j < snapshot.pairs().len() ==> is_under(#[trigger] snapshot.pairs()[j].0, x@),
{
    let mut i: usize = 0;
    while i < snapshot.len()
        invariant
            0 <= i <= snapshot.pairs().len(),
            forall|j: int| 0 <= j < i ==> is_under(#[trigger] snapshot.pairs()[j].0, x@),
        decreases snapshot.pairs().len() - i,
    {
        if !crate::naming::under(snapshot.key_at(i).as_str(), x) {
            return false;
        }
        i = i + 1;
    }
    true
}

/// The command dispatcher and the registry it keeps.
pub struct Parser {
    objects: StrMap<MemoryObject>,
    coders: StrMap<Generator>,
}

impl View for Parser {
    type V = ParserModel;

    closed spec fn view(&self) -> ParserModel {
        ParserModel { objects: self.objects@, coders: self.coders@ }
    }
}

fn error(kind: ErrorKind, message: String) -> (r: CommandError)
    ensures
        r.kind == kind,
{
    CommandError { kind, message }
}

fn lit(s: &str) -> (r: String)
    ensures
        r@ == s@,
{
    String::from_str(s)
}

impl Parser {
    pub closed spec fn wf(&self) -> bool {
        self.objects.wf() && self.coders.wf() && model_wf(self@)
    }

    /// A dispatcher with an empty registry.
    pub fn new() -> (r: Self)
        ensures
            r.wf(),
            r@.objects == Map::<Seq<char>, ObjectView>::empty(),
            r@.coders == Map::<Seq<char>, GeneratorView>::empty(),
    {
        let r = Parser { objects: StrMap::new(), coders: StrMap::new() };
        proof {
            assert(r@.objects =~= Map::<Seq<char>, ObjectView>::empty());
            assert(r@.coders =~= Map::<Seq<char>, GeneratorView>::empty());
        }
        r
    }

    /// Whether `name` exists with category `c`; a reference error otherwise.
    fn check_var(&self, name: &str, c: ObjectCategory) -> (r: Result<(), CommandError>)
        requires
            self.wf(),
        ensures
            r is Ok <==> check_var(self@, name@, c) is None,
            r is Err ==> r->Err_0.kind == ErrorKind::Reference,
    {
        match self.objects.get(name) {
            Some(o) => {
                if o.object_category == c {
                    Ok(())
                } else {
                    Err(error(ErrorKind::Reference, cat3("Type mismatch for ", name, ".")))
                }
            },
            None => Err(error(ErrorKind::Reference, cat3("Object ", name, " not found."))),
        }
    }

    /// The type recorded for the entity `p`: a project root's directory, an
    /// instance's block type.
    fn object_type_of(&self, p: &str) -> (r: String)
        requires
            self.wf(),
            self@.objects.contains_key(p@),
        ensures
            r@ == self@.objects[p@].object_type,
    {
        match self.objects.get(p) {
            Some(o) => o.object_type.clone(),
            None => String::new(),
        }
    }

    fn generator_kind(&self, name: &str) -> (r: u8)
        requires
            self.wf(),
        ensures
            r == 1 <==> has_library(self@, name@),
            r == 2 <==> has_application(self@, name@),
            r == 3 <==> has_block(self@, name@),
    {
        match self.coders.get(name) {
            Some(Generator::Library(_)) => 1,
            Some(Generator::Application(_)) => 2,
            Some(Generator::Block(_)) => 3,
            None => 0,
        }
    }

    /// Takes out the library generator `name`.
    fn take_library(&mut self, name: &str) -> (r: LibCoder)
        requires
            old(self).wf(),
            has_library(old(self)@, name@),
        ensures
            final(self).wf(),
            r.wf(),
            r@ == old(self)@.coders[name@]->Library_0,
            final(self)@ == (ParserModel { coders: old(self)@.coders.remove(name@), ..old(self)@ }),
    {
        let g = self.coders.remove(name);
        proof {
            assert forall|k: Seq<char>| #[trigger] self@.coders.contains_key(k) implies generator_wf(
                self@.coders[k],
            ) by {
                assert(old(self)@.coders.contains_key(k));
            }
            assert(old(self)@.coders.contains_key(name@));
        }
        match g {
            Some(Generator::Library(l)) => l,
            _ => {
                proof {
                    assert(false);
                }
                LibCoder::new(String::new())
            },
        }
    }

    /// Takes out the application generator `name`.
    fn take_application(&mut self, name: &str) -> (r: MainCoder)
        requires
            old(self).wf(),
            has_application(old(self)@, name@),
        ensures
            final(self).wf(),
            r.wf(),
            r@ == old(self)@.coders[name@]->Application_0,
            final(self)@ == (ParserModel { coders: old(self)@.coders.remove(name@), ..old(self)@ }),
    {
        let g = self.coders.remove(name);
        proof {
            assert forall|k: Seq<char>| #[trigger] self@.coders.contains_key(k) implies generator_wf(
                self@.coders[k],
            ) by {
                assert(old(self)@.coders.contains_key(k));
            }
            assert(old(self)@.coders.contains_key(name@));
        }
        match g {
            Some(Generator::Application(a)) => a,
            _ => {
                proof {
                    assert(false);
                }
                MainCoder::new(String::new())
            },
        }
    }

    /// Takes out the block generator `name`.
    fn take_block(&mut self, name: &str) -> (r: ProcessorCoder)
        requires
            old(self).wf(),
            has_block(old(self)@, name@),
        ensures
            final(self).wf(),
            r.wf(),
            r@ == old(self)@.coders[name@]->Block_0,
            final(self)@ == (ParserModel { coders: old(self)@.coders.remove(name@), ..old(self)@ }),
    {
        let g = self.coders.remove(name);
        proof {
            assert forall|k: Seq<char>| #[trigger] self@.coders.contains_key(k) implies generator_wf(
                self@.coders[k],
            ) by {
                assert(old(self)@.coders.contains_key(k));
            }
            assert(old(self)@.coders.contains_key(name@));
        }
        match g {
            Some(Generator::Block(b)) => b,
            _ => {
                proof {
                    assert(false);
                }
                ProcessorCoder::new(String::new(), String::new())
            },
        }
    }

    /// Puts a generator under `name`.
    fn put_generator(&mut self, name: String, g: Generator)
        requires
            old(self).wf(),
            generator_wf(g@),
        ensures
            final(self).wf(),
            final(self)@ == (ParserModel { coders: old(self)@.coders.insert(name@, g@), ..old(self)@ }),
    {
        let ghost n = name@;
        let ghost gv = g@;
        self.coders.insert(name, g);
        proof {
            assert forall|k: Seq<char>| #[trigger] self@.coders.contains_key(k) implies generator_wf(
                self@.coders[k],
            ) by {
                if k != n {
                    assert(old(self)@.coders.contains_key(k));
                }
            }
        }
    }

    /// Records a new entity.
    fn put_object(&mut self, name: String, o: MemoryObject)
        requires
            old(self).wf(),
        ensures
            final(self).wf(),
            final(self)@ == (ParserModel { objects: old(self)@.objects.insert(name@, o@), ..old(self)@ }),
    {
        self.objects.insert(name, o);
        proof {
            assert(self@.coders == old(self)@.coders);
        }
    }

    /// The segments of a block member's name, once the shared checks pass.
    fn member_target(&self, tokens: &Vec<String>) -> (r: Result<Vec<String>, CommandError>)
        requires
            self.wf(),
        ensures
            match r {
                Ok(segs) => member_check(self@, views(tokens@)) is None && views(segs@) == split_on(
                    views(tokens@)[2],
                    '.',
                ) && segs@.len() == 3,
                Err(e) => member_check(self@, views(tokens@)) == Some(e.kind),
            },
    {
        let ghost t = views(tokens@);
        if tokens.len() < 3 {
            return Err(error(ErrorKind::Grammar, lit("Missing object name.")));
        }
        proof {
            assert(t[2] == tokens@[2]@);
        }
        let segs = split_text(tokens[2].as_str(), '.');
        if segs.len() != 3 {
            return Err(error(ErrorKind::Shape, lit("The name must have the form <library>.<block>.<name>.")));
        }
        proof {
            assert(views(segs@)[0] == segs@[0]@);
            assert(views(segs@)[1] == segs@[1]@);
        }
        match self.check_var(segs[0].as_str(), ObjectCategory::Library) {
            Err(e) => return Err(e),
            Ok(()) => {},
        }
        let parent = cat3(segs[0].as_str(), ".", segs[1].as_str());
        match self.check_var(parent.as_str(), ObjectCategory::ProcessorBlock) {
            Err(e) => return Err(e),
            Ok(()) => {},
        }
        Ok(segs)
    }

    /// Records a block member and regenerates its block.
    fn finish_member(
        &mut self,
        tokens: &Vec<String>,
        segs: &Vec<String>,
        obj: MemoryObject,
        block: ProcessorCoder,
    ) -> (r: Vec<Effect>)
        requires
            old(self).wf(),
            block.wf(),
            member_check(old(self)@, views(tokens@)) is None,
            views(segs@) == split_on(views(tokens@)[2], '.'),
            segs@.len() == 3,
            old(self)@.objects.contains_key(segs@[0]@),
        ensures
            final(self).wf(),
            (final(self)@, effect_views(r@)) == member_done(old(self)@, views(tokens@), obj@, block@),
    {
        let ghost t = views(tokens@);
        proof {
            assert(views(segs@)[0] == segs@[0]@);
            assert(views(segs@)[1] == segs@[1]@);
            assert(t[2] == tokens@[2]@);
        }
        let dir = self.object_type_of(segs[0].as_str());
        let parent = cat3(segs[0].as_str(), ".", segs[1].as_str());
        let mut block_file = cat3(dir.as_str(), "/.project/", segs[1].as_str());
        block_file.append(".json");
        let mut effs: Vec<Effect> = Vec::new();
        effs.push(Effect::SaveRegistry { project: segs[0].clone(), file: cat(dir.as_str(), "/.project/memory_map.json") });
        effs.push(Effect::WriteSource { path: block.get_path().clone(), content: block.generate() });
        effs.push(Effect::SaveGenerator { name: parent.clone(), file: block_file });
        self.put_object(tokens[2].clone(), obj);
        self.put_generator(parent, Generator::Block(block));
        proof {
            assert(effect_views(effs@) =~= member_done(old(self)@, t, obj@, block@).1);
        }
        effs
    }

    /// `create input|output|state <lib>.<block>.<name> type <type>`.
    fn create_typed(&mut self, tokens: &Vec<String>, c: ObjectCategory) -> (r: Result<
        Vec<Effect>,
        CommandError,
    >)
        requires
            old(self).wf(),
            tokens@.len() > 1,
            tokens@[1]@ == crate::naming::category_keyword(c),
        ensures
            final(self).wf(),
            matches_outcome(r, old(self)@, final(self)@, create_typed_outcome(old(self)@, views(tokens@), c)),
    {
        let ghost t = views(tokens@);
        proof {
            reveal_strlit("type");
        }
        let segs = match self.member_target(tokens) {
            Err(e) => return Err(e),
            Ok(s) => s,
        };
        if tokens.len() < 5 || !same_text(tokens[3].as_str(), "type") {
            return Err(error(ErrorKind::Grammar, lit("Expected type keyword and type.")));
        }
        proof {
            assert(t[1] == tokens@[1]@);
            assert(t[2] == tokens@[2]@);
            assert(t[3] == tokens@[3]@);
            assert(t[4] == tokens@[4]@);
            assert(views(segs@)[0] == segs@[0]@);
            assert(views(segs@)[1] == segs@[1]@);
            assert(views(segs@)[2] == segs@[2]@);
        }
        if self.objects.contains_key(tokens[2].as_str()) {
            return Err(error(ErrorKind::Conflict, cat3("Object ", tokens[2].as_str(), " already exists.")));
        }
        let parent = cat3(segs[0].as_str(), ".", segs[1].as_str());
        if self.generator_kind(parent.as_str()) != 3 {
            return Err(error(ErrorKind::Reference, cat3("No block generator for ", parent.as_str(), ".")));
        }
        let mut block = self.take_block(parent.as_str());
        block.add_typed(&tokens[1], &segs[2], &tokens[4]);
        let obj = MemoryObject {
            parent: parent.clone(),
            object_category: c,
            object_type: tokens[4].clone(),
            object_value: String::new(),
            object_limits: String::new(),
        };
        let ghost mid = self@;
        let ghost bv = GeneratorView::Block(block@);
        let effs = self.finish_member(tokens, &segs, obj, block);
        proof {
            assert(mid.coders.insert(parent@, bv) =~= old(self)@.coders.insert(parent@, bv));
            let o = create_typed_outcome(old(self)@, t, c);
            assert(o is Ok);
        }
        Ok(effs)
    }

    /// `create static|parameter <lib>.<block>.<name> type <type> value
    /// <default> [limits <min,max>]`.
    fn create_settable(&mut self, tokens: &Vec<String>, c: ObjectCategory) -> (r: Result<
        Vec<Effect>,
        CommandError,
    >)
        requires
            old(self).wf(),
            tokens@.len() > 1,
            tokens@[1]@ == crate::naming::category_keyword(c),
        ensures
            final(self).wf(),
            matches_outcome(
                r,
                old(self)@,
                final(self)@,
                create_settable_outcome(old(self)@, views(tokens@), c),
            ),
    {
        let ghost t = views(tokens@);
        proof {
            reveal_strlit("type");
            reveal_strlit("value");
            reveal_strlit("limits");
        }
        let segs = match self.member_target(tokens) {
            Err(e) => return Err(e),
            Ok(s) => s,
        };
        if tokens.len() < 5 || !same_text(tokens[3].as_str(), "type") {
            return Err(error(ErrorKind::Grammar, lit("Expected type keyword and type.")));
        }
        if tokens.len() < 7 || !same_text(tokens[5].as_str(), "value") {
            return Err(error(ErrorKind::Grammar, lit("Expected value keyword and value.")));
        }
        if tokens.len() > 7 && (!same_text(tokens[7].as_str(), "limits") || tokens.len() < 9) {
            return Err(error(ErrorKind::Grammar, lit("Expected limits keyword and limits.")));
        }
        proof {
            assert(t[1] == tokens@[1]@);
            assert(t[2] == tokens@[2]@);
            assert(t[4] == tokens@[4]@);
            assert(t[6] == tokens@[6]@);
            assert(views(segs@)[0] == segs@[0]@);
            assert(views(segs@)[1] == segs@[1]@);
            assert(views(segs@)[2] == segs@[2]@);
        }
        if self.objects.contains_key(tokens[2].as_str()) {
            return Err(error(ErrorKind::Conflict, cat3("Object ", tokens[2].as_str(), " already exists.")));
        }
        let parent = cat3(segs[0].as_str(), ".", segs[1].as_str());
        if self.generator_kind(parent.as_str()) != 3 {
            return Err(error(ErrorKind::Reference, cat3("No block generator for ", parent.as_str(), ".")));
        }
        let limits: Option<&String> = if tokens.len() > 8 {
            proof {
                assert(t[8] == tokens@[8]@);
            }
            Some(&tokens[8])
        } else {
            None
        };
        let mut block = self.take_block(parent.as_str());
        block.add_settable(&tokens[1], &segs[2], &tokens[4], &tokens[6], limits);
        let obj = MemoryObject {
            parent: parent.clone(),
            object_category: c,
            object_type: tokens[4].clone(),
            object_value: tokens[6].clone(),
            object_limits: match limits {
                Some(l) => l.clone(),
                None => String::new(),
            },
        };
        let ghost mid = self@;
        let ghost bv = GeneratorView::Block(block@);
        let effs = self.finish_member(tokens, &segs, obj, block);
        proof {
            assert(mid.coders.insert(parent@, bv) =~= old(self)@.coders.insert(parent@, bv));
            let o = create_settable_outcome(old(self)@, t, c);
            assert(o is Ok);
        }
        Ok(effs)
    }

    /// Records an entity of an application and regenerates the application.
    fn finish_app_member(&mut self, app: &String, name: String, obj: MemoryObject, a: MainCoder) -> (r:
        Vec<Effect>)
        requires
            old(self).wf(),
            a.wf(),
            old(self)@.objects.contains_key(app@),
        ensures
            final(self).wf(),
            (final(self)@, effect_views(r@)) == app_member_done(old(self)@, app@, name@, obj@, a@),
    {
        let dir = self.object_type_of(app.as_str());
        let mut effs: Vec<Effect> = Vec::new();
        effs.push(Effect::SaveRegistry { project: app.clone(), file: cat(dir.as_str(), "/.project/memory_map.json") });
        effs.push(Effect::WriteSource { path: a.get_file_path().clone(), content: a.generate() });
        effs.push(Effect::SaveGenerator { name: app.clone(), file: cat(dir.as_str(), "/.project/main_coder.json") });
        let ghost ov = obj@;
        let ghost av = a@;
        self.put_object(name, obj);
        self.put_generator(app.clone(), Generator::Application(a));
        proof {
            assert(effect_views(effs@) =~= app_member_done(old(self)@, app@, name@, ov, av).1);
        }
        effs
    }

    /// `create task <app>.<task>`.
    fn create_task(&mut self, tokens: &Vec<String>) -> (r: Result<Vec<Effect>, CommandError>)
        requires
            old(self).wf(),
        ensures
            final(self).wf(),
            matches_outcome(r, old(self)@, final(self)@, create_task_outcome(old(self)@, views(tokens@))),
    {
        let ghost t = views(tokens@);
        if tokens.len() < 3 {
            return Err(error(ErrorKind::Grammar, lit("Missing task name.")));
        }
        proof {
            assert(t[2] == tokens@[2]@);
        }
        let segs = split_text(tokens[2].as_str(), '.');
        if segs.len() != 2 {
            return Err(error(ErrorKind::Shape, lit("A task name has the form <application>.<task>.")));
        }
        proof {
            assert(views(segs@)[0] == segs@[0]@);
        }
        let app = &segs[0];
        match self.check_var(app.as_str(), ObjectCategory::Application) {
            Err(e) => return Err(e),
            Ok(()) => {},
        }
        if self.objects.contains_key(tokens[2].as_str()) {
            return Err(error(ErrorKind::Conflict, cat3("Object ", tokens[2].as_str(), " already exists.")));
        }
        if self.generator_kind(app.as_str()) != 2 {
            return Err(error(ErrorKind::Reference, cat3("No application generator for ", app.as_str(), ".")));
        }
        let mut a = self.take_application(app.as_str());
        a.add_task_processor(tokens[2].clone());
        let obj = MemoryObject {
            parent: app.clone(),
            object_category: ObjectCategory::Task,
            object_type: String::new(),
            object_value: String::new(),
            object_limits: String::new(),
        };
        let ghost mid = self@;
        let ghost av = GeneratorView::Application(a@);
        let effs = self.finish_app_member(app, tokens[2].clone(), obj, a);
        proof {
            assert(mid.coders.insert(app@, av) =~= old(self)@.coders.insert(app@, av));
            let o = create_task_outcome(old(self)@, t);
            assert(o is Ok);
        }
        Ok(effs)
    }

    /// `create processor_instance <app>.<task>.<name> type <blocktype>`.
    fn create_stream_proc(&mut self, tokens: &Vec<String>) -> (r: Result<Vec<Effect>, CommandError>)
        requires
            old(self).wf(),
        ensures
            final(self).wf(),
            matches_outcome(r, old(self)@, final(self)@, create_instance_outcome(old(self)@, views(tokens@))),
    {
        let ghost t = views(tokens@);
        proof {
            reveal_strlit("type");
        }
        if tokens.len() < 3 {
            return Err(error(ErrorKind::Grammar, lit("Missing processor instance name.")));
        }
        proof {
            assert(t[2] == tokens@[2]@);
        }
        let segs = split_text(tokens[2].as_str(), '.');
        if segs.len() != 3 {
            return Err(error(ErrorKind::Shape, lit("An instance name has the form <application>.<task>.<name>.")));
        }
        proof {
            assert(views(segs@)[0] == segs@[0]@);
            assert(views(segs@)[1] == segs@[1]@);
        }
        let app = &segs[0];
        match self.check_var(app.as_str(), ObjectCategory::Application) {
            Err(e) => return Err(e),
            Ok(()) => {},
        }
        let task = cat3(segs[0].as_str(), ".", segs[1].as_str());
        match self.check_var(task.as_str(), ObjectCategory::Task) {
            Err(e) => return Err(e),
            Ok(()) => {},
        }
        if tokens.len() < 5 || !same_text(tokens[3].as_str(), "type") {
            return Err(error(ErrorKind::Grammar, lit("Expected type keyword and block type.")));
        }
        proof {
            assert(t[4] == tokens@[4]@);
        }
        if self.objects.contains_key(tokens[2].as_str()) {
            return Err(error(ErrorKind::Conflict, cat3("Object ", tokens[2].as_str(), " already exists.")));
        }
        if self.generator_kind(app.as_str()) != 2 {
            return Err(error(ErrorKind::Reference, cat3("No application generator for ", app.as_str(), ".")));
        }
        let mut a = self.take_application(app.as_str());
        a.add_stream_processor(tokens[2].clone(), tokens[4].clone());
        let obj = MemoryObject {
            parent: task,
            object_category: ObjectCategory::ProcessorInstance,
            object_type: tokens[4].clone(),
            object_value: String::new(),
            object_limits: String::new(),
        };
        let ghost mid = self@;
        let ghost av = GeneratorView::Application(a@);
        let effs = self.finish_app_member(app, tokens[2].clone(), obj, a);
        proof {
            assert(mid.coders.insert(app@, av) =~= old(self)@.coders.insert(app@, av));
            let o = create_instance_outcome(old(self)@, t);
            assert(o is Ok);
        }
        Ok(effs)
    }

    /// Whether some library declares, in its block `block_type`, an entity
    /// `port` of category `c`.
    fn port_resolves(&self, block_type: &str, port: &str, c: ObjectCategory) -> (r: bool)
        requires
            self.wf(),
        ensures
            r == port_resolves(self@, block_type@, port@, c),
    {
        let ghost ps = self.objects.pairs();
        let mut i: usize = 0;
        while i < self.objects.len()
            invariant
                self.wf(),
                ps == self.objects.pairs(),
                0 <= i <= ps.len(),
                forall|j: int| 0 <= j < i ==> !(#[trigger] ps[j].1.category == ObjectCategory::Library
                    && check_var(self@, dot2(dot2(ps[j].0, block_type@), port@), c) is None),
            decreases ps.len() - i,
        {
            let key = self.objects.key_at(i);
            if self.objects.value_at(i).object_category == ObjectCategory::Library {
                let mut full = cat3(key.as_str(), ".", block_type);
                full.append(".");
                full.append(port);
                if self.check_var(full.as_str(), c).is_ok() {
                    proof {
                        lemma_to_map_value(ps, i as int);
                        assert(self@.objects.contains_key(ps[i as int].0));
                    }
                    return true;
                }
            }
            i = i + 1;
        }
        proof {
            assert forall|lib: Seq<char>| #[trigger] self@.objects.contains_key(lib) implies !(
            self@.objects[lib].category == ObjectCategory::Library && check_var(
                self@,
                dot2(dot2(lib, block_type@), port@),
                c,
            ) is None) by {
                lemma_to_map_domain(ps, lib);
                let j = choose|j: int| 0 <= j < ps.len() && ps[j].0 == lib;
                lemma_to_map_value(ps, j);
                assert(!(ps[j].1.category == ObjectCategory::Library && check_var(
                    self@,
                    dot2(dot2(ps[j].0, block_type@), port@),
                    c,
                ) is None));
            }
        }
        false
    }

    /// Puts the application generator back and regenerates it.
    fn finish_app(&mut self, app: &String, a: MainCoder) -> (r: Vec<Effect>)
        requires
            old(self).wf(),
            a.wf(),
            old(self)@.objects.contains_key(app@),
        ensures
            final(self).wf(),
            (final(self)@, effect_views(r@)) == app_done(old(self)@, app@, a@),
    {
        let dir = self.object_type_of(app.as_str());
        let mut effs: Vec<Effect> = Vec::new();
        effs.push(Effect::WriteSource { path: a.get_file_path().clone(), content: a.generate() });
        effs.push(Effect::SaveGenerator { name: app.clone(), file: cat(dir.as_str(), "/.project/main_coder.json") });
        let ghost av = a@;
        self.put_generator(app.clone(), Generator::Application(a));
        proof {
            assert(effect_views(effs@) =~= app_done(old(self)@, app@, av).1);
        }
        effs
    }

    /// `connect <app>.<task>.<proc>.<output> <app>.<task>.<proc>.<input>`.
    fn parse_connect(&mut self, tokens: &Vec<String>) -> (r: Result<Vec<Effect>, CommandError>)
        requires
            old(self).wf(),
        ensures
            final(self).wf(),
            matches_outcome(r, old(self)@, final(self)@, connect_outcome(old(self)@, views(tokens@))),
    {
        let ghost t = views(tokens@);
        if tokens.len() < 3 {
            return Err(error(ErrorKind::Grammar, lit("Missing source or target name.")));
        }
        proof {
            assert(t[1] == tokens@[1]@);
            assert(t[2] == tokens@[2]@);
        }
        let src = split_text(tokens[1].as_str(), '.');
        let dst = split_text(tokens[2].as_str(), '.');
        if src.len() != 4 || dst.len() != 4 {
            return Err(error(ErrorKind::Shape, lit("A port name has the form <application>.<task>.<instance>.<port>.")));
        }
        proof {
            assert(views(src@)[0] == src@[0]@);
            assert(views(src@)[1] == src@[1]@);
            assert(views(src@)[2] == src@[2]@);
            assert(views(src@)[3] == src@[3]@);
            assert(views(dst@)[0] == dst@[0]@);
            assert(views(dst@)[1] == dst@[1]@);
            assert(views(dst@)[2] == dst@[2]@);
            assert(views(dst@)[3] == dst@[3]@);
        }
        let app = &src[0];
        match self.check_var(app.as_str(), ObjectCategory::Application) {
            Err(e) => return Err(e),
            Ok(()) => {},
        }
        let mut from = cat3(src[0].as_str(), ".", src[1].as_str());
        from.append(".");
        from.append(src[2].as_str());
        let mut to = cat3(dst[0].as_str(), ".", dst[1].as_str());
        to.append(".");
        to.append(dst[2].as_str());
        match self.check_var(from.as_str(), ObjectCategory::ProcessorInstance) {
            Err(e) => return Err(e),
            Ok(()) => {},
        }
        match self.check_var(to.as_str(), ObjectCategory::ProcessorInstance) {
            Err(e) => return Err(e),
            Ok(()) => {},
        }
        if !same_text(src[0].as_str(), dst[0].as_str()) {
            return Err(error(ErrorKind::Shape, lit("Both ends of a connection must be in one application.")));
        }
        let from_type = self.object_type_of(from.as_str());
        let to_type = self.object_type_of(to.as_str());
        if !self.port_resolves(from_type.as_str(), src[3].as_str(), ObjectCategory::Output) {
            return Err(error(ErrorKind::Reference, cat3("Source ", tokens[1].as_str(), " is not an output.")));
        }
        if !self.port_resolves(to_type.as_str(), dst[3].as_str(), ObjectCategory::Input) {
            return Err(error(ErrorKind::Reference, cat3("Target ", tokens[2].as_str(), " is not an input.")));
        }
        if self.generator_kind(app.as_str()) != 2 {
            return Err(error(ErrorKind::Reference, cat3("No application generator for ", app.as_str(), ".")));
        }
        let mut a = self.take_application(app.as_str());
        a.add_connection(from, src[3].clone(), to, dst[3].clone());
        let ghost mid = self@;
        let ghost av = GeneratorView::Application(a@);
        let effs = self.finish_app(app, a);
        proof {
            assert(mid.coders.insert(app@, av) =~= old(self)@.coders.insert(app@, av));
            let o = connect_outcome(old(self)@, t);
            assert(o is Ok);
            assert(self@ == o->Ok_0.0);
        }
        Ok(effs)
    }

    /// `set parameter|static <app>.<task>.<proc>.<slot> <value>`.
    fn parse_set(&mut self, tokens: &Vec<String>) -> (r: Result<Vec<Effect>, CommandError>)
        requires
            old(self).wf(),
        ensures
            final(self).wf(),
            matches_outcome(r, old(self)@, final(self)@, set_outcome(old(self)@, views(tokens@))),
    {
        let ghost t = views(tokens@);
        proof {
            reveal_strlit("parameter");
            reveal_strlit("static");
        }
        if tokens.len() < 4 {
            return Err(error(ErrorKind::Grammar, lit("Expected set <category> <name> <value>.")));
        }
        proof {
            assert(t[1] == tokens@[1]@);
            assert(t[2] == tokens@[2]@);
            assert(t[3] == tokens@[3]@);
        }
        let is_parameter = same_text(tokens[1].as_str(), "parameter");
        if !is_parameter && !same_text(tokens[1].as_str(), "static") {
            return Err(error(ErrorKind::Grammar, lit("A setting is a parameter or a static.")));
        }
        let segs = split_text(tokens[2].as_str(), '.');
        if segs.len() != 4 {
            return Err(error(ErrorKind::Shape, lit("A setting name has the form <application>.<task>.<instance>.<slot>.")));
        }
        proof {
            assert(views(segs@)[0] == segs@[0]@);
            assert(views(segs@)[1] == segs@[1]@);
            assert(views(segs@)[2] == segs@[2]@);
            assert(views(segs@)[3] == segs@[3]@);
        }
        let app = &segs[0];
        match self.check_var(app.as_str(), ObjectCategory::Application) {
            Err(e) => return Err(e),
            Ok(()) => {},
        }
        let mut inst = cat3(segs[0].as_str(), ".", segs[1].as_str());
        inst.append(".");
        inst.append(segs[2].as_str());
        match self.check_var(inst.as_str(), ObjectCategory::ProcessorInstance) {
            Err(e) => return Err(e),
            Ok(()) => {},
        }
        let c = if is_parameter { ObjectCategory::Parameter } else { ObjectCategory::Static };
        let block_type = self.object_type_of(inst.as_str());
        if !self.port_resolves(block_type.as_str(), segs[3].as_str(), c) {
            return Err(error(ErrorKind::Reference, cat3("Setting ", tokens[2].as_str(), " is not declared.")));
        }
        if self.generator_kind(app.as_str()) != 2 {
            return Err(error(ErrorKind::Reference, cat3("No application generator for ", app.as_str(), ".")));
        }
        let mut a = self.take_application(app.as_str());
        a.add_setting_value(inst, tokens[1].clone(), segs[3].clone(), tokens[3].clone());
        let ghost mid = self@;
        let ghost av = GeneratorView::Application(a@);
        let effs = self.finish_app(app, a);
        proof {
            assert(mid.coders.insert(app@, av) =~= old(self)@.coders.insert(app@, av));
            let o = set_outcome(old(self)@, t);
            assert(o is Ok);
            assert(self@ == o->Ok_0.0);
        }
        Ok(effs)
    }

    /// `build <library-or-application> [release|debug]`.
    fn parse_build(&self, tokens: &Vec<String>) -> (r: Result<Vec<Effect>, CommandError>)
        requires
            self.wf(),
        ensures
            matches_outcome(r, self@, self@, build_outcome(self@, views(tokens@))),
    {
        let ghost t = views(tokens@);
        proof {
            reveal_strlit("release");
            reveal_strlit("debug");
        }
        if tokens.len() < 2 {
            return Err(error(ErrorKind::Grammar, lit("Missing build target.")));
        }
        let name = tokens[1].as_str();
        proof {
            assert(t[1] == name@);
        }
        let (category, path) = match self.objects.get(name) {
            None => return Err(error(ErrorKind::Reference, cat3("Project ", name, " does not exist."))),
            Some(o) => (o.object_category, o.object_type.clone()),
        };
        if category != ObjectCategory::Library && category != ObjectCategory::Application {
            return Err(error(ErrorKind::Reference, cat3("Build target ", name, " is neither a library nor an application.")));
        }
        let mut release = false;
        if tokens.len() > 2 {
            proof {
                assert(t[2] == tokens@[2]@);
            }
            release = same_text(tokens[2].as_str(), "release");
            if !release && !same_text(tokens[2].as_str(), "debug") {
                return Err(error(ErrorKind::Grammar, lit("The build mode is release or debug.")));
            }
        }
        let mut effs: Vec<Effect> = Vec::new();
        effs.push(Effect::Build { path, release });
        proof {
            assert(effect_views(effs@) =~= build_outcome(self@, t)->Ok_0.1);
        }
        Ok(effs)
    }

    /// `import <path>`.
    pub fn parse_import(&self, tokens: &Vec<String>) -> (r: Result<Vec<Effect>, CommandError>)
        requires
            self.wf(),
        ensures
            matches_outcome(r, self@, self@, import_outcome(self@, views(tokens@))),
    {
        if tokens.len() < 2 {
            return Err(error(ErrorKind::Grammar, lit("Missing import path.")));
        }
        let mut effs: Vec<Effect> = Vec::new();
        effs.push(Effect::Import { path: tokens[1].clone() });
        proof {
            assert(effect_views(effs@) =~= import_outcome(self@, views(tokens@))->Ok_0.1);
        }
        Ok(effs)
    }

    /// `code <target> <section-id> <text>`.
    fn parse_code(&mut self, tokens: &Vec<String>) -> (r: Result<Vec<Effect>, CommandError>)
        requires
            old(self).wf(),
        ensures
            final(self).wf(),
            matches_outcome(r, old(self)@, final(self)@, code_outcome(old(self)@, views(tokens@))),
    {
        let ghost t = views(tokens@);
        if tokens.len() < 2 {
            return Err(error(ErrorKind::Grammar, lit("Missing code target.")));
        }
        let x = &tokens[1];
        proof {
            assert(t[1] == x@);
        }
        if self.check_var(x.as_str(), ObjectCategory::ProcessorBlock).is_ok() {
            if tokens.len() < 4 {
                return Err(error(ErrorKind::Grammar, lit("Expected a section and code.")));
            }
            proof {
                assert(t[2] == tokens@[2]@);
            }
            let part = match parse_small_number(tokens[2].as_str()) {
                None => return Err(error(ErrorKind::Grammar, lit("Invalid block code section."))),
                Some(n) => match ModCoderParts::from_index(n) {
                    None => return Err(error(ErrorKind::Grammar, lit("Invalid block code section."))),
                    Some(p) => p,
                },
            };
            let segs = split_text(x.as_str(), '.');
            if self.generator_kind(x.as_str()) != 3 || segs.len() != 2 || !self.objects.contains_key(segs[0].as_str()) {
                return Err(error(ErrorKind::Reference, cat3("No block generator for ", x.as_str(), ".")));
            }
            proof {
                assert(views(segs@)[0] == segs@[0]@);
                assert(views(segs@)[1] == segs@[1]@);
            }
            let code = self.code_of(tokens);
            let dir = self.object_type_of(segs[0].as_str());
            let mut b = self.take_block(x.as_str());
            b.add_code_section(part, code);
            let mut file = cat3(dir.as_str(), "/.project/", segs[1].as_str());
            file.append(".json");
            let mut effs: Vec<Effect> = Vec::new();
            effs.push(Effect::WriteSource { path: b.get_path().clone(), content: b.generate() });
            effs.push(Effect::SaveGenerator { name: x.clone(), file });
            let ghost mid = self@;
            let ghost bv = GeneratorView::Block(b@);
            self.put_generator(x.clone(), Generator::Block(b));
            proof {
                assert(mid.coders.insert(x@, bv) =~= old(self)@.coders.insert(x@, bv));
                let o = code_outcome(old(self)@, t);
                assert(o is Ok);
                assert(effect_views(effs@) =~= o->Ok_0.1);
                assert(self@ == o->Ok_0.0);
            }
            Ok(effs)
        } else if self.check_var(x.as_str(), ObjectCategory::Application).is_ok() {
            if tokens.len() < 4 {
                return Err(error(ErrorKind::Grammar, lit("Expected a section and code.")));
            }
            proof {
                assert(t[2] == tokens@[2]@);
            }
            let part = match parse_small_number(tokens[2].as_str()) {
                None => return Err(error(ErrorKind::Grammar, lit("Invalid application code section."))),
                Some(n) => match MainCoderParts::from_index(n) {
                    None => return Err(error(ErrorKind::Grammar, lit("Invalid application code section."))),
                    Some(p) => p,
                },
            };
            if self.generator_kind(x.as_str()) != 2 {
                return Err(error(ErrorKind::Reference, cat3("No application generator for ", x.as_str(), ".")));
            }
            let code = self.code_of(tokens);
            let mut a = self.take_application(x.as_str());
            a.add_code_section(part, code);
            let ghost mid = self@;
            let ghost av = GeneratorView::Application(a@);
            let effs = self.finish_app(x, a);
            proof {
                assert(mid.coders.insert(x@, av) =~= old(self)@.coders.insert(x@, av));
                let o = code_outcome(old(self)@, t);
                assert(o is Ok);
                assert(self@ == o->Ok_0.0);
            }
            Ok(effs)
        } else {
            Err(error(ErrorKind::Reference, cat3("Object ", x.as_str(), " does not take user code.")))
        }
    }

    /// The code of a `code` statement.
    fn code_of(&self, tokens: &Vec<String>) -> (r: String)
        requires
            tokens@.len() >= 3,
        ensures
            r@ == code_text(views(tokens@)),
    {
        let mut rest: Vec<String> = Vec::new();
        let mut i: usize = 3;
        while i < tokens.len()
            invariant
                3 <= i <= tokens@.len(),
                views(rest@) == views(tokens@).subrange(3, i as int),
            decreases tokens@.len() - i,
        {
            let ghost before = views(rest@);
            crate::text::push_line(&mut rest, tokens[i].clone());
            proof {
                assert(views(tokens@)[i as int] == tokens@[i as int]@);
                assert(views(rest@) =~= views(tokens@).subrange(3, i + 1));
            }
            i = i + 1;
        }
        proof {
            assert(views(tokens@).skip(3) =~= views(tokens@).subrange(3, tokens@.len() as int));
        }
        join_sep(&rest, ' ')
    }

    /// Removes the entities at or beneath `x`.
    fn remove_objects_under(&mut self, x: &str)
        requires
            old(self).wf(),
        ensures
            final(self).wf(),
            final(self)@ == (ParserModel { objects: map_outside(old(self)@.objects, x@), ..old(self)@ }),
    {
        self.objects.remove_under(x);
        proof {
            assert(self@.coders == old(self)@.coders);
        }
    }

    /// Removes the generators at or beneath `x`.
    fn remove_coders_under(&mut self, x: &str)
        requires
            old(self).wf(),
        ensures
            final(self).wf(),
            final(self)@ == (ParserModel { coders: map_outside(old(self)@.coders, x@), ..old(self)@ }),
    {
        self.coders.remove_under(x);
        proof {
            assert forall|k: Seq<char>| #[trigger] self@.coders.contains_key(k) implies generator_wf(
                self@.coders[k],
            ) by {
                assert(old(self)@.coders.contains_key(k));
            }
        }
    }

    /// `delete <name>`.
    #[verifier::rlimit(40)]
    fn parse_delete(&mut self, tokens: &Vec<String>) -> (r: Result<Vec<Effect>, CommandError>)
        requires
            old(self).wf(),
        ensures
            final(self).wf(),
            matches_outcome(r, old(self)@, final(self)@, delete_outcome(old(self)@, views(tokens@))),
    {
        let ghost t = views(tokens@);
        if tokens.len() < 2 {
            return Err(error(ErrorKind::Grammar, lit("Missing object name.")));
        }
        let x = &tokens[1];
        proof {
            assert(t[1] == x@);
        }
        if !self.objects.contains_key(x.as_str()) {
            return Err(error(ErrorKind::Reference, cat3("Object ", x.as_str(), " does not exist.")));
        }
        let segs = split_text(x.as_str(), '.');
        proof {
            crate::text::lemma_split_nonempty(x@, '.');
            crate::text::lemma_split_first(x@, '.');
            assert(views(segs@)[0] == segs@[0]@);
        }
        if segs.len() == 1 {
            let path = self.object_type_of(x.as_str());
            self.remove_objects_under(x.as_str());
            self.remove_coders_under(x.as_str());
            let mut effs: Vec<Effect> = Vec::new();
            effs.push(Effect::RemoveProject { path });
            proof {
                assert(effect_views(effs@) =~= delete_outcome(old(self)@, t)->Ok_0.1);
            }
            return Ok(effs);
        }
        proof {
            assert(views(segs@)[1] == segs@[1]@);
        }
        let project = &segs[0];
        if !self.objects.contains_key(project.as_str()) {
            return Err(error(ErrorKind::Reference, cat3("Project ", project.as_str(), " does not exist.")));
        }
        let c = match self.objects.get(x.as_str()) {
            Some(o) => o.object_category,
            None => ObjectCategory::Connection,
        };
        let dir = self.object_type_of(project.as_str());
        let save = Effect::SaveRegistry { project: project.clone(), file: cat(dir.as_str(), "/.project/memory_map.json") };
        let ghost save_v = save@;
        let mut effs: Vec<Effect> = Vec::new();
        if c == ObjectCategory::ProcessorBlock {
            if self.generator_kind(project.as_str()) != 1 {
                return Err(error(ErrorKind::Reference, cat3("No library generator for ", project.as_str(), ".")));
            }
            self.remove_objects_under(x.as_str());
            self.remove_coders_under(x.as_str());
            proof {
                assert(!is_under(project@, x@));
            }
            let mut lib = self.take_library(project.as_str());
            lib.delete_object(&segs[1]);
            effs.push(save);
            effs.push(Effect::WriteSource { path: lib.get_file_path().clone(), content: lib.generate() });
            effs.push(Effect::SaveGenerator { name: project.clone(), file: cat(dir.as_str(), "/.project/lib_coder.json") });
            let ghost mid = self@;
            let ghost lv = GeneratorView::Library(lib@);
            self.put_generator(project.clone(), Generator::Library(lib));
            proof {
                assert(mid.coders.insert(project@, lv) =~= map_outside(old(self)@.coders, x@).insert(project@, lv));
                let o = delete_outcome(old(self)@, t);
                assert(o is Ok);
                assert(effect_views(effs@) =~= o->Ok_0.1);
                assert(self@ == o->Ok_0.0);
            }
            Ok(effs)
        } else if c == ObjectCategory::Task || c == ObjectCategory::ProcessorInstance {
            if self.generator_kind(project.as_str()) != 2 {
                return Err(error(ErrorKind::Reference, cat3("No application generator for ", project.as_str(), ".")));
            }
            self.remove_objects_under(x.as_str());
            let mut a = self.take_application(project.as_str());
            a.delete_object(x);
            effs.push(save);
            effs.push(Effect::WriteSource { path: a.get_file_path().clone(), content: a.generate() });
            effs.push(Effect::SaveGenerator { name: project.clone(), file: cat(dir.as_str(), "/.project/main_coder.json") });
            let ghost mid = self@;
            let ghost av = GeneratorView::Application(a@);
            self.put_generator(project.clone(), Generator::Application(a));
            proof {
                assert(mid.coders.insert(project@, av) =~= old(self)@.coders.insert(project@, av));
                let o = delete_outcome(old(self)@, t);
                assert(o is Ok);
                assert(effect_views(effs@) =~= o->Ok_0.1);
                assert(self@ == o->Ok_0.0);
            }
            Ok(effs)
        } else if (c == ObjectCategory::Input || c == ObjectCategory::Output || c == ObjectCategory::State
            || c == ObjectCategory::Static || c == ObjectCategory::Parameter) && segs.len() == 3 {
            proof {
                assert(views(segs@)[2] == segs@[2]@);
            }
            let parent = cat3(segs[0].as_str(), ".", segs[1].as_str());
            if self.generator_kind(parent.as_str()) != 3 {
                return Err(error(ErrorKind::Reference, cat3("No block generator for ", parent.as_str(), ".")));
            }
            self.remove_objects_under(x.as_str());
            let mut b = self.take_block(parent.as_str());
            b.delete_object(&segs[2]);
            let mut file = cat3(dir.as_str(), "/.project/", segs[1].as_str());
            file.append(".json");
            effs.push(save);
            effs.push(Effect::WriteSource { path: b.get_path().clone(), content: b.generate() });
            effs.push(Effect::SaveGenerator { name: parent.clone(), file });
            let ghost mid = self@;
            let ghost bv = GeneratorView::Block(b@);
            self.put_generator(parent, Generator::Block(b));
            proof {
                assert(mid.coders.insert(parent@, bv) =~= old(self)@.coders.insert(parent@, bv));
                let o = delete_outcome(old(self)@, t);
                assert(o is Ok);
                assert(effect_views(effs@) =~= o->Ok_0.1);
                assert(self@ == o->Ok_0.0);
            }
            Ok(effs)
        } else {
            self.remove_objects_under(x.as_str());
            effs.push(save);
            proof {
                let o = delete_outcome(old(self)@, t);
                assert(effect_views(effs@) =~= o->Ok_0.1);
            }
            Ok(effs)
        }
    }

    /// Runs one statement, given as its tokens.
    pub fn execute(&mut self, tokens: &Vec<String>) -> (r: Result<Vec<Effect>, CommandError>)
        requires
            old(self).wf(),
        ensures
            final(self).wf(),
            matches_outcome(r, old(self)@, final(self)@, statement_outcome(old(self)@, views(tokens@))),
    {
        let ghost t = views(tokens@);
        proof {
            reveal(statement_outcome);
        }
        if tokens.len() == 0 {
            return Err(error(ErrorKind::Grammar, lit("Invalid command format.")));
        }
        let verb = tokens[0].as_str();
        proof {
            assert(t[0] == verb@);
        }
        if same_text(verb, "create") {
            self.parse_create(tokens)
        } else if same_text(verb, "connect") {
            self.parse_connect(tokens)
        } else if same_text(verb, "set") {
            self.parse_set(tokens)
        } else if same_text(verb, "delete") {
            self.parse_delete(tokens)
        } else if same_text(verb, "code") {
            self.parse_code(tokens)
        } else if same_text(verb, "build") {
            self.parse_build(tokens)
        } else if same_text(verb, "import") {
            self.parse_import(tokens)
        } else {
            Err(error(ErrorKind::Grammar, cat3("Unknown command: ", verb, ".")))
        }
    }

    /// Runs the statements of a command in order, stopping at the first
    /// that fails; the statements before it stay applied.
    pub fn parse_command(&mut self, command_string: String) -> (r: Result<Vec<Effect>, BatchError>)
        requires
            old(self).wf(),
        ensures
            final(self).wf(),
            ({
                let (m, e, err) = batch_outcome(old(self)@, command_statements(command_string@));
                &&& final(self)@ == m
                &&& match r {
                    Ok(effs) => err is None && effect_views(effs@) == e,
                    Err(b) => err == Some(b.error.kind) && effect_views(b.applied@) == e,
                }
            }),
    {
        let stmts = statements(command_string.as_str());
        let ghost ss = token_views(stmts@);
        let mut effs: Vec<Effect> = Vec::new();
        let mut i: usize = 0;
        while i < stmts.len()
            invariant
                self.wf(),
                0 <= i <= stmts@.len(),
                ss == token_views(stmts@),
                ss == command_statements(command_string@),
                ({
                    let (m, e, err) = batch_outcome(old(self)@, ss.take(i as int));
                    m == self@ && e == effect_views(effs@) && err is None
                }),
            decreases stmts@.len() - i,
        {
            proof {
                assert(ss.take(i + 1).drop_last() =~= ss.take(i as int));
                assert(ss[i as int] == views(stmts@[i as int]@));
            }
            let ghost pre = self@;
            match self.execute(&stmts[i]) {
                Ok(more) => {
                    let ghost before = effs@;
                    let ghost added = more@;
                    let mut more = more;
                    effs.append(&mut more);
                    proof {
                        assert(effs@ =~= before + added);
                        assert(effect_views(effs@) =~= effect_views(before) + effect_views(added));
                    }
                },
                Err(e) => {
                    proof {
                        let k = i + 1;
                        assert(ss.take(k).drop_last() =~= ss.take(i as int));
                        assert(ss.take(k).last() == ss[i as int]);
                        assert(self@ == pre);
                        assert(statement_outcome(pre, ss[i as int]) == Err::<(ParserModel, Seq<EffectView>), ErrorKind>(e.kind));
                        assert(batch_outcome(old(self)@, ss.take(k)) == (self@, effect_views(effs@), Some(e.kind)));
                        lemma_batch_stops(old(self)@, ss, k);
                        assert(ss == command_statements(command_string@));
                        assert(batch_outcome(old(self)@, command_statements(command_string@)) == (
                        self@, effect_views(effs@), Some(e.kind)));
                    }
                    return Err(BatchError { applied: effs, error: e });
                },
            }
            i = i + 1;
        }
        proof {
            assert(ss.take(ss.len() as int) =~= ss);
        }
        Ok(effs)
    }

    /// The generator `name`, if any.
    pub fn generator(&self, name: &str) -> (r: Option<&Generator>)
        requires
            self.wf(),
        ensures
            match r {
                Some(g) => self@.coders.contains_key(name@) && self@.coders[name@] == g@,
                None => !self@.coders.contains_key(name@),
            },
    {
        self.coders.get(name)
    }

    /// The entity record `name`, if any.
    pub fn object(&self, name: &str) -> (r: Option<&MemoryObject>)
        requires
            self.wf(),
        ensures
            match r {
                Some(o) => self@.objects.contains_key(name@) && self@.objects[name@] == o@,
                None => !self@.objects.contains_key(name@),
            },
    {
        self.objects.get(name)
    }

    /// The entity records of `project`: the root and everything beneath it.
    pub fn project_objects(&self, project: &str) -> (r: Vec<(String, MemoryObject)>)
        requires
            self.wf(),
        ensures
            unique_keys(entry_views(r@)),
            crate::strmap::to_map(entry_views(r@)) == map_inside(self@.objects, project@),
    {
        let ghost ps = self.objects.pairs();
        let mut out: Vec<(String, MemoryObject)> = Vec::new();
        let mut i: usize = 0;
        proof {
            assert(crate::strmap::to_map(entry_views(out@)) =~= map_inside(crate::strmap::to_map(ps.take(0)), project@));
        }
        while i < self.objects.len()
            invariant
                self.wf(),
                ps == self.objects.pairs(),
                0 <= i <= ps.len(),
                unique_keys(ps),
                unique_keys(entry_views(out@)),
                crate::strmap::to_map(entry_views(out@)) == map_inside(crate::strmap::to_map(ps.take(i as int)), project@),
                forall|j: int| 0 <= j < entry_views(out@).len() ==> exists|k: int|
                    0 <= k < i && #[trigger] entry_views(out@)[j].0 == ps[k].0,
            decreases ps.len() - i,
        {
            let key = self.objects.key_at(i);
            let ghost before = entry_views(out@);
            proof {
                assert(ps.take(i + 1).drop_last() =~= ps.take(i as int));
            }
            if crate::naming::under(key.as_str(), project) {
                out.push((key.clone(), self.objects.value_at(i).duplicate()));
                proof {
                    assert(entry_views(out@) =~= before.push(ps[i as int]));
                    assert(entry_views(out@).drop_last() =~= before);
                    assert forall|a: int, b: int| 0 <= a < b < entry_views(out@).len() implies
                        entry_views(out@)[a].0 != entry_views(out@)[b].0 by {
                        if b == entry_views(out@).len() - 1 {
                            let k = choose|k: int| 0 <= k < i && #[trigger] before[a].0 == ps[k].0;
                            assert(ps[k].0 != ps[i as int].0);
                        } else {
                            assert(before[a].0 != before[b].0);
                        }
                    }
                    assert forall|j: int| 0 <= j < entry_views(out@).len() implies exists|k: int|
                        0 <= k < i + 1 && #[trigger] entry_views(out@)[j].0 == ps[k].0 by {
                        if j == entry_views(out@).len() - 1 {
                            assert(entry_views(out@)[j].0 == ps[i as int].0);
                        } else {
                            let k = choose|k: int| 0 <= k < i && #[trigger] before[j].0 == ps[k].0;
                            assert(entry_views(out@)[j].0 == ps[k].0);
                        }
                    }
                    assert(crate::strmap::to_map(entry_views(out@)) =~= map_inside(
                        crate::strmap::to_map(ps.take(i + 1)),
                        project@,
                    ));
                }
            } else {
                proof {
                    assert(crate::strmap::to_map(entry_views(out@)) =~= map_inside(
                        crate::strmap::to_map(ps.take(i + 1)),
                        project@,
                    ));
                    assert forall|j: int| 0 <= j < entry_views(out@).len() implies exists|k: int|
                        0 <= k < i + 1 && #[trigger] entry_views(out@)[j].0 == ps[k].0 by {
                        let k = choose|k: int| 0 <= k < i && #[trigger] before[j].0 == ps[k].0;
                        assert(entry_views(out@)[j].0 == ps[k].0);
                    }
                }
            }
            i = i + 1;
        }
        proof {
            assert(ps.take(ps.len() as int) =~= ps);
        }
        out
    }

    /// Whether some entity is `x` or lies beneath it.
    fn any_under(&self, x: &str) -> (r: bool)
        requires
            self.wf(),
        ensures
            r == exists|k: Seq<char>| #[trigger] self@.objects.contains_key(k) && is_under(k, x@),
    {
        let ghost ops = self.objects.pairs();
        let mut k: usize = 0;
        while k < self.objects.len()
            invariant
                self.wf(),
                ops == self.objects.pairs(),
                0 <= k <= ops.len(),
                forall|q: int| 0 <= q < k ==> !is_under(#[trigger] ops[q].0, x@),
            decreases ops.len() - k,
        {
            if crate::naming::under(self.objects.key_at(k).as_str(), x) {
                proof {
                    lemma_to_map_value(ops, k as int);
                    assert(self@.objects.contains_key(ops[k as int].0));
                }
                return true;
            }
            k = k + 1;
        }
        proof {
            assert forall|key: Seq<char>| #[trigger] self@.objects.contains_key(key) implies !is_under(key, x@) by {
                lemma_to_map_domain(ops, key);
                let q = choose|q: int| 0 <= q < ops.len() && ops[q].0 == key;
            }
        }
        false
    }

    /// Loads a project snapshot: its entity records, its generator, and the
    /// generators of its blocks.
    pub fn import_project(
        &mut self,
        objects: Vec<(String, MemoryObject)>,
        generator: Generator,
        blocks: Vec<ProcessorCoder>,
    ) -> (r: Result<(), CommandError>)
        requires
            old(self).wf(),
        ensures
            final(self).wf(),
            match import_project_outcome(
                old(self)@,
                entry_views(objects@),
                generator@,
                block_views(blocks@),
            ) {
                Ok(m) => r is Ok && final(self)@ == m,
                Err(k) => r is Err && r->Err_0.kind == k && final(self)@ == old(self)@,
            },
    {
        let ghost s = entry_views(objects@);
        let ghost bs = block_views(blocks@);
        let snapshot = match StrMap::from_entries(objects) {
            None => return Err(error(ErrorKind::Grammar, lit("The snapshot repeats an entity."))),
            Some(m) => m,
        };
        if !generator.is_well_formed() {
            return Err(error(ErrorKind::Grammar, lit("The snapshot's generator is malformed.")));
        }
        if !blocks_well_formed(&blocks) {
            return Err(error(ErrorKind::Grammar, lit("A block generator of the snapshot is malformed.")));
        }
        let ri = match find_root(&snapshot) {
            None => return Err(error(ErrorKind::Grammar, lit("The snapshot has no project root."))),
            Some(i) => i,
        };
        let root = snapshot.key_at(ri).clone();
        let category = snapshot.value_at(ri).object_category;
        if !all_under(&snapshot, root.as_str()) {
            proof {
                let c = root_index(s);
                assert(is_root_key(s[c].0));
                if s[c].0 != root@ {
                    crate::text::lemma_single_segment(root@, '.');
                    if is_under(root@, s[c].0) {
                        assert(root@[s[c].0.len() as int] == '.');
                    }
                    assert(!is_under(s[ri as int].0, s[c].0));
                }
            }
            return Err(error(ErrorKind::Shape, lit("The snapshot holds more than one project.")));
        }
        proof {
            let c = root_index(s);
            assert(is_root_key(s[c].0));
            assert(is_under(s[c].0, root@));
            crate::text::lemma_single_segment(s[c].0, '.');
            if s[c].0 != root@ {
                assert(s[c].0[root@.len() as int] == '.');
            }
            assert(c == ri);
        }
        if self.any_under(root.as_str()) {
            return Err(error(ErrorKind::Conflict, cat3("Project ", root.as_str(), " is already loaded.")));
        }
        let kind = match &generator {
            Generator::Library(_) => 1u8,
            Generator::Application(_) => 2u8,
            Generator::Block(_) => 3u8,
        };
        if !((category == ObjectCategory::Library && kind == 1) || (category == ObjectCategory::Application && kind == 2)) {
            return Err(error(ErrorKind::Reference, lit("The snapshot's generator does not match its project.")));
        }
        let ghost m0 = self@;
        let mut entries = snapshot.into_entries();
        let ghost total = entries@.len();
        while entries.len() > 0
            invariant
                self.wf(),
                total == s.len(),
                entries@.len() <= total,
                entry_views(entries@) =~= s.skip(total - entries@.len()),
                self@.coders == m0.coders,
                self@.objects == m0.objects.union_prefer_right(crate::strmap::to_map(s.take(total - entries@.len()))),
            decreases entries@.len(),
        {
            let ghost q = total - entries@.len();
            let ghost eb = entries@;
            let (key, o) = entries.remove(0);
            proof {
                assert(s.skip(q)[0] == (key@, o@));
                assert forall|x: int| 0 <= x < entries@.len() implies #[trigger] entry_views(entries@)[x]
                    == s.skip(q + 1)[x] by {
                    assert(entries@[x] == eb[x + 1]);
                    assert(entry_views(eb)[x + 1] == s.skip(q)[x + 1]);
                }
                assert(s.take(q + 1) =~= s.take(q).push(s[q]));
                lemma_union_push(m0.objects, s.take(q), s[q]);
            }
            self.put_object(key, o);
        }
        proof {
            assert(s.take(total as int) =~= s);
        }
        self.put_generator(root.clone(), generator);
        let ghost m1 = self@;
        let mut rest = blocks;
        let ghost nb = bs.len();
        let ghost be = block_entries(root@, bs);
        while rest.len() > 0
            invariant
                self.wf(),
                nb == bs.len(),
                rest@.len() <= nb,
                block_views(rest@) =~= bs.skip(nb - rest@.len()),
                forall|x: int| 0 <= x < bs.len() ==> block_model_wf(#[trigger] bs[x]),
                be == block_entries(root@, bs),
                self@.objects == m1.objects,
                self@.coders == m1.coders.union_prefer_right(crate::strmap::to_map(be.take(nb - rest@.len()))),
            decreases rest@.len(),
        {
            let ghost q = nb - rest@.len();
            let ghost rb = rest@;
            let b = rest.remove(0);
            proof {
                assert(bs.skip(q)[0] == b@);
                assert forall|x: int| 0 <= x < rest@.len() implies #[trigger] block_views(rest@)[x]
                    == bs.skip(q + 1)[x] by {
                    assert(rest@[x] == rb[x + 1]);
                    assert(block_views(rb)[x + 1] == bs.skip(q)[x + 1]);
                }
                assert(be.take(q + 1) =~= be.take(q).push(be[q]));
                lemma_union_push(m1.coders, be.take(q), be[q]);
                assert(block_model_wf(bs[q]));
            }
            let name = cat3(root.as_str(), ".", b.get_name().as_str());
            self.put_generator(name, Generator::Block(b));
        }
        proof {
            assert(be.take(nb as int) =~= be);
            let o = import_project_outcome(old(self)@, s, generator@, bs);
            assert(o is Ok);
        }
        Ok(())
    }

    /// `create <kind> ...`.
    fn parse_create(&mut self, tokens: &Vec<String>) -> (r: Result<Vec<Effect>, CommandError>)
        requires
            old(self).wf(),
        ensures
            final(self).wf(),
            matches_outcome(r, old(self)@, final(self)@, create_outcome(old(self)@, views(tokens@))),
    {
        let ghost t = views(tokens@);
        if tokens.len() < 2 {
            return Err(error(ErrorKind::Grammar, lit("Missing object kind.")));
        }
        let kind = tokens[1].as_str();
        proof {
            assert(t[1] == kind@);
        }
        if same_text(kind, "library") {
            self.create_project(tokens, true)
        } else if same_text(kind, "application") {
            self.create_project(tokens, false)
        } else if same_text(kind, "processor_block") {
            self.create_stream_proc_block(tokens)
        } else if same_text(kind, "input") {
            self.create_typed(tokens, ObjectCategory::Input)
        } else if same_text(kind, "output") {
            self.create_typed(tokens, ObjectCategory::Output)
        } else if same_text(kind, "state") {
            self.create_typed(tokens, ObjectCategory::State)
        } else if same_text(kind, "static") {
            self.create_settable(tokens, ObjectCategory::Static)
        } else if same_text(kind, "parameter") {
            self.create_settable(tokens, ObjectCategory::Parameter)
        } else if same_text(kind, "task") {
            self.create_task(tokens)
        } else if same_text(kind, "processor_instance") {
            self.create_stream_proc(tokens)
        } else {
            Err(error(ErrorKind::Grammar, cat3("Unknown object kind: ", kind, ".")))
        }
    }

    /// `create processor_block <lib>.<block>`.
    fn create_stream_proc_block(&mut self, tokens: &Vec<String>) -> (r: Result<
        Vec<Effect>,
        CommandError,
    >)
        requires
            old(self).wf(),
        ensures
            final(self).wf(),
            matches_outcome(r, old(self)@, final(self)@, create_block_outcome(old(self)@, views(tokens@))),
    {
        let ghost t = views(tokens@);
        if tokens.len() < 3 {
            return Err(error(ErrorKind::Grammar, lit("Missing processor block name.")));
        }
        let name = &tokens[2];
        proof {
            assert(t[2] == name@);
        }
        let segs = split_text(name.as_str(), '.');
        if segs.len() != 2 {
            return Err(error(ErrorKind::Shape, lit("A processor block name has the form <library>.<block>.")));
        }
        proof {
            assert(views(segs@)[0] == segs@[0]@);
            assert(views(segs@)[1] == segs@[1]@);
        }
        let lib_name = &segs[0];
        let block_name = &segs[1];
        match self.check_var(lib_name.as_str(), ObjectCategory::Library) {
            Err(e) => return Err(e),
            Ok(()) => {},
        }
        if self.objects.contains_key(name.as_str()) {
            return Err(error(ErrorKind::Conflict, cat3("Object ", name.as_str(), " already exists.")));
        }
        if self.generator_kind(lib_name.as_str()) != 1 {
            return Err(error(ErrorKind::Reference, cat3("No library generator for ", lib_name.as_str(), ".")));
        }
        let dir = self.object_type_of(lib_name.as_str());
        let mut lib = self.take_library(lib_name.as_str());
        let mut path = cat3(dir.as_str(), "/src/", to_snake_case(block_name.as_str()).as_str());
        path.append(".rs");
        let block = ProcessorCoder::new(path, block_name.clone());
        lib.add_module(block_name.clone());
        let mut block_file = cat3(dir.as_str(), "/.project/", block_name.as_str());
        block_file.append(".json");
        let mut effs: Vec<Effect> = Vec::new();
        effs.push(Effect::WriteSource { path: block.get_path().clone(), content: block.generate() });
        effs.push(Effect::SaveGenerator { name: name.clone(), file: block_file });
        effs.push(Effect::SaveRegistry { project: lib_name.clone(), file: cat(dir.as_str(), "/.project/memory_map.json") });
        effs.push(Effect::WriteSource { path: lib.get_file_path().clone(), content: lib.generate() });
        effs.push(Effect::SaveGenerator { name: lib_name.clone(), file: cat(dir.as_str(), "/.project/lib_coder.json") });
        let obj = MemoryObject {
            parent: lib_name.clone(),
            object_category: ObjectCategory::ProcessorBlock,
            object_type: String::new(),
            object_value: String::new(),
            object_limits: String::new(),
        };
        self.put_object(name.clone(), obj);
        self.put_generator(lib_name.clone(), Generator::Library(lib));
        self.put_generator(name.clone(), Generator::Block(block));
        proof {
            let o = create_block_outcome(old(self)@, t);
            assert(o is Ok);
            assert(effect_views(effs@) =~= o->Ok_0.1);
            crate::text::lemma_split_nonempty(name@, '.');
            assert(name@ != lib_name@) by {
                if name@ == lib_name@ {
                    assert(split_on(lib_name@, '.').len() == 2);
                }
            }
            assert(self@.coders =~= o->Ok_0.0.coders);
            assert(self@ == o->Ok_0.0);
        }
        Ok(effs)
    }

    /// `create library|application <name> path <dir> metadata <text>`.
    fn create_project(&mut self, tokens: &Vec<String>, library: bool) -> (r: Result<
        Vec<Effect>,
        CommandError,
    >)
        requires
            old(self).wf(),
        ensures
            final(self).wf(),
            matches_outcome(
                r,
                old(self)@,
                final(self)@,
                create_project_outcome(old(self)@, views(tokens@), library),
            ),
    {
        let ghost t = views(tokens@);
        proof {
            reveal_strlit("path");
            reveal_strlit("metadata");
        }
        if tokens.len() < 3 {
            return Err(error(ErrorKind::Grammar, lit("Missing project name.")));
        }
        let name = &tokens[2];
        proof {
            assert(t[2] == name@);
        }
        if split_text(name.as_str(), '.').len() != 1 {
            return Err(error(ErrorKind::Shape, cat3("Project name ", name.as_str(), " must be a single segment.")));
        }
        if self.objects.contains_key(name.as_str()) {
            return Err(error(ErrorKind::Conflict, cat3("Project ", name.as_str(), " already exists.")));
        }
        if tokens.len() < 5 || !same_text(tokens[3].as_str(), "path") {
            return Err(error(ErrorKind::Grammar, lit("Expected path keyword and directory.")));
        }
        if tokens.len() < 7 || !same_text(tokens[5].as_str(), "metadata") {
            return Err(error(ErrorKind::Grammar, lit("Expected metadata keyword and value.")));
        }
        proof {
            assert(t[3] == tokens@[3]@);
            assert(t[4] == tokens@[4]@);
            assert(t[5] == tokens@[5]@);
            assert(t[6] == tokens@[6]@);
        }
        let dir = cat3(tokens[4].as_str(), "/", name.as_str());
        let metadata = &tokens[6];
        let obj = MemoryObject {
            parent: String::new(),
            object_category: if library { ObjectCategory::Library } else { ObjectCategory::Application },
            object_type: dir.clone(),
            object_value: metadata.clone(),
            object_limits: String::new(),
        };
        self.objects.insert(name.clone(), obj);
        let mut effs: Vec<Effect> = Vec::new();
        effs.push(Effect::Scaffold { path: dir.clone(), library });
        effs.push(Effect::DeclareDependencies { path: dir.clone() });
        effs.push(Effect::SaveRegistry { project: name.clone(), file: cat(dir.as_str(), "/.project/memory_map.json") });
        if library {
            let mut g = LibCoder::new(dir.clone());
            g.set_metadata(name.clone(), metadata.clone());
            effs.push(Effect::WriteSource { path: g.get_file_path().clone(), content: g.generate() });
            effs.push(Effect::SaveGenerator { name: name.clone(), file: cat(dir.as_str(), "/.project/lib_coder.json") });
            self.coders.insert(name.clone(), Generator::Library(g));
        } else {
            let g = MainCoder::new(dir.clone());
            effs.push(Effect::WriteSource { path: g.get_file_path().clone(), content: g.generate() });
            effs.push(Effect::SaveGenerator { name: name.clone(), file: cat(dir.as_str(), "/.project/main_coder.json") });
            self.coders.insert(name.clone(), Generator::Application(g));
        }
        proof {
            let o = create_project_outcome(old(self)@, t, library);
            assert(o is Ok);
            assert(effect_views(effs@) =~= o->Ok_0.1);
            assert(self@ == o->Ok_0.0);
            assert forall|k: Seq<char>| #[trigger] self@.coders.contains_key(k) implies generator_wf(
                self@.coders[k],
            ) by {
                if k != name@ {
                    assert(old(self)@.coders.contains_key(k));
                }
            }
        }
        Ok(effs)
    }
}

} // verus!
