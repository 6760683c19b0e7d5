//! The library generator: the module list and descriptor of one library,
//! rendered as the library's root source file.

use vstd::prelude::*;
use crate::naming::{snake_case, to_snake_case};
use crate::text::{join_lines, join_lines_of, views, push_line, cat, cat3, decimal, decimal_text, same_text};

verus! {

/// A release version.
#[derive(Clone, Copy, Debug, PartialEq, Eq, Structural)]
pub struct Version {
    pub major: u64,
    pub minor: u64,
    pub build: u64,
}

/// The descriptor that a library exports about itself.
pub struct ModuleStruct {
    pub name: String,
    pub description: String,
    pub authors: String,
    pub release_date: String,
    pub version: Version,
    pub dependencies: Vec<String>,
    pub provides: Vec<String>,
}

/// What a descriptor holds.
pub struct DescriptorView {
    pub name: Seq<char>,
    pub description: Seq<char>,
    pub authors: Seq<char>,
    pub release_date: Seq<char>,
    pub version: Version,
    pub dependencies: Seq<Seq<char>>,
    pub provides: Seq<Seq<char>>,
}

impl View for ModuleStruct {
    type V = DescriptorView;

    open spec fn view(&self) -> DescriptorView {
        DescriptorView {
            name: self.name@,
            description: self.description@,
            authors: self.authors@,
            release_date: self.release_date@,
            version: self.version,
            dependencies: views(self.dependencies@),
            provides: views(self.provides@),
        }
    }
}

/// What a library generator holds.
pub struct LibraryModel {
    pub modules: Seq<Seq<char>>,
    pub descriptor: DescriptorView,
    pub crate_path: Seq<char>,
    pub file_path: Seq<char>,
}

/// The generator of one library's root source file.
pub struct LibCoder {
    modules: Vec<String>,
    module_structs: ModuleStruct,
    crate_path: String,
    file_path: String,
}

impl View for LibCoder {
    type V = LibraryModel;

    closed spec fn view(&self) -> LibraryModel {
        LibraryModel {
            modules: views(self.modules@),
            descriptor: self.module_structs@,
            crate_path: self.crate_path@,
            file_path: self.file_path@,
        }
    }
}

/// No module is listed twice.
pub open spec fn library_model_wf(m: LibraryModel) -> bool {
    forall|i: int, j: int|
        0 <= i < j < m.modules.len() ==> m.modules[i] != m.modules[j]
}

/// The root source file of the library at `path`.
pub open spec fn library_file(path: Seq<char>) -> Seq<char> {
    path + "/src/lib.rs"@
}

/// The module list after registering `name`: unchanged where it is
/// already listed, with `name` appended otherwise.
pub open spec fn modules_add(s: Seq<Seq<char>>, name: Seq<char>) -> Seq<Seq<char>> {
    if s.contains(name) {
        s
    } else {
        s.push(name)
    }
}

/// The module list without `name`.
pub open spec fn modules_remove(s: Seq<Seq<char>>, name: Seq<char>) -> Seq<Seq<char>> {
    if s.contains(name) {
        s.remove(s.index_of(name))
    } else {
        s
    }
}

/// A declaration line per module, in order.
pub open spec fn module_lines(s: Seq<Seq<char>>) -> Seq<Seq<char>> {
    s.map_values(|m: Seq<char>| "pub mod "@ + snake_case(m) + ";"@)
}

/// A text field of the descriptor as a null-terminated byte string.
pub open spec fn c_text_line(field: Seq<char>, value: Seq<char>) -> Seq<char> {
    "    "@ + field + ": b\""@ + value + "\\0\".as_ptr() as *const c_char,"@
}

/// An element of a descriptor array.
pub open spec fn c_item_line(value: Seq<char>) -> Seq<char> {
    "        b\""@ + value + "\\0\".as_ptr() as *const c_char,"@
}

/// A name array of the descriptor and its length: a null pointer and zero
/// for an empty array.
pub open spec fn c_array_lines(field: Seq<char>, count: Seq<char>, items: Seq<Seq<char>>) -> Seq<
    Seq<char>,
> {
    if items.len() == 0 {
        seq!["    "@ + field + ": std::ptr::null(),"@, "    "@ + count + ": 0,"@]
    } else {
        seq!["    "@ + field + ": ["@] + items.map_values(|d: Seq<char>| c_item_line(d)) + seq![
            "    ].as_ptr(),"@,
            "    "@ + count + ": "@ + decimal(items.len()) + ","@,
        ]
    }
}

/// The version line of the descriptor.
pub open spec fn version_line(v: Version) -> Seq<char> {
    "    version: Version { major: "@ + decimal(v.major as nat) + ", minor: "@ + decimal(
        v.minor as nat,
    ) + ", build: "@ + decimal(v.build as nat) + " },"@
}

pub open spec fn descriptor_head_lines() -> Seq<Seq<char>> {
    seq![
        "use std::ffi::c_char;"@,
        "use data_model::modules::{Version, ModuleStructFFI};"@,
        "use processor_engine::stream_processor::StreamProcessor;"@,
        "use processor_engine::ffi::{TraitObjectRepr, export_stream_processor, get_error_return};"@,
        "#[unsafe(no_mangle)]"@,
        "pub static MODULE: ModuleStructFFI = ModuleStructFFI {"@,
    ]
}

/// The exported descriptor of the library.
pub open spec fn descriptor_lines(d: DescriptorView) -> Seq<Seq<char>> {
    descriptor_head_lines() + seq![
        c_text_line("name"@, d.name),
        c_text_line("description"@, d.description),
        c_text_line("authors"@, d.authors),
        c_text_line("release_date"@, d.release_date),
        version_line(d.version),
    ] + c_array_lines("dependencies"@, "dependency_number"@, d.dependencies) + c_array_lines(
        "provides"@,
        "provides_lengths"@,
        d.provides,
    ) + seq!["};"@]
}

pub open spec fn dispatch_head_lines() -> Seq<Seq<char>> {
    seq![
        "#[unsafe(no_mangle)]"@,
        "pub extern \"C\" fn get_processor_modules(proc_block: *const u8,"@,
        "    proc_block_len: usize,"@,
        "    block_name: *const u8,"@,
        "    block_name_len: usize) -> TraitObjectRepr {"@,
        "    let proc_block_str = unsafe {"@,
        "        std::str::from_utf8(std::slice::from_raw_parts(proc_block, proc_block_len)).unwrap()"@,
        "    };"@,
        "    let block_name_str = unsafe {"@,
        "        std::str::from_utf8(std::slice::from_raw_parts(block_name, block_name_len)).unwrap()"@,
        "    };"@,
        "    let proc: Box<dyn StreamProcessor>;"@,
        "    match proc_block_str {"@,
    ]
}

/// The match arm that builds module `m`.
pub open spec fn dispatch_arm(m: Seq<char>) -> Seq<Seq<char>> {
    seq![
        "        \""@ + m + "\" => {"@,
        "            proc = Box::new("@ + snake_case(m) + "::"@ + m + "::new(block_name_str));"@,
        "            export_stream_processor(proc)"@,
        "        }"@,
    ]
}

/// The match arms of every module, in order.
pub open spec fn dispatch_arms(s: Seq<Seq<char>>) -> Seq<Seq<char>>
    decreases s.len(),
{
    if s.len() == 0 {
        Seq::empty()
    } else {
        dispatch_arms(s.drop_last()) + dispatch_arm(s.last())
    }
}

pub open spec fn dispatch_tail_lines() -> Seq<Seq<char>> {
    seq![
        "        _ => {"@,
        "            eprintln!(\"Processor block {} not found\", proc_block_str);"@,
        "            get_error_return(1)"@,
        "        }"@,
        "    }"@,
        "}"@,
    ]
}

/// The whole root source file of a library: the module declarations, the
/// descriptor, and the exported function that builds a block by name.
pub open spec fn render_library(m: LibraryModel) -> Seq<char> {
    join_lines(
        seq![
            join_lines(module_lines(m.modules)),
            join_lines(descriptor_lines(m.descriptor)),
            join_lines(dispatch_head_lines()),
            join_lines(dispatch_arms(m.modules)),
            join_lines(dispatch_tail_lines()),
        ],
    )
}

/// The position of `name` in `v`, if listed.
fn find_text(v: &Vec<String>, name: &str) -> (r: Option<usize>)
    ensures
        match r {
            Some(i) => i < v@.len() && views(v@)[i as int] == name@,
            None => !views(v@).contains(name@),
        },
{
    let mut i: usize = 0;
    while i < v.len()
        invariant
            0 <= i <= v@.len(),
            forall|j: int| 0 <= j < i ==> views(v@)[j] != name@,
        decreases v@.len() - i,
    {
        if same_text(v[i].as_str(), name) {
            return Some(i);
        }
        i = i + 1;
    }
    None
}

fn empty_descriptor() -> (r: ModuleStruct)
    ensures
        r@ == (DescriptorView {
            name: Seq::empty(),
            description: Seq::empty(),
            authors: Seq::empty(),
            release_date: Seq::empty(),
            version: Version { major: 0, minor: 0, build: 0 },
            dependencies: Seq::empty(),
            provides: Seq::empty(),
        }),
{
    let r = ModuleStruct {
        name: String::new(),
        description: String::new(),
        authors: String::new(),
        release_date: String::new(),
        version: Version { major: 0, minor: 0, build: 0 },
        dependencies: Vec::new(),
        provides: Vec::new(),
    };
    proof {
        assert(views(r.dependencies@) =~= Seq::<Seq<char>>::empty());
        assert(views(r.provides@) =~= Seq::<Seq<char>>::empty());
    }
    r
}

fn push_c_array(lines: &mut Vec<String>, field: &str, count: &str, items: &Vec<String>)
    ensures
        views(final(lines)@) == views(old(lines)@) + c_array_lines(field@, count@, views(items@)),
{
    let ghost start = views(lines@);
    if items.len() == 0 {
        push_line(lines, cat3("    ", field, ": std::ptr::null(),"));
        push_line(lines, cat3("    ", count, ": 0,"));
        proof {
            assert(views(lines@) =~= start + c_array_lines(field@, count@, views(items@)));
        }
    } else {
        push_line(lines, cat3("    ", field, ": ["));
        let ghost head = views(lines@);
        let mut i: usize = 0;
        while i < items.len()
            invariant
                0 <= i <= items@.len(),
                views(lines@) == head + views(items@).take(i as int).map_values(
                    |d: Seq<char>| c_item_line(d),
                ),
            decreases items@.len() - i,
        {
            push_line(lines, cat3("        b\"", items[i].as_str(), "\\0\".as_ptr() as *const c_char,"));
            proof {
                assert(views(items@).take(i + 1).map_values(|d: Seq<char>| c_item_line(d))
                    =~= views(items@).take(i as int).map_values(|d: Seq<char>| c_item_line(d)).push(
                    c_item_line(views(items@)[i as int])));
            }
            i = i + 1;
        }
        let ghost body = views(lines@);
        push_line(lines, String::from_str("    ].as_ptr(),"));
        let mut l = cat3("    ", count, ": ");
        l.append(decimal_text(items.len() as u64).as_str());
        l.append(",");
        push_line(lines, l);
        proof {
            assert(views(items@).take(items@.len() as int) =~= views(items@));
            assert(views(lines@) =~= start + c_array_lines(field@, count@, views(items@)));
        }
    }
}

impl LibCoder {
    pub open spec fn wf(&self) -> bool {
        library_model_wf(self@)
    }

    /// A library generator for the library at `path`, with no modules and
    /// an empty descriptor.
    pub fn new(path: String) -> (r: Self)
        ensures
            r.wf(),
            r@ == (LibraryModel {
                modules: Seq::empty(),
                descriptor: DescriptorView {
                    name: Seq::empty(),
                    description: Seq::empty(),
                    authors: Seq::empty(),
                    release_date: Seq::empty(),
                    version: Version { major: 0, minor: 0, build: 0 },
                    dependencies: Seq::empty(),
                    provides: Seq::empty(),
                },
                crate_path: path@,
                file_path: library_file(path@),
            }),
    {
        let file_path = cat(path.as_str(), "/src/lib.rs");
        let r = LibCoder {
            modules: Vec::new(),
            module_structs: empty_descriptor(),
            crate_path: path,
            file_path,
        };
        proof {
            assert(views(r.modules@) =~= Seq::<Seq<char>>::empty());
        }
        r
    }

    /// A library generator from its parts, if no module is listed twice.
    pub fn from_parts(
        modules: Vec<String>,
        module_structs: ModuleStruct,
        crate_path: String,
        file_path: String,
    ) -> (r: Option<Self>)
        ensures
            match r {
                Some(g) => g.wf() && g@ == (LibraryModel {
                    modules: views(modules@),
                    descriptor: module_structs@,
                    crate_path: crate_path@,
                    file_path: file_path@,
                }),
                None => !library_model_wf(
                    LibraryModel {
                        modules: views(modules@),
                        descriptor: module_structs@,
                        crate_path: crate_path@,
                        file_path: file_path@,
                    },
                ),
            },
    {
        let g = LibCoder { modules, module_structs, crate_path, file_path };
        if g.is_well_formed() {
            Some(g)
        } else {
            None
        }
    }

    /// Whether no module is listed twice.
    pub fn is_well_formed(&self) -> (r: bool)
        ensures
            r == self.wf(),
    {
        let n = self.modules.len();
        let mut i: usize = 0;
        while i < n
            invariant
                n == self@.modules.len(),
                0 <= i <= n,
                forall|a: int, b: int| 0 <= a < b < n && a < i ==> self@.modules[a] != self@.modules[b],
            decreases n - i,
        {
            let mut j: usize = i + 1;
            while j < n
                invariant
                    n == self@.modules.len(),
                    0 <= i < n,
                    i + 1 <= j <= n,
                    forall|a: int, b: int| 0 <= a < b < n && a < i ==> self@.modules[a] != self@.modules[b],
                    forall|b: int| i < b < j ==> self@.modules[i as int] != self@.modules[b],
                decreases n - j,
            {
                if same_text(self.modules[i].as_str(), self.modules[j].as_str()) {
                    proof {
                        assert(self@.modules[i as int] == self@.modules[j as int]);
                    }
                    return false;
                }
                j = j + 1;
            }
            i = i + 1;
        }
        true
    }

    /// Sets the name and description of the descriptor.
    pub fn set_metadata(&mut self, name: String, description: String)
        requires
            old(self).wf(),
        ensures
            final(self).wf(),
            final(self)@ == (LibraryModel {
                descriptor: DescriptorView {
                    name: name@,
                    description: description@,
                    ..old(self)@.descriptor
                },
                ..old(self)@
            }),
    {
        self.module_structs.name = name;
        self.module_structs.description = description;
    }

    /// The directory of the library.
    pub fn get_path(&self) -> (r: &String)
        ensures
            r@ == self@.crate_path,
    {
        &self.crate_path
    }

    /// The root source file of the library.
    pub fn get_file_path(&self) -> (r: &String)
        ensures
            r@ == self@.file_path,
    {
        &self.file_path
    }

    /// The registered modules, in order of registration.
    pub fn get_modules(&self) -> (r: &Vec<String>)
        ensures
            views(r@) == self@.modules,
    {
        &self.modules
    }

    /// The descriptor.
    pub fn get_descriptor(&self) -> (r: &ModuleStruct)
        ensures
            r@ == self@.descriptor,
    {
        &self.module_structs
    }

    /// Registers a block module; registering it again changes nothing.
    pub fn add_module(&mut self, module_name: String)
        requires
            old(self).wf(),
        ensures
            final(self).wf(),
            final(self)@ == (LibraryModel {
                modules: modules_add(old(self)@.modules, module_name@),
                ..old(self)@
            }),
    {
        match find_text(&self.modules, module_name.as_str()) {
            Some(i) => {
                proof {
                    assert(views(self.modules@)[i as int] == module_name@);
                    assert(self@.modules.contains(module_name@));
                }
            },
            None => {
                let ghost before = views(self.modules@);
                let ghost name = module_name@;
                self.modules.push(module_name);
                proof {
                    let after = views(self.modules@);
                    assert(before == old(self)@.modules);
                    assert(library_model_wf(old(self)@));
                    assert(after =~= before.push(name));
                    assert forall|i: int, j: int| 0 <= i < j < after.len() implies after[i]
                        != after[j] by {
                        if j == after.len() - 1 {
                            assert(before[i] != name);
                        } else {
                            assert(before[i] != before[j]);
                        }
                    }
                }
            },
        }
    }

    /// Removes a block module from the list.
    pub fn delete_object(&mut self, object_name: &String)
        requires
            old(self).wf(),
        ensures
            final(self).wf(),
            final(self)@ == (LibraryModel {
                modules: modules_remove(old(self)@.modules, object_name@),
                ..old(self)@
            }),
    {
        let ghost before = views(self.modules@);
        match find_text(&self.modules, object_name.as_str()) {
            Some(i) => {
                proof {
                    assert(before == old(self)@.modules);
                    assert(library_model_wf(old(self)@));
                    assert(before.contains(object_name@));
                    let k = before.index_of(object_name@);
                    assert(before[k] == object_name@);
                    if k < i {
                        assert(before[k] != before[i as int]);
                    } else if k > i {
                        assert(before[i as int] != before[k]);
                    }
                }
                let _ = self.modules.remove(i);
                proof {
                    let after = views(self.modules@);
                    assert(after =~= before.remove(i as int));
                    assert forall|a: int, b: int| 0 <= a < b < after.len() implies after[a]
                        != after[b] by {
                        let a0 = if a < i { a } else { a + 1 };
                        let b0 = if b < i { b } else { b + 1 };
                        assert(after[a] == before[a0]);
                        assert(after[b] == before[b0]);
                        assert(before[a0] != before[b0]);
                    }
                }
            },
            None => {},
        }
    }

    fn generate_module_section(&self) -> (r: String)
        ensures
            r@ == join_lines(module_lines(self@.modules)),
    {
        let mut lines: Vec<String> = Vec::new();
        let mut i: usize = 0;
        while i < self.modules.len()
            invariant
                0 <= i <= self.modules@.len(),
                views(lines@) == module_lines(self@.modules.take(i as int)),
            decreases self.modules@.len() - i,
        {
            let snake = to_snake_case(self.modules[i].as_str());
            push_line(&mut lines, cat3("pub mod ", snake.as_str(), ";"));
            proof {
                assert(module_lines(self@.modules.take(i + 1)) =~= module_lines(
                    self@.modules.take(i as int),
                ).push("pub mod "@ + snake_case(self@.modules[i as int]) + ";"@));
            }
            i = i + 1;
        }
        proof {
            assert(self@.modules.take(self@.modules.len() as int) =~= self@.modules);
        }
        join_lines_of(&lines)
    }

    fn generate_module_struct_section(&self) -> (r: String)
        ensures
            r@ == join_lines(descriptor_lines(self@.descriptor)),
    {
        let d = &self.module_structs;
        let mut lines: Vec<String> = Vec::new();
        push_line(&mut lines, String::from_str("use std::ffi::c_char;"));
        push_line(&mut lines, String::from_str("use data_model::modules::{Version, ModuleStructFFI};"));
        push_line(&mut lines, String::from_str("use processor_engine::stream_processor::StreamProcessor;"));
        push_line(&mut lines, String::from_str("use processor_engine::ffi::{TraitObjectRepr, export_stream_processor, get_error_return};"));
        push_line(&mut lines, String::from_str("#[unsafe(no_mangle)]"));
        push_line(&mut lines, String::from_str("pub static MODULE: ModuleStructFFI = ModuleStructFFI {"));
        let ghost a = views(lines@);
        push_line(&mut lines, c_text("name", d.name.as_str()));
        push_line(&mut lines, c_text("description", d.description.as_str()));
        push_line(&mut lines, c_text("authors", d.authors.as_str()));
        push_line(&mut lines, c_text("release_date", d.release_date.as_str()));
        let mut v = String::from_str("    version: Version { major: ");
        v.append(decimal_text(d.version.major).as_str());
        v.append(", minor: ");
        v.append(decimal_text(d.version.minor).as_str());
        v.append(", build: ");
        v.append(decimal_text(d.version.build).as_str());
        v.append(" },");
        push_line(&mut lines, v);
        let ghost b = views(lines@);
        push_c_array(&mut lines, "dependencies", "dependency_number", &d.dependencies);
        push_c_array(&mut lines, "provides", "provides_lengths", &d.provides);
        let ghost c = views(lines@);
        push_line(&mut lines, String::from_str("};"));
        proof {
            assert(a =~= descriptor_head_lines());
            assert(b =~= a + seq![
                c_text_line("name"@, d@.name),
                c_text_line("description"@, d@.description),
                c_text_line("authors"@, d@.authors),
                c_text_line("release_date"@, d@.release_date),
                version_line(d@.version),
            ]);
            assert(views(lines@) =~= c + seq!["};"@]);
            assert(views(lines@) =~= descriptor_lines(self@.descriptor));
        }
        join_lines_of(&lines)
    }

    fn generate_start_get_module_section(&self) -> (r: String)
        ensures
            r@ == join_lines(dispatch_head_lines()),
    {
        let mut lines: Vec<String> = Vec::new();
        push_line(&mut lines, String::from_str("#[unsafe(no_mangle)]"));
        push_line(&mut lines, String::from_str("pub extern \"C\" fn get_processor_modules(proc_block: *const u8,"));
        push_line(&mut lines, String::from_str("    proc_block_len: usize,"));
        push_line(&mut lines, String::from_str("    block_name: *const u8,"));
        push_line(&mut lines, String::from_str("    block_name_len: usize) -> TraitObjectRepr {"));
        push_line(&mut lines, String::from_str("    let proc_block_str = unsafe {"));
        push_line(&mut lines, String::from_str("        std::str::from_utf8(std::slice::from_raw_parts(proc_block, proc_block_len)).unwrap()"));
        push_line(&mut lines, String::from_str("    };"));
        push_line(&mut lines, String::from_str("    let block_name_str = unsafe {"));
        push_line(&mut lines, String::from_str("        std::str::from_utf8(std::slice::from_raw_parts(block_name, block_name_len)).unwrap()"));
        push_line(&mut lines, String::from_str("    };"));
        push_line(&mut lines, String::from_str("    let proc: Box<dyn StreamProcessor>;"));
        push_line(&mut lines, String::from_str("    match proc_block_str {"));
        proof {
            assert(views(lines@) =~= dispatch_head_lines());
        }
        join_lines_of(&lines)
    }

    fn generate_body_get_module_section(&self) -> (r: String)
        ensures
            r@ == join_lines(dispatch_arms(self@.modules)),
    {
        let mut lines: Vec<String> = Vec::new();
        proof {
            assert(views(lines@) =~= dispatch_arms(self@.modules.take(0)));
        }
        let mut i: usize = 0;
        while i < self.modules.len()
            invariant
                0 <= i <= self.modules@.len(),
                views(lines@) == dispatch_arms(self@.modules.take(i as int)),
            decreases self.modules@.len() - i,
        {
            let m = self.modules[i].as_str();
            let ghost before = views(lines@);
            let snake = to_snake_case(m);
            push_line(&mut lines, cat3("        \"", m, "\" => {"));
            let mut l = cat3("            proc = Box::new(", snake.as_str(), "::");
            l.append(m);
            l.append("::new(block_name_str));");
            push_line(&mut lines, l);
            push_line(&mut lines, String::from_str("            export_stream_processor(proc)"));
            push_line(&mut lines, String::from_str("        }"));
            proof {
                assert(self@.modules.take(i + 1).drop_last() =~= self@.modules.take(i as int));
                assert(views(lines@) =~= before + dispatch_arm(self@.modules[i as int]));
            }
            i = i + 1;
        }
        proof {
            assert(self@.modules.take(self@.modules.len() as int) =~= self@.modules);
        }
        join_lines_of(&lines)
    }

    fn generate_end_get_module_section(&self) -> (r: String)
        ensures
            r@ == join_lines(dispatch_tail_lines()),
    {
        let mut lines: Vec<String> = Vec::new();
        push_line(&mut lines, String::from_str("        _ => {"));
        push_line(&mut lines, String::from_str("            eprintln!(\"Processor block {} not found\", proc_block_str);"));
        push_line(&mut lines, String::from_str("            get_error_return(1)"));
        push_line(&mut lines, String::from_str("        }"));
        push_line(&mut lines, String::from_str("    }"));
        push_line(&mut lines, String::from_str("}"));
        proof {
            assert(views(lines@) =~= dispatch_tail_lines());
        }
        join_lines_of(&lines)
    }

    /// Renders the library's root source file.
    pub fn generate(&self) -> (r: String)
        ensures
            r@ == render_library(self@),
    {
        let mut parts: Vec<String> = Vec::new();
        push_line(&mut parts, self.generate_module_section());
        push_line(&mut parts, self.generate_module_struct_section());
        push_line(&mut parts, self.generate_start_get_module_section());
        push_line(&mut parts, self.generate_body_get_module_section());
        push_line(&mut parts, self.generate_end_get_module_section());
        proof {
            let m = self@;
            assert(views(parts@) =~= seq![
                join_lines(module_lines(m.modules)),
                join_lines(descriptor_lines(m.descriptor)),
                join_lines(dispatch_head_lines()),
                join_lines(dispatch_arms(m.modules)),
                join_lines(dispatch_tail_lines()),
            ]);
        }
        join_lines_of(&parts)
    }
}

fn c_text(field: &str, value: &str) -> (r: String)
    ensures
        r@ == c_text_line(field@, value@),
{
    let mut s = cat3("    ", field, ": b\"");
    s.append(value);
    s.append("\\0\".as_ptr() as *const c_char,");
    s
}

} // verus!
