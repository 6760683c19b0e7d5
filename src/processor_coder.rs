//! The processor-block generator: typed ports, settable slots and user code
//! sections of one block, rendered as that block's source file.

use vstd::prelude::*;
use crate::naming::ObjectCategory;
use crate::strmap::{StrMap, pairs_insert, pairs_remove};
use crate::text::{join_lines, join_lines_of, views, split_on, split_text, same_text, opt_view, optional_line, push_line,
    push_optional, cat3};

verus! {

/// The user code sections of a block's source file.
#[derive(Clone, Copy, Debug, PartialEq, Eq, Structural)]
pub enum ModCoderParts {
    HeadMod,
    UsedDefinedCode,
    HeadStruct,
    UserDefinedStruct,
    EndStruct,
    HeadBuilder,
    UserDefinedBuilder,
    UserMemberCreation,
    UserDefinedImplStruct,
    InitBody,
    RunBody,
    ProcessBody,
    StopBody,
}

/// How many sections a block's source file has.
pub const MOD_PARTS: usize = 13;

/// The numeric identifier of a section.
pub open spec fn mod_part_index(p: ModCoderParts) -> int {
    match p {
        ModCoderParts::HeadMod => 0,
        ModCoderParts::UsedDefinedCode => 1,
        ModCoderParts::HeadStruct => 2,
        ModCoderParts::UserDefinedStruct => 3,
        ModCoderParts::EndStruct => 4,
        ModCoderParts::HeadBuilder => 5,
        ModCoderParts::UserDefinedBuilder => 6,
        ModCoderParts::UserMemberCreation => 7,
        ModCoderParts::UserDefinedImplStruct => 8,
        ModCoderParts::InitBody => 9,
        ModCoderParts::RunBody => 10,
        ModCoderParts::ProcessBody => 11,
        ModCoderParts::StopBody => 12,
    }
}

/// The sections that take user code: all but the generated struct head,
/// struct end and builder head.
pub open spec fn mod_part_takes_code(p: ModCoderParts) -> bool {
    p != ModCoderParts::HeadStruct && p != ModCoderParts::EndStruct && p
        != ModCoderParts::HeadBuilder
}

/// The section that takes user code under identifier `n`, if any.
pub open spec fn mod_part_at(n: int) -> Option<ModCoderParts> {
    if n == 0 {
        Some(ModCoderParts::HeadMod)
    } else if n == 1 {
        Some(ModCoderParts::UsedDefinedCode)
    } else if n == 3 {
        Some(ModCoderParts::UserDefinedStruct)
    } else if n == 6 {
        Some(ModCoderParts::UserDefinedBuilder)
    } else if n == 7 {
        Some(ModCoderParts::UserMemberCreation)
    } else if n == 8 {
        Some(ModCoderParts::UserDefinedImplStruct)
    } else if n == 9 {
        Some(ModCoderParts::InitBody)
    } else if n == 10 {
        Some(ModCoderParts::RunBody)
    } else if n == 11 {
        Some(ModCoderParts::ProcessBody)
    } else if n == 12 {
        Some(ModCoderParts::StopBody)
    } else {
        None
    }
}

impl ModCoderParts {
    pub fn index(&self) -> (r: usize)
        ensures
            r == mod_part_index(*self),
    {
        match self {
            ModCoderParts::HeadMod => 0,
            ModCoderParts::UsedDefinedCode => 1,
            ModCoderParts::HeadStruct => 2,
            ModCoderParts::UserDefinedStruct => 3,
            ModCoderParts::EndStruct => 4,
            ModCoderParts::HeadBuilder => 5,
            ModCoderParts::UserDefinedBuilder => 6,
            ModCoderParts::UserMemberCreation => 7,
            ModCoderParts::UserDefinedImplStruct => 8,
            ModCoderParts::InitBody => 9,
            ModCoderParts::RunBody => 10,
            ModCoderParts::ProcessBody => 11,
            ModCoderParts::StopBody => 12,
        }
    }

    /// The section that takes user code under identifier `n`, if any.
    pub fn from_index(n: u64) -> (r: Option<ModCoderParts>)
        ensures
            r == mod_part_at(n as int),
            match r {
                Some(p) => mod_part_index(p) == n && mod_part_takes_code(p),
                None => forall|p: ModCoderParts|
                    mod_part_takes_code(p) ==> mod_part_index(p) != n,
            },
    {
        if n == 0 {
            Some(ModCoderParts::HeadMod)
        } else if n == 1 {
            Some(ModCoderParts::UsedDefinedCode)
        } else if n == 3 {
            Some(ModCoderParts::UserDefinedStruct)
        } else if n == 6 {
            Some(ModCoderParts::UserDefinedBuilder)
        } else if n == 7 {
            Some(ModCoderParts::UserMemberCreation)
        } else if n == 8 {
            Some(ModCoderParts::UserDefinedImplStruct)
        } else if n == 9 {
            Some(ModCoderParts::InitBody)
        } else if n == 10 {
            Some(ModCoderParts::RunBody)
        } else if n == 11 {
            Some(ModCoderParts::ProcessBody)
        } else if n == 12 {
            Some(ModCoderParts::StopBody)
        } else {
            None
        }
    }
}

/// The bounds of a settable value, as written.
pub struct Limits {
    pub min: String,
    pub max: String,
}

impl View for Limits {
    type V = (Seq<char>, Seq<char>);

    open spec fn view(&self) -> (Seq<char>, Seq<char>) {
        (self.min@, self.max@)
    }
}

/// A settable slot of a block: a static or a parameter.
pub struct Typed {
    pub category: ObjectCategory,
    pub name: String,
    pub data_type: String,
    pub default: String,
    pub limits: Option<Limits>,
}

/// What a settable slot holds.
pub struct TypedView {
    pub category: ObjectCategory,
    pub name: Seq<char>,
    pub data_type: Seq<char>,
    pub default: Seq<char>,
    pub limits: Option<(Seq<char>, Seq<char>)>,
}

impl View for Typed {
    type V = TypedView;

    open spec fn view(&self) -> TypedView {
        TypedView {
            category: self.category,
            name: self.name@,
            data_type: self.data_type@,
            default: self.default@,
            limits: match self.limits {
                Some(l) => Some(l@),
                None => None,
            },
        }
    }
}

/// What a block generator holds.
pub struct BlockModel {
    pub name: Seq<char>,
    pub path: Seq<char>,
    pub inputs: Seq<(Seq<char>, Seq<char>)>,
    pub outputs: Seq<(Seq<char>, Seq<char>)>,
    pub states: Seq<(Seq<char>, Seq<char>)>,
    pub statics: Seq<(Seq<char>, TypedView)>,
    pub parameters: Seq<(Seq<char>, TypedView)>,
    pub codes: Seq<Option<Seq<char>>>,
}

/// The generator of one processor block's source file.
pub struct ProcessorCoder {
    processor_name: String,
    inputs: StrMap<String>,
    outputs: StrMap<String>,
    states: StrMap<String>,
    statics: StrMap<Typed>,
    parameters: StrMap<Typed>,
    user_codes: Vec<Option<String>>,
    path: String,
}

impl View for ProcessorCoder {
    type V = BlockModel;

    closed spec fn view(&self) -> BlockModel {
        BlockModel {
            name: self.processor_name@,
            path: self.path@,
            inputs: self.inputs.pairs(),
            outputs: self.outputs.pairs(),
            states: self.states.pairs(),
            statics: self.statics.pairs(),
            parameters: self.parameters.pairs(),
            codes: self.user_codes@.map_values(|c: Option<String>| opt_view(c)),
        }
    }
}

/// The keys of a list of entries are pairwise distinct and every section
/// has a slot.
pub open spec fn block_model_wf(m: BlockModel) -> bool {
    &&& crate::strmap::unique_keys(m.inputs)
    &&& crate::strmap::unique_keys(m.outputs)
    &&& crate::strmap::unique_keys(m.states)
    &&& crate::strmap::unique_keys(m.statics)
    &&& crate::strmap::unique_keys(m.parameters)
    &&& m.codes.len() == MOD_PARTS
}

/// The user code of section `p`.
pub open spec fn block_code(m: BlockModel, p: ModCoderParts) -> Option<Seq<char>> {
    m.codes[mod_part_index(p)]
}

/// The bounds written as `min,max`: the text before the first comma, and
/// the text between the first and the second comma (empty when there is
/// no comma).
pub open spec fn limits_of(l: Seq<char>) -> (Seq<char>, Seq<char>) {
    let parts = split_on(l, ',');
    (parts[0], if parts.len() > 1 { parts[1] } else { Seq::empty() })
}

/// The block after declaring a typed port or state of the given category.
pub open spec fn block_add_typed(
    m: BlockModel,
    category: Seq<char>,
    name: Seq<char>,
    data_type: Seq<char>,
) -> BlockModel {
    if category == "input"@ {
        BlockModel { inputs: pairs_insert(m.inputs, name, data_type), ..m }
    } else if category == "output"@ {
        BlockModel { outputs: pairs_insert(m.outputs, name, data_type), ..m }
    } else if category == "state"@ {
        BlockModel { states: pairs_insert(m.states, name, data_type), ..m }
    } else {
        m
    }
}

/// The slot that `add_settable` records.
pub open spec fn settable_of(
    category: ObjectCategory,
    name: Seq<char>,
    data_type: Seq<char>,
    default: Seq<char>,
    limits: Option<Seq<char>>,
) -> TypedView {
    TypedView {
        category,
        name,
        data_type,
        default,
        limits: match limits {
            Some(l) => Some(limits_of(l)),
            None => None,
        },
    }
}

/// The block after declaring a static or a parameter.
pub open spec fn block_add_settable(
    m: BlockModel,
    category: Seq<char>,
    name: Seq<char>,
    data_type: Seq<char>,
    default: Seq<char>,
    limits: Option<Seq<char>>,
) -> BlockModel {
    if category == "static"@ {
        BlockModel {
            statics: pairs_insert(
                m.statics,
                name,
                settable_of(ObjectCategory::Static, name, data_type, default, limits),
            ),
            ..m
        }
    } else if category == "parameter"@ {
        BlockModel {
            parameters: pairs_insert(
                m.parameters,
                name,
                settable_of(ObjectCategory::Parameter, name, data_type, default, limits),
            ),
            ..m
        }
    } else {
        m
    }
}

/// The block without any port, state or settable slot named `name`.
pub open spec fn block_delete(m: BlockModel, name: Seq<char>) -> BlockModel {
    BlockModel {
        inputs: pairs_remove(m.inputs, name),
        outputs: pairs_remove(m.outputs, name),
        states: pairs_remove(m.states, name),
        statics: pairs_remove(m.statics, name),
        parameters: pairs_remove(m.parameters, name),
        ..m
    }
}

/// Every section without user code.
pub open spec fn no_codes(n: int) -> Seq<Option<Seq<char>>> {
    Seq::new(n as nat, |i: int| None)
}

/// A vector of `n` absent code sections.
pub fn empty_sections(n: usize) -> (r: Vec<Option<String>>)
    ensures
        r@.map_values(|c: Option<String>| opt_view(c)) == no_codes(n as int),
{
    let mut v: Vec<Option<String>> = Vec::new();
    let mut i: usize = 0;
    while i < n
        invariant
            0 <= i <= n,
            v@.len() == i,
            forall|j: int| 0 <= j < i ==> v@[j] is None,
        decreases n - i,
    {
        v.push(None);
        i = i + 1;
    }
    proof {
        assert(v@.map_values(|c: Option<String>| opt_view(c)) =~= no_codes(n as int));
    }
    v
}

impl ProcessorCoder {
    pub open spec fn wf(&self) -> bool {
        block_model_wf(self@)
    }

    /// A block generator for the block `processor_name`, whose source file
    /// is `path`, with no ports, slots or user code.
    pub fn new(path: String, processor_name: String) -> (r: Self)
        ensures
            r.wf(),
            r@ == (BlockModel {
                name: processor_name@,
                path: path@,
                inputs: Seq::empty(),
                outputs: Seq::empty(),
                states: Seq::empty(),
                statics: Seq::empty(),
                parameters: Seq::empty(),
                codes: no_codes(MOD_PARTS as int),
            }),
    {
        ProcessorCoder {
            processor_name,
            inputs: StrMap::new(),
            outputs: StrMap::new(),
            states: StrMap::new(),
            statics: StrMap::new(),
            parameters: StrMap::new(),
            user_codes: empty_sections(MOD_PARTS),
            path,
        }
    }

    /// A block generator from its parts, if every list has distinct names
    /// and there is a slot for each section.
    pub fn from_parts(
        processor_name: String,
        path: String,
        inputs: StrMap<String>,
        outputs: StrMap<String>,
        states: StrMap<String>,
        statics: StrMap<Typed>,
        parameters: StrMap<Typed>,
        user_codes: Vec<Option<String>>,
    ) -> (r: Option<Self>)
        ensures
            match r {
                Some(g) => g.wf() && g@ == (BlockModel {
                    name: processor_name@,
                    path: path@,
                    inputs: inputs.pairs(),
                    outputs: outputs.pairs(),
                    states: states.pairs(),
                    statics: statics.pairs(),
                    parameters: parameters.pairs(),
                    codes: user_codes@.map_values(|c: Option<String>| opt_view(c)),
                }),
                None => !(inputs.wf() && outputs.wf() && states.wf() && statics.wf()
                    && parameters.wf() && user_codes@.len() == MOD_PARTS),
            },
    {
        if !(inputs.has_unique_keys() && outputs.has_unique_keys() && states.has_unique_keys()
            && statics.has_unique_keys() && parameters.has_unique_keys()
            && user_codes.len() == MOD_PARTS) {
            return None;
        }
        Some(
            ProcessorCoder {
                processor_name,
                inputs,
                outputs,
                states,
                statics,
                parameters,
                user_codes,
                path,
            },
        )
    }

    /// Whether the generator is well formed.
    pub fn is_well_formed(&self) -> (r: bool)
        ensures
            r == self.wf(),
    {
        self.inputs.has_unique_keys() && self.outputs.has_unique_keys()
            && self.states.has_unique_keys() && self.statics.has_unique_keys()
            && self.parameters.has_unique_keys() && self.user_codes.len() == MOD_PARTS
    }

    pub fn get_inputs(&self) -> (r: &StrMap<String>)
        ensures
            r.pairs() == self@.inputs,
    {
        &self.inputs
    }

    pub fn get_outputs(&self) -> (r: &StrMap<String>)
        ensures
            r.pairs() == self@.outputs,
    {
        &self.outputs
    }

    pub fn get_states(&self) -> (r: &StrMap<String>)
        ensures
            r.pairs() == self@.states,
    {
        &self.states
    }

    pub fn get_statics(&self) -> (r: &StrMap<Typed>)
        ensures
            r.pairs() == self@.statics,
    {
        &self.statics
    }

    pub fn get_parameters(&self) -> (r: &StrMap<Typed>)
        ensures
            r.pairs() == self@.parameters,
    {
        &self.parameters
    }

    /// The user code of every section, by identifier.
    pub fn get_codes(&self) -> (r: &Vec<Option<String>>)
        ensures
            r@.map_values(|c: Option<String>| opt_view(c)) == self@.codes,
    {
        &self.user_codes
    }

    /// The name of the block.
    pub fn get_name(&self) -> (r: &String)
        ensures
            r@ == self@.name,
    {
        &self.processor_name
    }

    /// The source file that this block renders to.
    pub fn get_path(&self) -> (r: &String)
        ensures
            r@ == self@.path,
    {
        &self.path
    }

    /// Sets the user code of section `part`, replacing any earlier code.
    pub fn add_code_section(&mut self, part: ModCoderParts, code: String)
        requires
            old(self).wf(),
        ensures
            final(self).wf(),
            final(self)@ == (BlockModel {
                codes: old(self)@.codes.update(mod_part_index(part), Some(code@)),
                ..old(self)@
            }),
    {
        let i = part.index();
        let ghost c = code@;
        self.user_codes.set(i, Some(code));
        proof {
            assert(self@.codes =~= old(self)@.codes.update(mod_part_index(part), Some(c)));
        }
    }

    /// Declares a typed port or state: `category` is `input`, `output` or
    /// `state`; any other category changes nothing.
    pub fn add_typed(&mut self, category: &String, name: &String, data_type: &String)
        requires
            old(self).wf(),
        ensures
            final(self).wf(),
            final(self)@ == block_add_typed(old(self)@, category@, name@, data_type@),
    {
        if same_text(category.as_str(), "input") {
            self.inputs.insert(name.clone(), data_type.clone());
        } else if same_text(category.as_str(), "output") {
            self.outputs.insert(name.clone(), data_type.clone());
        } else if same_text(category.as_str(), "state") {
            self.states.insert(name.clone(), data_type.clone());
        }
    }

    /// Declares a settable slot: `category` is `static` or `parameter`; any
    /// other category changes nothing. Limits are written `min,max`.
    pub fn add_settable(
        &mut self,
        category: &String,
        name: &String,
        data_type: &String,
        default: &String,
        limits: Option<&String>,
    )
        requires
            old(self).wf(),
        ensures
            final(self).wf(),
            final(self)@ == block_add_settable(
                old(self)@,
                category@,
                name@,
                data_type@,
                default@,
                match limits {
                    Some(l) => Some(l@),
                    None => None,
                },
            ),
    {
        let is_static = same_text(category.as_str(), "static");
        let is_parameter = same_text(category.as_str(), "parameter");
        if !is_static && !is_parameter {
            return;
        }
        let parsed = match limits {
            Some(l) => Some(parse_limits(l.as_str())),
            None => None,
        };
        let settable = Typed {
            category: if is_static { ObjectCategory::Static } else { ObjectCategory::Parameter },
            name: name.clone(),
            data_type: data_type.clone(),
            default: default.clone(),
            limits: parsed,
        };
        if is_static {
            self.statics.insert(name.clone(), settable);
        } else {
            self.parameters.insert(name.clone(), settable);
        }
    }

    /// Removes every port, state or settable slot named `object_name`.
    pub fn delete_object(&mut self, object_name: &String)
        requires
            old(self).wf(),
        ensures
            final(self).wf(),
            final(self)@ == block_delete(old(self)@, object_name@),
    {
        let key = object_name.as_str();
        let _ = self.inputs.remove(key);
        let _ = self.outputs.remove(key);
        let _ = self.states.remove(key);
        let _ = self.statics.remove(key);
        let _ = self.parameters.remove(key);
    }
}

/// Reads bounds written `min,max`.
pub fn parse_limits(l: &str) -> (r: Limits)
    ensures
        r@ == limits_of(l@),
{
    let parts = split_text(l, ',');
    proof {
        crate::text::lemma_split_nonempty(l@, ',');
        assert(parts@.len() == views(parts@).len());
        assert(parts@[0]@ == views(parts@)[0]);
    }
    let min = parts[0].clone();
    let max = if parts.len() > 1 {
        proof {
            assert(parts@[1]@ == views(parts@)[1]);
        }
        parts[1].clone()
    } else {
        String::new()
    };
    Limits { min, max }
}

/// The imports at the top of a block's source file.
pub open spec fn block_import_lines() -> Seq<Seq<char>> {
    seq![
        "use std::collections::HashMap;"@,
        "use std::any::Any;"@,
        "use std::fmt::Display;"@,
        "use std::sync::mpsc::SyncSender;"@,
        "use std::sync::{Arc, Mutex};"@,
        "use serde::Serialize;"@,
        "use stream_proc_macro::StreamBlockMacro;"@,
        "use data_model::streaming_data::{StreamingError, StreamingState};"@,
        "use data_model::memory_manager::{DataTrait, StaticsTrait, State, Parameter, Statics};"@,
        "use processor_engine::stream_processor::{StreamBlock, StreamBlockDyn, StreamProcessor};"@,
        "use processor_engine::connectors::{ConnectorTrait, Input, Output};"@,
    ]
}

/// The fields that every block struct has.
pub open spec fn block_field_lines() -> Seq<Seq<char>> {
    seq![
        "    name:       &'static str,"@,
        "    inputs:     HashMap<&'static str, Box<dyn ConnectorTrait>>,"@,
        "    outputs:    HashMap<&'static str, Box<dyn ConnectorTrait>>,"@,
        "    parameters: HashMap<&'static str, Box<dyn DataTrait>>,"@,
        "    statics:    HashMap<&'static str, Box<dyn StaticsTrait>>,"@,
        "    state:      HashMap<&'static str, Box<dyn DataTrait>>,"@,
        "    lock:       Arc<Mutex<()>>,"@,
        "    proc_state: Arc<Mutex<StreamingState>>,"@,
    ]
}

/// The field initialisers of every block constructor.
pub open spec fn builder_field_lines() -> Seq<Seq<char>> {
    seq![
        "            name,"@,
        "            inputs: HashMap::new(),"@,
        "            outputs: HashMap::new(),"@,
        "            parameters: HashMap::new(),"@,
        "            statics: HashMap::new(),"@,
        "            state: HashMap::new(),"@,
        "            lock: Arc::new(Mutex::new(())),"@,
        "            proc_state: Arc::new(Mutex::new(StreamingState::Null)),"@,
    ]
}

/// The registration call of a typed port or state.
pub open spec fn typed_line(kind: Seq<char>, e: (Seq<char>, Seq<char>)) -> Seq<char> {
    "        ret.new_"@ + kind + "::<"@ + e.1 + ">(\""@ + e.0 + "\");"@
}

/// The registration calls of a list of typed ports or states.
pub open spec fn typed_lines(kind: Seq<char>, s: Seq<(Seq<char>, Seq<char>)>) -> Seq<Seq<char>> {
    s.map_values(|e: (Seq<char>, Seq<char>)| typed_line(kind, e))
}

/// The registration call of a settable slot, with its default and, where
/// given, its bounds.
pub open spec fn settable_line(kind: Seq<char>, e: (Seq<char>, TypedView)) -> Seq<char> {
    let head = "        ret.new_"@ + kind + "::<"@ + e.1.data_type + ">(\""@ + e.0 + "\", "@
        + e.1.default;
    match e.1.limits {
        Some(l) => head + ", Some(("@ + l.0 + ", "@ + l.1 + ")));"@,
        None => head + ", None);"@,
    }
}

/// The registration calls of a list of settable slots.
pub open spec fn settable_lines(kind: Seq<char>, s: Seq<(Seq<char>, TypedView)>) -> Seq<Seq<char>> {
    s.map_values(|e: (Seq<char>, TypedView)| settable_line(kind, e))
}

/// The body of a lifecycle method: the user's code, or a stub.
pub open spec fn stub_body(c: Option<Seq<char>>) -> Seq<Seq<char>> {
    match c {
        Some(x) => seq![x],
        None => seq!["        Ok(())"@],
    }
}

pub open spec fn render_head_mod(m: BlockModel) -> Seq<char> {
    join_lines(optional_line(block_code(m, ModCoderParts::HeadMod)) + block_import_lines())
}

pub open spec fn render_user_code(m: BlockModel) -> Seq<char> {
    match block_code(m, ModCoderParts::UsedDefinedCode) {
        Some(c) => c,
        None => Seq::empty(),
    }
}

pub open spec fn render_head_struct(m: BlockModel) -> Seq<char> {
    join_lines(seq!["#[derive(StreamBlockMacro)]"@, "pub struct "@ + m.name + " {"@]
        + block_field_lines())
}

pub open spec fn render_user_struct(m: BlockModel) -> Seq<char> {
    join_lines(optional_line(block_code(m, ModCoderParts::UserDefinedStruct)).push("}"@))
}

pub open spec fn render_head_builder(m: BlockModel) -> Seq<char> {
    join_lines(
        seq![
            "impl "@ + m.name + " {"@,
            "    pub fn new(name: &'static str) -> Self {"@,
            "        let mut ret = Self {"@,
        ] + builder_field_lines(),
    )
}

pub open spec fn render_user_builder(m: BlockModel) -> Seq<char> {
    join_lines(optional_line(block_code(m, ModCoderParts::UserDefinedBuilder)).push("        };"@))
}

/// One registration call per input, output, state, static and parameter,
/// in that order and in the order of declaration.
pub open spec fn render_members(m: BlockModel) -> Seq<char> {
    join_lines(
        typed_lines("input"@, m.inputs) + typed_lines("output"@, m.outputs) + typed_lines(
            "state"@,
            m.states,
        ) + settable_lines("statics"@, m.statics) + settable_lines("parameter"@, m.parameters),
    )
}

pub open spec fn render_user_members(m: BlockModel) -> Seq<char> {
    join_lines(
        optional_line(block_code(m, ModCoderParts::UserMemberCreation)) + seq![
            "        ret"@,
            "    }"@,
        ],
    )
}

pub open spec fn render_user_impl(m: BlockModel) -> Seq<char> {
    join_lines(optional_line(block_code(m, ModCoderParts::UserDefinedImplStruct)).push("}"@))
}

pub open spec fn render_init(m: BlockModel) -> Seq<char> {
    join_lines(
        seq![
            "impl StreamProcessor for "@ + m.name + " {"@,
            "    fn init(&mut self) -> Result<(), StreamingError> {"@,
        ] + stub_body(block_code(m, ModCoderParts::InitBody)) + seq!["    }"@],
    )
}

pub open spec fn render_run(m: BlockModel) -> Seq<char> {
    join_lines(
        seq!["    fn run(&mut self) -> Result<(), StreamingError> {"@] + stub_body(
            block_code(m, ModCoderParts::RunBody),
        ) + seq!["    }"@],
    )
}

pub open spec fn render_process(m: BlockModel) -> Seq<char> {
    join_lines(
        seq!["    fn process(&mut self) -> Result<(), StreamingError> {"@] + stub_body(
            block_code(m, ModCoderParts::ProcessBody),
        ) + seq!["    }"@],
    )
}

pub open spec fn render_stop(m: BlockModel) -> Seq<char> {
    join_lines(
        seq!["    fn stop(&mut self) -> Result<(), StreamingError> {"@] + stub_body(
            block_code(m, ModCoderParts::StopBody),
        ) + seq!["    }"@, "}"@],
    )
}

/// The whole source file of a block.
pub open spec fn render_block(m: BlockModel) -> Seq<char> {
    join_lines(
        seq![
            render_head_mod(m),
            render_user_code(m),
            render_head_struct(m),
            render_user_struct(m),
            render_head_builder(m),
            render_user_builder(m),
            render_members(m),
            render_user_members(m),
            render_user_impl(m),
            render_init(m),
            render_run(m),
            render_process(m),
            render_stop(m),
        ],
    )
}

fn line(s: &str) -> (r: String)
    ensures
        r@ == s@,
{
    String::from_str(s)
}

/// Appends the registration calls of typed ports or states.
fn push_typed_lines(lines: &mut Vec<String>, kind: &str, map: &StrMap<String>)
    ensures
        views(final(lines)@) == views(old(lines)@) + typed_lines(kind@, map.pairs()),
{
    let ghost start = views(lines@);
    let mut i: usize = 0;
    while i < map.len()
        invariant
            0 <= i <= map.pairs().len(),
            views(lines@) == start + typed_lines(kind@, map.pairs().take(i as int)),
        decreases map.pairs().len() - i,
    {
        let name = map.key_at(i);
        let ty = map.value_at(i);
        let mut l = cat3("        ret.new_", kind, "::<");
        l.append(ty.as_str());
        l.append(">(\"");
        l.append(name.as_str());
        l.append("\");");
        push_line(lines, l);
        proof {
            assert(typed_lines(kind@, map.pairs().take(i + 1)) =~= typed_lines(
                kind@,
                map.pairs().take(i as int),
            ).push(typed_line(kind@, map.pairs()[i as int])));
        }
        i = i + 1;
    }
    proof {
        assert(map.pairs().take(map.pairs().len() as int) =~= map.pairs());
    }
}

/// Appends the registration calls of settable slots.
fn push_settable_lines(lines: &mut Vec<String>, kind: &str, map: &StrMap<Typed>)
    ensures
        views(final(lines)@) == views(old(lines)@) + settable_lines(kind@, map.pairs()),
{
    let ghost start = views(lines@);
    let mut i: usize = 0;
    while i < map.len()
        invariant
            0 <= i <= map.pairs().len(),
            views(lines@) == start + settable_lines(kind@, map.pairs().take(i as int)),
        decreases map.pairs().len() - i,
    {
        let name = map.key_at(i);
        let t = map.value_at(i);
        let mut l = cat3("        ret.new_", kind, "::<");
        l.append(t.data_type.as_str());
        l.append(">(\"");
        l.append(name.as_str());
        l.append("\", ");
        l.append(t.default.as_str());
        match &t.limits {
            Some(lim) => {
                l.append(", Some((");
                l.append(lim.min.as_str());
                l.append(", ");
                l.append(lim.max.as_str());
                l.append(")));");
            },
            None => {
                l.append(", None);");
            },
        }
        push_line(lines, l);
        proof {
            assert(settable_lines(kind@, map.pairs().take(i + 1)) =~= settable_lines(
                kind@,
                map.pairs().take(i as int),
            ).push(settable_line(kind@, map.pairs()[i as int])));
        }
        i = i + 1;
    }
    proof {
        assert(map.pairs().take(map.pairs().len() as int) =~= map.pairs());
    }
}

/// Appends the body of a lifecycle method.
fn push_stub_body(lines: &mut Vec<String>, c: &Option<String>)
    ensures
        views(final(lines)@) == views(old(lines)@) + stub_body(opt_view(*c)),
{
    match c {
        Some(code) => push_line(lines, code.clone()),
        None => push_line(lines, line("        Ok(())")),
    }
    proof {
        assert(views(lines@) =~= views(old(lines)@) + stub_body(opt_view(*c)));
    }
}

impl ProcessorCoder {
    fn code(&self, part: ModCoderParts) -> (r: &Option<String>)
        requires
            self.wf(),
        ensures
            opt_view(*r) == block_code(self@, part),
    {
        &self.user_codes[part.index()]
    }

    fn generate_head_mod(&self) -> (r: String)
        requires
            self.wf(),
        ensures
            r@ == render_head_mod(self@),
    {
        let mut lines: Vec<String> = Vec::new();
        push_optional(&mut lines, self.code(ModCoderParts::HeadMod));
        let ghost pre = views(lines@);
        push_line(&mut lines, line("use std::collections::HashMap;"));
        push_line(&mut lines, line("use std::any::Any;"));
        push_line(&mut lines, line("use std::fmt::Display;"));
        push_line(&mut lines, line("use std::sync::mpsc::SyncSender;"));
        push_line(&mut lines, line("use std::sync::{Arc, Mutex};"));
        push_line(&mut lines, line("use serde::Serialize;"));
        push_line(&mut lines, line("use stream_proc_macro::StreamBlockMacro;"));
        push_line(&mut lines, line("use data_model::streaming_data::{StreamingError, StreamingState};"));
        push_line(&mut lines, line("use data_model::memory_manager::{DataTrait, StaticsTrait, State, Parameter, Statics};"));
        push_line(&mut lines, line("use processor_engine::stream_processor::{StreamBlock, StreamBlockDyn, StreamProcessor};"));
        push_line(&mut lines, line("use processor_engine::connectors::{ConnectorTrait, Input, Output};"));
        proof {
            assert(views(lines@) =~= pre + block_import_lines());
        }
        join_lines_of(&lines)
    }

    fn generate_user_defined_code(&self) -> (r: String)
        requires
            self.wf(),
        ensures
            r@ == render_user_code(self@),
    {
        match self.code(ModCoderParts::UsedDefinedCode) {
            Some(c) => c.clone(),
            None => String::new(),
        }
    }

    fn generate_head_struct(&self) -> (r: String)
        requires
            self.wf(),
        ensures
            r@ == render_head_struct(self@),
    {
        let mut lines: Vec<String> = Vec::new();
        push_line(&mut lines, line("#[derive(StreamBlockMacro)]"));
        push_line(&mut lines, cat3("pub struct ", self.processor_name.as_str(), " {"));
        push_line(&mut lines, line("    name:       &'static str,"));
        push_line(&mut lines, line("    inputs:     HashMap<&'static str, Box<dyn ConnectorTrait>>,"));
        push_line(&mut lines, line("    outputs:    HashMap<&'static str, Box<dyn ConnectorTrait>>,"));
        push_line(&mut lines, line("    parameters: HashMap<&'static str, Box<dyn DataTrait>>,"));
        push_line(&mut lines, line("    statics:    HashMap<&'static str, Box<dyn StaticsTrait>>,"));
        push_line(&mut lines, line("    state:      HashMap<&'static str, Box<dyn DataTrait>>,"));
        push_line(&mut lines, line("    lock:       Arc<Mutex<()>>,"));
        push_line(&mut lines, line("    proc_state: Arc<Mutex<StreamingState>>,"));
        proof {
            assert(views(lines@) =~= seq![
                "#[derive(StreamBlockMacro)]"@,
                "pub struct "@ + self@.name + " {"@,
            ] + block_field_lines());
        }
        join_lines_of(&lines)
    }

    fn generate_user_defined_struct(&self) -> (r: String)
        requires
            self.wf(),
        ensures
            r@ == render_user_struct(self@),
    {
        let mut lines: Vec<String> = Vec::new();
        push_optional(&mut lines, self.code(ModCoderParts::UserDefinedStruct));
        push_line(&mut lines, line("}"));
        join_lines_of(&lines)
    }

    fn generate_head_builder(&self) -> (r: String)
        requires
            self.wf(),
        ensures
            r@ == render_head_builder(self@),
    {
        let mut lines: Vec<String> = Vec::new();
        push_line(&mut lines, cat3("impl ", self.processor_name.as_str(), " {"));
        push_line(&mut lines, line("    pub fn new(name: &'static str) -> Self {"));
        push_line(&mut lines, line("        let mut ret = Self {"));
        push_line(&mut lines, line("            name,"));
        push_line(&mut lines, line("            inputs: HashMap::new(),"));
        push_line(&mut lines, line("            outputs: HashMap::new(),"));
        push_line(&mut lines, line("            parameters: HashMap::new(),"));
        push_line(&mut lines, line("            statics: HashMap::new(),"));
        push_line(&mut lines, line("            state: HashMap::new(),"));
        push_line(&mut lines, line("            lock: Arc::new(Mutex::new(())),"));
        push_line(&mut lines, line("            proc_state: Arc::new(Mutex::new(StreamingState::Null)),"));
        proof {
            assert(views(lines@) =~= seq![
                "impl "@ + self@.name + " {"@,
                "    pub fn new(name: &'static str) -> Self {"@,
                "        let mut ret = Self {"@,
            ] + builder_field_lines());
        }
        join_lines_of(&lines)
    }

    fn generate_user_defined_builder(&self) -> (r: String)
        requires
            self.wf(),
        ensures
            r@ == render_user_builder(self@),
    {
        let mut lines: Vec<String> = Vec::new();
        push_optional(&mut lines, self.code(ModCoderParts::UserDefinedBuilder));
        push_line(&mut lines, line("        };"));
        join_lines_of(&lines)
    }

    fn generate_member_creation(&self) -> (r: String)
        requires
            self.wf(),
        ensures
            r@ == render_members(self@),
    {
        let mut lines: Vec<String> = Vec::new();
        proof {
            assert(views(lines@) =~= Seq::<Seq<char>>::empty());
        }
        push_typed_lines(&mut lines, "input", &self.inputs);
        push_typed_lines(&mut lines, "output", &self.outputs);
        push_typed_lines(&mut lines, "state", &self.states);
        push_settable_lines(&mut lines, "statics", &self.statics);
        push_settable_lines(&mut lines, "parameter", &self.parameters);
        proof {
            let m = self@;
            assert(views(lines@) =~= typed_lines("input"@, m.inputs) + typed_lines(
                "output"@,
                m.outputs,
            ) + typed_lines("state"@, m.states) + settable_lines("statics"@, m.statics)
                + settable_lines("parameter"@, m.parameters));
        }
        join_lines_of(&lines)
    }

    fn generate_user_member_creation(&self) -> (r: String)
        requires
            self.wf(),
        ensures
            r@ == render_user_members(self@),
    {
        let mut lines: Vec<String> = Vec::new();
        push_optional(&mut lines, self.code(ModCoderParts::UserMemberCreation));
        let ghost pre = views(lines@);
        push_line(&mut lines, line("        ret"));
        push_line(&mut lines, line("    }"));
        proof {
            assert(views(lines@) =~= pre + seq!["        ret"@, "    }"@]);
        }
        join_lines_of(&lines)
    }

    fn generate_user_defined_impl_struct(&self) -> (r: String)
        requires
            self.wf(),
        ensures
            r@ == render_user_impl(self@),
    {
        let mut lines: Vec<String> = Vec::new();
        push_optional(&mut lines, self.code(ModCoderParts::UserDefinedImplStruct));
        push_line(&mut lines, line("}"));
        join_lines_of(&lines)
    }

    fn generate_init_body(&self) -> (r: String)
        requires
            self.wf(),
        ensures
            r@ == render_init(self@),
    {
        let mut lines: Vec<String> = Vec::new();
        push_line(&mut lines, cat3("impl StreamProcessor for ", self.processor_name.as_str(), " {"));
        push_line(&mut lines, line("    fn init(&mut self) -> Result<(), StreamingError> {"));
        let ghost pre = views(lines@);
        push_stub_body(&mut lines, self.code(ModCoderParts::InitBody));
        let ghost mid = views(lines@);
        push_line(&mut lines, line("    }"));
        proof {
            assert(views(lines@) =~= mid + seq!["    }"@]);
            assert(pre =~= seq![
                "impl StreamProcessor for "@ + self@.name + " {"@,
                "    fn init(&mut self) -> Result<(), StreamingError> {"@,
            ]);
        }
        join_lines_of(&lines)
    }

    fn generate_run_body(&self) -> (r: String)
        requires
            self.wf(),
        ensures
            r@ == render_run(self@),
    {
        let mut lines: Vec<String> = Vec::new();
        push_line(&mut lines, line("    fn run(&mut self) -> Result<(), StreamingError> {"));
        let ghost pre = views(lines@);
        push_stub_body(&mut lines, self.code(ModCoderParts::RunBody));
        let ghost mid = views(lines@);
        push_line(&mut lines, line("    }"));
        proof {
            assert(views(lines@) =~= mid + seq!["    }"@]);
            assert(pre =~= seq!["    fn run(&mut self) -> Result<(), StreamingError> {"@]);
        }
        join_lines_of(&lines)
    }

    fn generate_process_body(&self) -> (r: String)
        requires
            self.wf(),
        ensures
            r@ == render_process(self@),
    {
        let mut lines: Vec<String> = Vec::new();
        push_line(&mut lines, line("    fn process(&mut self) -> Result<(), StreamingError> {"));
        let ghost pre = views(lines@);
        push_stub_body(&mut lines, self.code(ModCoderParts::ProcessBody));
        let ghost mid = views(lines@);
        push_line(&mut lines, line("    }"));
        proof {
            assert(views(lines@) =~= mid + seq!["    }"@]);
            assert(pre =~= seq!["    fn process(&mut self) -> Result<(), StreamingError> {"@]);
        }
        join_lines_of(&lines)
    }

    fn generate_stop_body(&self) -> (r: String)
        requires
            self.wf(),
        ensures
            r@ == render_stop(self@),
    {
        let mut lines: Vec<String> = Vec::new();
        push_line(&mut lines, line("    fn stop(&mut self) -> Result<(), StreamingError> {"));
        let ghost pre = views(lines@);
        push_stub_body(&mut lines, self.code(ModCoderParts::StopBody));
        let ghost mid = views(lines@);
        push_line(&mut lines, line("    }"));
        push_line(&mut lines, line("}"));
        proof {
            assert(views(lines@) =~= mid + seq!["    }"@, "}"@]);
            assert(pre =~= seq!["    fn stop(&mut self) -> Result<(), StreamingError> {"@]);
        }
        join_lines_of(&lines)
    }

    /// Renders the block's source file.
    pub fn generate(&self) -> (r: String)
        requires
            self.wf(),
        ensures
            r@ == render_block(self@),
    {
        let mut parts: Vec<String> = Vec::new();
        push_line(&mut parts, self.generate_head_mod());
        push_line(&mut parts, self.generate_user_defined_code());
        push_line(&mut parts, self.generate_head_struct());
        push_line(&mut parts, self.generate_user_defined_struct());
        push_line(&mut parts, self.generate_head_builder());
        push_line(&mut parts, self.generate_user_defined_builder());
        push_line(&mut parts, self.generate_member_creation());
        push_line(&mut parts, self.generate_user_member_creation());
        push_line(&mut parts, self.generate_user_defined_impl_struct());
        push_line(&mut parts, self.generate_init_body());
        push_line(&mut parts, self.generate_run_body());
        push_line(&mut parts, self.generate_process_body());
        push_line(&mut parts, self.generate_stop_body());
        proof {
            let m = self@;
            assert(views(parts@) =~= seq![
                render_head_mod(m),
                render_user_code(m),
                render_head_struct(m),
                render_user_struct(m),
                render_head_builder(m),
                render_user_builder(m),
                render_members(m),
                render_user_members(m),
                render_user_impl(m),
                render_init(m),
                render_run(m),
                render_process(m),
                render_stop(m),
            ]);
        }
        join_lines_of(&parts)
    }
}

} // verus!
