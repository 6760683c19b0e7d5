//! Entity records of the project registry, the generators that the
//! registry's projects own, and what a command hands back: the work to
//! perform outside, or the error that stopped it.

use vstd::prelude::*;
use crate::naming::ObjectCategory;
use crate::lib_coder::{LibCoder, LibraryModel, library_model_wf};
use crate::main_coder::{MainCoder, AppModel, app_model_wf};
use crate::processor_coder::{ProcessorCoder, BlockModel, block_model_wf};

verus! {

/// An entity record: its parent, category, declared type, value and limits.
/// A project root keeps its directory as its type and its metadata as its
/// value.
pub struct MemoryObject {
    pub parent: String,
    pub object_category: ObjectCategory,
    pub object_type: String,
    pub object_value: String,
    pub object_limits: String,
}

/// What an entity record holds.
pub struct ObjectView {
    pub parent: Seq<char>,
    pub category: ObjectCategory,
    pub object_type: Seq<char>,
    pub value: Seq<char>,
    pub limits: Seq<char>,
}

impl View for MemoryObject {
    type V = ObjectView;

    open spec fn view(&self) -> ObjectView {
        ObjectView {
            parent: self.parent@,
            category: self.object_category,
            object_type: self.object_type@,
            value: self.object_value@,
            limits: self.object_limits@,
        }
    }
}

impl MemoryObject {
    /// A copy of the record.
    pub fn duplicate(&self) -> (r: MemoryObject)
        ensures
            r@ == self@,
    {
        MemoryObject {
            parent: self.parent.clone(),
            object_category: self.object_category,
            object_type: self.object_type.clone(),
            object_value: self.object_value.clone(),
            object_limits: self.object_limits.clone(),
        }
    }
}

/// The generator that owns one managed source file.
pub enum Generator {
    Library(LibCoder),
    Application(MainCoder),
    Block(ProcessorCoder),
}

/// What a generator holds.
pub enum GeneratorView {
    Library(LibraryModel),
    Application(AppModel),
    Block(BlockModel),
}

impl View for Generator {
    type V = GeneratorView;

    open spec fn view(&self) -> GeneratorView {
        match self {
            Generator::Library(g) => GeneratorView::Library(g@),
            Generator::Application(g) => GeneratorView::Application(g@),
            Generator::Block(g) => GeneratorView::Block(g@),
        }
    }
}

pub open spec fn generator_wf(g: GeneratorView) -> bool {
    match g {
        GeneratorView::Library(m) => library_model_wf(m),
        GeneratorView::Application(m) => app_model_wf(m),
        GeneratorView::Block(m) => block_model_wf(m),
    }
}

impl Generator {
    /// Whether the generator is well formed.
    pub fn is_well_formed(&self) -> (r: bool)
        ensures
            r == generator_wf(self@),
    {
        match self {
            Generator::Library(g) => g.is_well_formed(),
            Generator::Application(g) => g.is_well_formed(),
            Generator::Block(g) => g.is_well_formed(),
        }
    }
}

/// The kind of a command error.
#[derive(Clone, Copy, Debug, PartialEq, Eq, Structural)]
pub enum ErrorKind {
    /// Missing or malformed tokens, unknown verb or subtype.
    Grammar,
    /// An entity is absent, or present with the wrong category.
    Reference,
    /// The name already exists.
    Conflict,
    /// The dotted name has the wrong number of segments.
    Shape,
}

/// Why a command failed.
pub struct CommandError {
    pub kind: ErrorKind,
    pub message: String,
}

/// Work that a successful command leaves to be done outside the library,
/// in order.
pub enum Effect {
    /// Create a project skeleton at `path`: a library or an application.
    Scaffold { path: String, library: bool },
    /// Make the runtime's crates available to the project at `path`.
    DeclareDependencies { path: String },
    /// Replace the file at `path` by `content`, through a temporary file.
    WriteSource { path: String, content: String },
    /// Persist the registry entries of `project` to `file`.
    SaveRegistry { project: String, file: String },
    /// Persist the state of the generator `name` to `file`.
    SaveGenerator { name: String, file: String },
    /// Delete the project tree at `path`.
    RemoveProject { path: String },
    /// Compile the project at `path`.
    Build { path: String, release: bool },
    /// Load the project snapshot persisted under `path`.
    Import { path: String },
}

/// What an effect holds.
pub enum EffectView {
    Scaffold { path: Seq<char>, library: bool },
    DeclareDependencies { path: Seq<char> },
    WriteSource { path: Seq<char>, content: Seq<char> },
    SaveRegistry { project: Seq<char>, file: Seq<char> },
    SaveGenerator { name: Seq<char>, file: Seq<char> },
    RemoveProject { path: Seq<char> },
    Build { path: Seq<char>, release: bool },
    Import { path: Seq<char> },
}

impl View for Effect {
    type V = EffectView;

    open spec fn view(&self) -> EffectView {
        match self {
            Effect::Scaffold { path, library } => EffectView::Scaffold {
                path: path@,
                library: *library,
            },
            Effect::DeclareDependencies { path } => EffectView::DeclareDependencies { path: path@ },
            Effect::WriteSource { path, content } => EffectView::WriteSource {
                path: path@,
                content: content@,
            },
            Effect::SaveRegistry { project, file } => EffectView::SaveRegistry {
                project: project@,
                file: file@,
            },
            Effect::SaveGenerator { name, file } => EffectView::SaveGenerator {
                name: name@,
                file: file@,
            },
            Effect::RemoveProject { path } => EffectView::RemoveProject { path: path@ },
            Effect::Build { path, release } => EffectView::Build { path: path@, release: *release },
            Effect::Import { path } => EffectView::Import { path: path@ },
        }
    }
}

pub open spec fn effect_views(v: Seq<Effect>) -> Seq<EffectView> {
    v.map_values(|e: Effect| e@)
}

} // verus!
