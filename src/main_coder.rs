//! The application generator: tasks, processor instances, connections,
//! settings and user code of one application, rendered as its main file.

use vstd::prelude::*;
use crate::naming::{is_under, under, parent_name, split_last, ident, ident_of};
use crate::strmap::{StrMap, pairs_insert, pairs_outside, lemma_filter_take};
use crate::text::{join_lines, join_lines_of, views, opt_view, optional_line, push_line,
    push_optional, cat, cat3, same_text};
use crate::processor_coder::{empty_sections, no_codes};

verus! {

/// The user code sections of an application's main file.
#[derive(Clone, Copy, Debug, PartialEq, Eq, Structural)]
pub enum MainCoderParts {
    HeadMain,
    UsedDefinedCode,
    StreamProcessorCreation,
    StreamProcessorSetup,
    StreamProcessorConnection,
    StreamProcessorUserCode,
    StreamInit,
    StreamRun,
    StreamStop,
}

/// How many sections an application's main file has.
pub const MAIN_PARTS: usize = 9;

/// The numeric identifier of a section.
pub open spec fn main_part_index(p: MainCoderParts) -> int {
    match p {
        MainCoderParts::HeadMain => 0,
        MainCoderParts::UsedDefinedCode => 1,
        MainCoderParts::StreamProcessorCreation => 2,
        MainCoderParts::StreamProcessorSetup => 3,
        MainCoderParts::StreamProcessorConnection => 4,
        MainCoderParts::StreamProcessorUserCode => 5,
        MainCoderParts::StreamInit => 6,
        MainCoderParts::StreamRun => 7,
        MainCoderParts::StreamStop => 8,
    }
}

/// The section under identifier `n`, if any.
pub open spec fn main_part_at(n: int) -> Option<MainCoderParts> {
    if n == 0 {
        Some(MainCoderParts::HeadMain)
    } else if n == 1 {
        Some(MainCoderParts::UsedDefinedCode)
    } else if n == 2 {
        Some(MainCoderParts::StreamProcessorCreation)
    } else if n == 3 {
        Some(MainCoderParts::StreamProcessorSetup)
    } else if n == 4 {
        Some(MainCoderParts::StreamProcessorConnection)
    } else if n == 5 {
        Some(MainCoderParts::StreamProcessorUserCode)
    } else if n == 6 {
        Some(MainCoderParts::StreamInit)
    } else if n == 7 {
        Some(MainCoderParts::StreamRun)
    } else if n == 8 {
        Some(MainCoderParts::StreamStop)
    } else {
        None
    }
}

impl MainCoderParts {
    pub fn index(&self) -> (r: usize)
        ensures
            r == main_part_index(*self),
    {
        match self {
            MainCoderParts::HeadMain => 0,
            MainCoderParts::UsedDefinedCode => 1,
            MainCoderParts::StreamProcessorCreation => 2,
            MainCoderParts::StreamProcessorSetup => 3,
            MainCoderParts::StreamProcessorConnection => 4,
            MainCoderParts::StreamProcessorUserCode => 5,
            MainCoderParts::StreamInit => 6,
            MainCoderParts::StreamRun => 7,
            MainCoderParts::StreamStop => 8,
        }
    }

    /// The section under identifier `n`, if any.
    pub fn from_index(n: u64) -> (r: Option<MainCoderParts>)
        ensures
            r == main_part_at(n as int),
            match r {
                Some(p) => main_part_index(p) == n,
                None => n >= MAIN_PARTS,
            },
    {
        if n == 0 {
            Some(MainCoderParts::HeadMain)
        } else if n == 1 {
            Some(MainCoderParts::UsedDefinedCode)
        } else if n == 2 {
            Some(MainCoderParts::StreamProcessorCreation)
        } else if n == 3 {
            Some(MainCoderParts::StreamProcessorSetup)
        } else if n == 4 {
            Some(MainCoderParts::StreamProcessorConnection)
        } else if n == 5 {
            Some(MainCoderParts::StreamProcessorUserCode)
        } else if n == 6 {
            Some(MainCoderParts::StreamInit)
        } else if n == 7 {
            Some(MainCoderParts::StreamRun)
        } else if n == 8 {
            Some(MainCoderParts::StreamStop)
        } else {
            None
        }
    }
}

/// A wire from an output of one processor instance to an input of another.
pub struct Connections {
    pub from_processor: String,
    pub from_output: String,
    pub to_processor: String,
    pub to_input: String,
}

/// What a connection holds.
pub struct ConnectionView {
    pub from_processor: Seq<char>,
    pub from_output: Seq<char>,
    pub to_processor: Seq<char>,
    pub to_input: Seq<char>,
}

impl View for Connections {
    type V = ConnectionView;

    open spec fn view(&self) -> ConnectionView {
        ConnectionView {
            from_processor: self.from_processor@,
            from_output: self.from_output@,
            to_processor: self.to_processor@,
            to_input: self.to_input@,
        }
    }
}

/// A value assigned to a settable slot of a processor instance.
pub struct Settings {
    pub processor_name: String,
    pub settable_type: String,
    pub settable_name: String,
    pub value: String,
}

/// What a setting holds.
pub struct SettingView {
    pub processor_name: Seq<char>,
    pub settable_type: Seq<char>,
    pub settable_name: Seq<char>,
    pub value: Seq<char>,
}

impl View for Settings {
    type V = SettingView;

    open spec fn view(&self) -> SettingView {
        SettingView {
            processor_name: self.processor_name@,
            settable_type: self.settable_type@,
            settable_name: self.settable_name@,
            value: self.value@,
        }
    }
}

/// A task and the processor instances it runs, in order.
pub struct TaskProcessor {
    pub name: String,
    pub stream_processors: Vec<String>,
}

/// What a task holds.
pub struct TaskView {
    pub name: Seq<char>,
    pub processors: Seq<Seq<char>>,
}

impl View for TaskProcessor {
    type V = TaskView;

    open spec fn view(&self) -> TaskView {
        TaskView { name: self.name@, processors: views(self.stream_processors@) }
    }
}

/// What an application generator holds.
pub struct AppModel {
    pub tasks: Seq<(Seq<char>, TaskView)>,
    pub instances: Seq<(Seq<char>, Seq<char>)>,
    pub connections: Seq<ConnectionView>,
    pub settings: Seq<SettingView>,
    pub codes: Seq<Option<Seq<char>>>,
    pub crate_path: Seq<char>,
    pub file_path: Seq<char>,
}

/// The generator of one application's main file.
pub struct MainCoder {
    task_proc: StrMap<TaskProcessor>,
    stream_proc: StrMap<String>,
    connections: Vec<Connections>,
    settings: Vec<Settings>,
    user_codes: Vec<Option<String>>,
    crate_path: String,
    file_path: String,
}

pub open spec fn connection_views(v: Seq<Connections>) -> Seq<ConnectionView> {
    v.map_values(|c: Connections| c@)
}

pub open spec fn setting_views(v: Seq<Settings>) -> Seq<SettingView> {
    v.map_values(|c: Settings| c@)
}

impl View for MainCoder {
    type V = AppModel;

    closed spec fn view(&self) -> AppModel {
        AppModel {
            tasks: self.task_proc.pairs(),
            instances: self.stream_proc.pairs(),
            connections: connection_views(self.connections@),
            settings: setting_views(self.settings@),
            codes: self.user_codes@.map_values(|c: Option<String>| opt_view(c)),
            crate_path: self.crate_path@,
            file_path: self.file_path@,
        }
    }
}

pub open spec fn app_model_wf(m: AppModel) -> bool {
    &&& crate::strmap::unique_keys(m.tasks)
    &&& crate::strmap::unique_keys(m.instances)
    &&& m.codes.len() == MAIN_PARTS
}

/// The main file of the application at `path`.
pub open spec fn application_file(path: Seq<char>) -> Seq<char> {
    path + "/src/main.rs"@
}

/// The application after creating the processor instance `name` of block
/// type `ty`: recorded, and appended to the task that is its parent, where
/// that task exists.
pub open spec fn app_add_instance(m: AppModel, name: Seq<char>, ty: Seq<char>) -> AppModel {
    let task = parent_name(name);
    if crate::strmap::has_key(m.tasks, task) {
        let i = crate::strmap::key_index(m.tasks, task);
        AppModel {
            instances: pairs_insert(m.instances, name, ty),
            tasks: m.tasks.update(
                i,
                (
                    task,
                    TaskView {
                        name: m.tasks[i].1.name,
                        processors: m.tasks[i].1.processors.push(name),
                    },
                ),
            ),
            ..m
        }
    } else {
        m
    }
}

/// Whether a connection touches something at or beneath `x`.
pub open spec fn connection_touches(c: ConnectionView, x: Seq<char>) -> bool {
    is_under(c.from_processor, x) || is_under(c.to_processor, x)
}

pub open spec fn connection_kept(x: Seq<char>) -> spec_fn(ConnectionView) -> bool {
    |c: ConnectionView| !connection_touches(c, x)
}

pub open spec fn setting_kept(x: Seq<char>) -> spec_fn(SettingView) -> bool {
    |s: SettingView| !is_under(s.processor_name, x)
}

pub open spec fn name_kept(x: Seq<char>) -> spec_fn(Seq<char>) -> bool {
    |n: Seq<char>| !is_under(n, x)
}

/// A task without the instances at or beneath `x`.
pub open spec fn task_without(t: (Seq<char>, TaskView), x: Seq<char>) -> (Seq<char>, TaskView) {
    (t.0, TaskView { name: t.1.name, processors: t.1.processors.filter(name_kept(x)) })
}

/// The application without anything at or beneath the dotted name `x`:
/// tasks, instances, their places in task lists, and the connections and
/// settings that refer to them.
pub open spec fn app_delete(m: AppModel, x: Seq<char>) -> AppModel {
    AppModel {
        tasks: pairs_outside(m.tasks, x).map_values(|t: (Seq<char>, TaskView)| task_without(t, x)),
        instances: pairs_outside(m.instances, x),
        connections: m.connections.filter(connection_kept(x)),
        settings: m.settings.filter(setting_kept(x)),
        ..m
    }
}

/// Keeps the connections that do not touch `x`, in order.
fn retain_connections(v: &mut Vec<Connections>, x: &str)
    ensures
        connection_views(final(v)@) == connection_views(old(v)@).filter(connection_kept(x@)),
{
    let ghost orig = connection_views(v@);
    let mut rest: Vec<Connections> = Vec::new();
    std::mem::swap(v, &mut rest);
    let ghost n = rest@.len();
    proof {
        assert(connection_views(v@) =~= orig.take(0).filter(connection_kept(x@)));
    }
    while rest.len() > 0
        invariant
            n == orig.len(),
            rest@.len() <= n,
            connection_views(rest@) =~= orig.skip(n - rest@.len()),
            connection_views(v@) == orig.take(n - rest@.len()).filter(connection_kept(x@)),
        decreases rest@.len(),
    {
        let ghost k = n - rest@.len();
        let ghost before = connection_views(v@);
        let ghost rb = rest@;
        let c = rest.remove(0);
        proof {
            assert(orig.skip(k)[0] == c@);
            assert forall|i: int| 0 <= i < rest@.len() implies #[trigger] connection_views(
                rest@,
            )[i] == orig.skip(k + 1)[i] by {
                assert(rest@[i] == rb[i + 1]);
                assert(connection_views(rb)[i + 1] == orig.skip(k)[i + 1]);
            }
            lemma_filter_take(orig, connection_kept(x@), k);
        }
        if !(under(c.from_processor.as_str(), x) || under(c.to_processor.as_str(), x)) {
            v.push(c);
            proof {
                assert(connection_views(v@) =~= before.push(orig[k]));
            }
        }
    }
    proof {
        assert(orig.take(n as int) =~= orig);
    }
}

/// Keeps the settings that do not refer to `x`, in order.
fn retain_settings(v: &mut Vec<Settings>, x: &str)
    ensures
        setting_views(final(v)@) == setting_views(old(v)@).filter(setting_kept(x@)),
{
    let ghost orig = setting_views(v@);
    let mut rest: Vec<Settings> = Vec::new();
    std::mem::swap(v, &mut rest);
    let ghost n = rest@.len();
    proof {
        assert(setting_views(v@) =~= orig.take(0).filter(setting_kept(x@)));
    }
    while rest.len() > 0
        invariant
            n == orig.len(),
            rest@.len() <= n,
            setting_views(rest@) =~= orig.skip(n - rest@.len()),
            setting_views(v@) == orig.take(n - rest@.len()).filter(setting_kept(x@)),
        decreases rest@.len(),
    {
        let ghost k = n - rest@.len();
        let ghost before = setting_views(v@);
        let ghost rb = rest@;
        let c = rest.remove(0);
        proof {
            assert(orig.skip(k)[0] == c@);
            assert forall|i: int| 0 <= i < rest@.len() implies #[trigger] setting_views(rest@)[i]
                == orig.skip(k + 1)[i] by {
                assert(rest@[i] == rb[i + 1]);
                assert(setting_views(rb)[i + 1] == orig.skip(k)[i + 1]);
            }
            lemma_filter_take(orig, setting_kept(x@), k);
        }
        if !under(c.processor_name.as_str(), x) {
            v.push(c);
            proof {
                assert(setting_views(v@) =~= before.push(orig[k]));
            }
        }
    }
    proof {
        assert(orig.take(n as int) =~= orig);
    }
}

/// Keeps the names that are neither `x` nor beneath it, in order.
fn retain_names(v: &mut Vec<String>, x: &str)
    ensures
        views(final(v)@) == views(old(v)@).filter(name_kept(x@)),
{
    let ghost orig = views(v@);
    let mut rest: Vec<String> = Vec::new();
    std::mem::swap(v, &mut rest);
    let ghost n = rest@.len();
    proof {
        assert(views(v@) =~= orig.take(0).filter(name_kept(x@)));
    }
    while rest.len() > 0
        invariant
            n == orig.len(),
            rest@.len() <= n,
            views(rest@) =~= orig.skip(n - rest@.len()),
            views(v@) == orig.take(n - rest@.len()).filter(name_kept(x@)),
        decreases rest@.len(),
    {
        let ghost k = n - rest@.len();
        let ghost before = views(v@);
        let ghost rb = rest@;
        let c = rest.remove(0);
        proof {
            assert(orig.skip(k)[0] == c@);
            assert forall|i: int| 0 <= i < rest@.len() implies #[trigger] views(rest@)[i]
                == orig.skip(k + 1)[i] by {
                assert(rest@[i] == rb[i + 1]);
                assert(views(rb)[i + 1] == orig.skip(k)[i + 1]);
            }
            lemma_filter_take(orig, name_kept(x@), k);
        }
        if !under(c.as_str(), x) {
            v.push(c);
            proof {
                assert(views(v@) =~= before.push(orig[k]));
            }
        }
    }
    proof {
        assert(orig.take(n as int) =~= orig);
    }
}

impl MainCoder {
    pub open spec fn wf(&self) -> bool {
        app_model_wf(self@)
    }

    /// An application generator for the application at `path`, with nothing
    /// declared.
    pub fn new(path: String) -> (r: Self)
        ensures
            r.wf(),
            r@ == (AppModel {
                tasks: Seq::empty(),
                instances: Seq::empty(),
                connections: Seq::empty(),
                settings: Seq::empty(),
                codes: no_codes(MAIN_PARTS as int),
                crate_path: path@,
                file_path: application_file(path@),
            }),
    {
        let file_path = cat(path.as_str(), "/src/main.rs");
        let r = MainCoder {
            task_proc: StrMap::new(),
            stream_proc: StrMap::new(),
            connections: Vec::new(),
            settings: Vec::new(),
            user_codes: empty_sections(MAIN_PARTS),
            crate_path: path,
            file_path,
        };
        proof {
            assert(connection_views(r.connections@) =~= Seq::<ConnectionView>::empty());
            assert(setting_views(r.settings@) =~= Seq::<SettingView>::empty());
        }
        r
    }

    /// An application generator from its parts, if tasks and instances have
    /// distinct names and there is a slot for each section.
    pub fn from_parts(
        task_proc: StrMap<TaskProcessor>,
        stream_proc: StrMap<String>,
        connections: Vec<Connections>,
        settings: Vec<Settings>,
        user_codes: Vec<Option<String>>,
        crate_path: String,
        file_path: String,
    ) -> (r: Option<Self>)
        ensures
            match r {
                Some(g) => g.wf() && g@ == (AppModel {
                    tasks: task_proc.pairs(),
                    instances: stream_proc.pairs(),
                    connections: connection_views(connections@),
                    settings: setting_views(settings@),
                    codes: user_codes@.map_values(|c: Option<String>| opt_view(c)),
                    crate_path: crate_path@,
                    file_path: file_path@,
                }),
                None => !(task_proc.wf() && stream_proc.wf() && user_codes@.len() == MAIN_PARTS),
            },
    {
        if !(task_proc.has_unique_keys() && stream_proc.has_unique_keys() && user_codes.len()
            == MAIN_PARTS) {
            return None;
        }
        Some(
            MainCoder {
                task_proc,
                stream_proc,
                connections,
                settings,
                user_codes,
                crate_path,
                file_path,
            },
        )
    }

    /// Whether the generator is well formed.
    pub fn is_well_formed(&self) -> (r: bool)
        ensures
            r == self.wf(),
    {
        self.task_proc.has_unique_keys() && self.stream_proc.has_unique_keys()
            && self.user_codes.len() == MAIN_PARTS
    }

    pub fn get_tasks(&self) -> (r: &StrMap<TaskProcessor>)
        ensures
            r.pairs() == self@.tasks,
    {
        &self.task_proc
    }

    pub fn get_instances(&self) -> (r: &StrMap<String>)
        ensures
            r.pairs() == self@.instances,
    {
        &self.stream_proc
    }

    pub fn get_connections(&self) -> (r: &Vec<Connections>)
        ensures
            connection_views(r@) == self@.connections,
    {
        &self.connections
    }

    pub fn get_settings(&self) -> (r: &Vec<Settings>)
        ensures
            setting_views(r@) == self@.settings,
    {
        &self.settings
    }

    /// The user code of every section, by identifier.
    pub fn get_codes(&self) -> (r: &Vec<Option<String>>)
        ensures
            r@.map_values(|c: Option<String>| opt_view(c)) == self@.codes,
    {
        &self.user_codes
    }

    /// The directory of the application.
    pub fn get_path(&self) -> (r: &String)
        ensures
            r@ == self@.crate_path,
    {
        &self.crate_path
    }

    /// The main file of the application.
    pub fn get_file_path(&self) -> (r: &String)
        ensures
            r@ == self@.file_path,
    {
        &self.file_path
    }

    /// Declares a task with no instances, replacing any task of that name.
    pub fn add_task_processor(&mut self, task_name: String)
        requires
            old(self).wf(),
        ensures
            final(self).wf(),
            final(self)@ == (AppModel {
                tasks: pairs_insert(
                    old(self)@.tasks,
                    task_name@,
                    TaskView { name: task_name@, processors: Seq::empty() },
                ),
                ..old(self)@
            }),
    {
        let t = TaskProcessor { name: task_name.clone(), stream_processors: Vec::new() };
        proof {
            assert(t@.processors =~= Seq::<Seq<char>>::empty());
        }
        self.task_proc.insert(task_name, t);
    }

    /// Declares the processor instance `proc_name` (a dotted name whose
    /// parent is its task) of block type `proc_type`.
    pub fn add_stream_processor(&mut self, proc_name: String, proc_type: String)
        requires
            old(self).wf(),
        ensures
            final(self).wf(),
            final(self)@ == app_add_instance(old(self)@, proc_name@, proc_type@),
    {
        let (task, _) = split_last(proc_name.as_str());
        match self.task_proc.index_of(task.as_str()) {
            Some(i) => {
                let ghost t0 = self@.tasks;
                self.stream_proc.insert(proc_name.clone(), proc_type);
                let (k, mut t) = self.task_proc.remove_at(i);
                let ghost procs = views(t.stream_processors@);
                t.stream_processors.push(proc_name);
                proof {
                    assert(views(t.stream_processors@) =~= procs.push(proc_name@));
                }
                self.task_proc.insert_at(i, k, t);
                proof {
                    assert(self@.tasks =~= t0.update(
                        i as int,
                        (task@, TaskView { name: t0[i as int].1.name, processors: procs.push(proc_name@) }),
                    ));
                }
            },
            None => {},
        }
    }

    /// Records a connection.
    pub fn add_connection(
        &mut self,
        from_proc: String,
        from_output: String,
        to_proc: String,
        to_input: String,
    )
        requires
            old(self).wf(),
        ensures
            final(self).wf(),
            final(self)@ == (AppModel {
                connections: old(self)@.connections.push(
                    ConnectionView {
                        from_processor: from_proc@,
                        from_output: from_output@,
                        to_processor: to_proc@,
                        to_input: to_input@,
                    },
                ),
                ..old(self)@
            }),
    {
        let ghost before = self@.connections;
        self.connections.push(
            Connections { from_processor: from_proc, from_output, to_processor: to_proc, to_input },
        );
        proof {
            assert(self@.connections =~= before.push(self.connections@.last()@));
        }
    }

    /// Records a setting of a processor instance.
    pub fn add_setting_value(
        &mut self,
        proc_name: String,
        settable_type: String,
        settable_name: String,
        value: String,
    )
        requires
            old(self).wf(),
        ensures
            final(self).wf(),
            final(self)@ == (AppModel {
                settings: old(self)@.settings.push(
                    SettingView {
                        processor_name: proc_name@,
                        settable_type: settable_type@,
                        settable_name: settable_name@,
                        value: value@,
                    },
                ),
                ..old(self)@
            }),
    {
        let ghost before = self@.settings;
        self.settings.push(
            Settings { processor_name: proc_name, settable_type, settable_name, value },
        );
        proof {
            assert(self@.settings =~= before.push(self.settings@.last()@));
        }
    }

    /// Sets the user code of section `part`, replacing any earlier code.
    pub fn add_code_section(&mut self, part: MainCoderParts, code: String)
        requires
            old(self).wf(),
        ensures
            final(self).wf(),
            final(self)@ == (AppModel {
                codes: old(self)@.codes.update(main_part_index(part), Some(code@)),
                ..old(self)@
            }),
    {
        let i = part.index();
        let ghost c = code@;
        self.user_codes.set(i, Some(code));
        proof {
            assert(self@.codes =~= old(self)@.codes.update(main_part_index(part), Some(c)));
        }
    }

    /// Removes the task or instance `object_name` and everything beneath it,
    /// together with the connections and settings that refer to them.
    pub fn delete_object(&mut self, object_name: &String)
        requires
            old(self).wf(),
        ensures
            final(self).wf(),
            final(self)@ == app_delete(old(self)@, object_name@),
    {
        let x = object_name.as_str();
        self.task_proc.remove_under(x);
        self.stream_proc.remove_under(x);
        retain_connections(&mut self.connections, x);
        retain_settings(&mut self.settings, x);
        let ghost kept = self.task_proc.pairs();
        let ghost others = self@;
        let mut i: usize = 0;
        while i < self.task_proc.len()
            invariant
                self.task_proc.wf(),
                self@.instances == others.instances,
                self@.connections == others.connections,
                self@.settings == others.settings,
                self@.codes == others.codes,
                self@.crate_path == others.crate_path,
                self@.file_path == others.file_path,
                crate::strmap::unique_keys(self@.instances),
                0 <= i <= self.task_proc.pairs().len(),
                self.task_proc.pairs().len() == kept.len(),
                self.task_proc.pairs() == kept.take(i as int).map_values(
                    |t: (Seq<char>, TaskView)| task_without(t, x@),
                ) + kept.skip(i as int),
            decreases self.task_proc.pairs().len() - i,
        {
            let ghost before = self.task_proc.pairs();
            let (k, mut t) = self.task_proc.remove_at(i);
            retain_names(&mut t.stream_processors, x);
            self.task_proc.insert_at(i, k, t);
            proof {
                assert(before[i as int] == kept[i as int]);
                assert(self.task_proc.pairs() =~= kept.take(i + 1).map_values(
                    |t: (Seq<char>, TaskView)| task_without(t, x@),
                ) + kept.skip(i + 1));
            }
            i = i + 1;
        }
        proof {
            assert(kept.take(kept.len() as int) =~= kept);
            assert(kept.skip(kept.len() as int) =~= Seq::<(Seq<char>, TaskView)>::empty());
            assert(self@.tasks =~= pairs_outside(old(self)@.tasks, x@).map_values(
                |t: (Seq<char>, TaskView)| task_without(t, x@),
            ));
            assert(self@ == app_delete(old(self)@, object_name@));
        }
    }
}

/// The user code of section `p`.
pub open spec fn app_code(m: AppModel, p: MainCoderParts) -> Option<Seq<char>> {
    m.codes[main_part_index(p)]
}

pub open spec fn app_import_lines() -> Seq<Seq<char>> {
    seq![
        "use processor_engine::log;"@,
        "use processor_engine::logger::{LogLevel, Logger, LogEntry};"@,
        "use processor_engine::task_monitor::TaskManager;"@,
        "use processor_engine::ProcessorEngine;"@,
        "use stream_proc_macro::StreamBlockMacro;"@,
        "use data_model::streaming_data::{StreamingError, StreamingState};"@,
        "use data_model::memory_manager::{DataTrait, StaticsTrait, State, Parameter, Statics};"@,
        "use processor_engine::stream_processor::{StreamBlock, StreamBlockDyn, StreamProcessor};"@,
        "use processor_engine::connectors::{ConnectorTrait, Input, Output};"@,
    ]
}

/// The construction and registration of one processor instance.
pub open spec fn creation_lines(e: (Seq<char>, Seq<char>)) -> Seq<Seq<char>> {
    seq![
        "    let mut "@ + ident_of(e.0) + " = "@ + e.1 + "::new(\""@ + e.0 + "\");"@,
        "    processor_engine.register_processor(\""@ + e.0 + "\", Box::new("@ + ident_of(e.0)
            + ")).unwrap();"@,
    ]
}

pub open spec fn all_creation_lines(s: Seq<(Seq<char>, Seq<char>)>) -> Seq<Seq<char>>
    decreases s.len(),
{
    if s.len() == 0 {
        Seq::empty()
    } else {
        all_creation_lines(s.drop_last()) + creation_lines(s.last())
    }
}

/// The setup call of one setting: one for a parameter, one for a static,
/// none for anything else.
pub open spec fn setup_lines(s: SettingView) -> Seq<Seq<char>> {
    if s.settable_type == "parameter"@ {
        seq![
            "    "@ + ident_of(s.processor_name) + ".set_parameter_value(\""@ + s.settable_name
                + "\", "@ + s.value + ").unwrap();"@,
        ]
    } else if s.settable_type == "static"@ {
        seq![
            "    "@ + ident_of(s.processor_name) + ".set_statics_value(\""@ + s.settable_name
                + "\", "@ + s.value + ").unwrap();"@,
        ]
    } else {
        Seq::empty()
    }
}

pub open spec fn all_setup_lines(s: Seq<SettingView>) -> Seq<Seq<char>>
    decreases s.len(),
{
    if s.len() == 0 {
        Seq::empty()
    } else {
        all_setup_lines(s.drop_last()) + setup_lines(s.last())
    }
}

/// The wiring of one connection.
pub open spec fn wiring_lines(c: ConnectionView) -> Seq<Seq<char>> {
    seq![
        "    let sender = "@ + ident_of(c.to_processor) + ".get_input::<_>(\""@ + c.to_input
            + "\").unwrap().sender;"@,
        "    "@ + ident_of(c.from_processor) + ".connect::<_>(\""@ + c.from_output
            + "\", sender).unwrap();"@,
    ]
}

pub open spec fn all_wiring_lines(s: Seq<ConnectionView>) -> Seq<Seq<char>>
    decreases s.len(),
{
    if s.len() == 0 {
        Seq::empty()
    } else {
        all_wiring_lines(s.drop_last()) + wiring_lines(s.last())
    }
}

/// The call that processes one instance within a task.
pub open spec fn process_line(p: Seq<char>) -> Seq<char> {
    "        processor_engine.process(\""@ + p + "\").unwrap();"@
}

/// The block of one task: it processes its instances in order.
pub open spec fn task_lines(t: (Seq<char>, TaskView)) -> Seq<Seq<char>> {
    seq!["    task_manager.spawn_task(\""@ + t.0 + "\", move || {"@] + t.1.processors.map_values(
        |p: Seq<char>| process_line(p),
    ) + seq!["    });"@]
}

pub open spec fn all_task_lines(s: Seq<(Seq<char>, TaskView)>) -> Seq<Seq<char>>
    decreases s.len(),
{
    if s.len() == 0 {
        Seq::empty()
    } else {
        all_task_lines(s.drop_last()) + task_lines(s.last())
    }
}

pub open spec fn render_app_head(m: AppModel) -> Seq<char> {
    join_lines(app_import_lines() + optional_line(app_code(m, MainCoderParts::HeadMain)))
}

pub open spec fn render_app_user(m: AppModel) -> Seq<char> {
    join_lines(
        seq!["// User-defined code section"@] + optional_line(
            app_code(m, MainCoderParts::UsedDefinedCode),
        ),
    )
}

pub open spec fn render_creation(m: AppModel) -> Seq<char> {
    join_lines(
        seq![
            "    // Processor creation"@,
            "    let mut processor_engine = ProcessorEngine::get().lock().unwrap();"@,
        ] + all_creation_lines(m.instances) + optional_line(
            app_code(m, MainCoderParts::StreamProcessorCreation),
        ),
    )
}

pub open spec fn render_setup(m: AppModel) -> Seq<char> {
    join_lines(
        all_setup_lines(m.settings) + optional_line(
            app_code(m, MainCoderParts::StreamProcessorSetup),
        ),
    )
}

pub open spec fn render_wiring(m: AppModel) -> Seq<char> {
    join_lines(
        all_wiring_lines(m.connections) + optional_line(
            app_code(m, MainCoderParts::StreamProcessorConnection),
        ) + optional_line(app_code(m, MainCoderParts::StreamProcessorUserCode)),
    )
}

pub open spec fn render_app_init(m: AppModel) -> Seq<char> {
    join_lines(
        seq!["    processor_engine.init().unwrap();"@] + optional_line(
            app_code(m, MainCoderParts::StreamInit),
        ),
    )
}

pub open spec fn render_app_run(m: AppModel) -> Seq<char> {
    join_lines(
        seq!["    let mut task_manager = TaskManager::get().lock().unwrap();"@] + all_task_lines(
            m.tasks,
        ) + optional_line(app_code(m, MainCoderParts::StreamRun)),
    )
}

pub open spec fn render_app_stop(m: AppModel) -> Seq<char> {
    join_lines(
        seq!["    processor_engine.stop().unwrap();"@] + optional_line(
            app_code(m, MainCoderParts::StreamStop),
        ),
    )
}

/// The whole main file of an application: header, user section, then in
/// `main` the instances, their settings, their wiring, init, one block per
/// task, and stop.
pub open spec fn render_app(m: AppModel) -> Seq<char> {
    join_lines(
        seq![
            "// Auto-generated main.rs file"@,
            render_app_head(m),
            render_app_user(m),
            "fn main() {"@,
            render_creation(m),
            render_setup(m),
            render_wiring(m),
            render_app_init(m),
            render_app_run(m),
            render_app_stop(m),
            "}"@,
        ],
    )
}

impl MainCoder {
    fn code(&self, part: MainCoderParts) -> (r: &Option<String>)
        requires
            self.wf(),
        ensures
            opt_view(*r) == app_code(self@, part),
    {
        &self.user_codes[part.index()]
    }

    fn create_file_head_block(&self) -> (r: String)
        requires
            self.wf(),
        ensures
            r@ == render_app_head(self@),
    {
        let mut lines: Vec<String> = Vec::new();
        push_line(&mut lines, String::from_str("use processor_engine::log;"));
        push_line(&mut lines, String::from_str("use processor_engine::logger::{LogLevel, Logger, LogEntry};"));
        push_line(&mut lines, String::from_str("use processor_engine::task_monitor::TaskManager;"));
        push_line(&mut lines, String::from_str("use processor_engine::ProcessorEngine;"));
        push_line(&mut lines, String::from_str("use stream_proc_macro::StreamBlockMacro;"));
        push_line(&mut lines, String::from_str("use data_model::streaming_data::{StreamingError, StreamingState};"));
        push_line(&mut lines, String::from_str("use data_model::memory_manager::{DataTrait, StaticsTrait, State, Parameter, Statics};"));
        push_line(&mut lines, String::from_str("use processor_engine::stream_processor::{StreamBlock, StreamBlockDyn, StreamProcessor};"));
        push_line(&mut lines, String::from_str("use processor_engine::connectors::{ConnectorTrait, Input, Output};"));
        proof {
            assert(views(lines@) =~= app_import_lines());
        }
        push_optional(&mut lines, self.code(MainCoderParts::HeadMain));
        join_lines_of(&lines)
    }

    fn create_user_section_block(&self) -> (r: String)
        requires
            self.wf(),
        ensures
            r@ == render_app_user(self@),
    {
        let mut lines: Vec<String> = Vec::new();
        push_line(&mut lines, String::from_str("// User-defined code section"));
        proof {
            assert(views(lines@) =~= seq!["// User-defined code section"@]);
        }
        push_optional(&mut lines, self.code(MainCoderParts::UsedDefinedCode));
        join_lines_of(&lines)
    }

    fn create_stream_processor_creation_block(&self) -> (r: String)
        requires
            self.wf(),
        ensures
            r@ == render_creation(self@),
    {
        let mut lines: Vec<String> = Vec::new();
        push_line(&mut lines, String::from_str("    // Processor creation"));
        push_line(&mut lines, String::from_str("    let mut processor_engine = ProcessorEngine::get().lock().unwrap();"));
        let ghost head = views(lines@);
        let ghost inst = self@.instances;
        let mut i: usize = 0;
        while i < self.stream_proc.len()
            invariant
                0 <= i <= inst.len(),
                inst == self.stream_proc.pairs(),
                views(lines@) == head + all_creation_lines(inst.take(i as int)),
            decreases inst.len() - i,
        {
            let name = self.stream_proc.key_at(i).as_str();
            let ty = self.stream_proc.value_at(i).as_str();
            let id = ident(name);
            let mut l1 = cat3("    let mut ", id.as_str(), " = ");
            l1.append(ty);
            l1.append("::new(\"");
            l1.append(name);
            l1.append("\");");
            push_line(&mut lines, l1);
            let mut l2 = cat3("    processor_engine.register_processor(\"", name, "\", Box::new(");
            l2.append(id.as_str());
            l2.append(")).unwrap();");
            push_line(&mut lines, l2);
            proof {
                assert(inst.take(i + 1).drop_last() =~= inst.take(i as int));
                assert(head + all_creation_lines(inst.take(i + 1)) =~= head + all_creation_lines(
                    inst.take(i as int),
                ) + creation_lines(inst[i as int]));
            }
            i = i + 1;
        }
        proof {
            assert(inst.take(inst.len() as int) =~= inst);
        }
        push_optional(&mut lines, self.code(MainCoderParts::StreamProcessorCreation));
        proof {
            assert(head =~= seq![
                "    // Processor creation"@,
                "    let mut processor_engine = ProcessorEngine::get().lock().unwrap();"@,
            ]);
        }
        join_lines_of(&lines)
    }

    fn create_stream_processor_setup_block(&self) -> (r: String)
        requires
            self.wf(),
        ensures
            r@ == render_setup(self@),
    {
        let mut lines: Vec<String> = Vec::new();
        let ghost st = self@.settings;
        proof {
            assert(views(lines@) =~= all_setup_lines(st.take(0)));
        }
        let mut i: usize = 0;
        while i < self.settings.len()
            invariant
                0 <= i <= st.len(),
                st == setting_views(self.settings@),
                views(lines@) == all_setup_lines(st.take(i as int)),
            decreases st.len() - i,
        {
            let s = &self.settings[i];
            let ghost before = views(lines@);
            let id = ident(s.processor_name.as_str());
            proof {
                reveal_strlit("parameter");
                reveal_strlit("static");
                assert(st[i as int] == s@);
            }
            if same_text(s.settable_type.as_str(), "parameter") {
                let mut l = cat3("    ", id.as_str(), ".set_parameter_value(\"");
                l.append(s.settable_name.as_str());
                l.append("\", ");
                l.append(s.value.as_str());
                l.append(").unwrap();");
                push_line(&mut lines, l);
            } else if same_text(s.settable_type.as_str(), "static") {
                let mut l = cat3("    ", id.as_str(), ".set_statics_value(\"");
                l.append(s.settable_name.as_str());
                l.append("\", ");
                l.append(s.value.as_str());
                l.append(").unwrap();");
                push_line(&mut lines, l);
            }
            proof {
                assert(st.take(i + 1).drop_last() =~= st.take(i as int));
                assert(views(lines@) =~= before + setup_lines(st[i as int]));
            }
            i = i + 1;
        }
        proof {
            assert(st.take(st.len() as int) =~= st);
        }
        push_optional(&mut lines, self.code(MainCoderParts::StreamProcessorSetup));
        join_lines_of(&lines)
    }

    fn create_stream_processor_connection_block(&self) -> (r: String)
        requires
            self.wf(),
        ensures
            r@ == render_wiring(self@),
    {
        let mut lines: Vec<String> = Vec::new();
        let ghost cs = self@.connections;
        proof {
            assert(views(lines@) =~= all_wiring_lines(cs.take(0)));
        }
        let mut i: usize = 0;
        while i < self.connections.len()
            invariant
                0 <= i <= cs.len(),
                cs == connection_views(self.connections@),
                views(lines@) == all_wiring_lines(cs.take(i as int)),
            decreases cs.len() - i,
        {
            let c = &self.connections[i];
            let ghost before = views(lines@);
            let mut l1 = cat3("    let sender = ", ident(c.to_processor.as_str()).as_str(), ".get_input::<_>(\"");
            l1.append(c.to_input.as_str());
            l1.append("\").unwrap().sender;");
            push_line(&mut lines, l1);
            let mut l2 = cat3("    ", ident(c.from_processor.as_str()).as_str(), ".connect::<_>(\"");
            l2.append(c.from_output.as_str());
            l2.append("\", sender).unwrap();");
            push_line(&mut lines, l2);
            proof {
                assert(cs[i as int] == c@);
                assert(cs.take(i + 1).drop_last() =~= cs.take(i as int));
                assert(views(lines@) =~= before + wiring_lines(cs[i as int]));
            }
            i = i + 1;
        }
        proof {
            assert(cs.take(cs.len() as int) =~= cs);
        }
        push_optional(&mut lines, self.code(MainCoderParts::StreamProcessorConnection));
        push_optional(&mut lines, self.code(MainCoderParts::StreamProcessorUserCode));
        join_lines_of(&lines)
    }

    fn create_stream_init_block(&self) -> (r: String)
        requires
            self.wf(),
        ensures
            r@ == render_app_init(self@),
    {
        let mut lines: Vec<String> = Vec::new();
        push_line(&mut lines, String::from_str("    processor_engine.init().unwrap();"));
        proof {
            assert(views(lines@) =~= seq!["    processor_engine.init().unwrap();"@]);
        }
        push_optional(&mut lines, self.code(MainCoderParts::StreamInit));
        join_lines_of(&lines)
    }

    fn create_stream_run_block(&self) -> (r: String)
        requires
            self.wf(),
        ensures
            r@ == render_app_run(self@),
    {
        let mut lines: Vec<String> = Vec::new();
        push_line(&mut lines, String::from_str("    let mut task_manager = TaskManager::get().lock().unwrap();"));
        let ghost head = views(lines@);
        let ghost ts = self@.tasks;
        let mut i: usize = 0;
        while i < self.task_proc.len()
            invariant
                0 <= i <= ts.len(),
                ts == self.task_proc.pairs(),
                views(lines@) == head + all_task_lines(ts.take(i as int)),
            decreases ts.len() - i,
        {
            let ghost before = views(lines@);
            let task = self.task_proc.key_at(i);
            let procs = &self.task_proc.value_at(i).stream_processors;
            push_line(&mut lines, cat3("    task_manager.spawn_task(\"", task.as_str(), "\", move || {"));
            let ghost mid = views(lines@);
            let mut j: usize = 0;
            while j < procs.len()
                invariant
                    0 <= j <= procs@.len(),
                    views(lines@) == mid + views(procs@).take(j as int).map_values(
                        |p: Seq<char>| process_line(p),
                    ),
                decreases procs@.len() - j,
            {
                push_line(&mut lines, cat3("        processor_engine.process(\"", procs[j].as_str(), "\").unwrap();"));
                proof {
                    assert(views(procs@).take(j + 1).map_values(|p: Seq<char>| process_line(p))
                        =~= views(procs@).take(j as int).map_values(|p: Seq<char>| process_line(p)).push(
                        process_line(views(procs@)[j as int])));
                }
                j = j + 1;
            }
            push_line(&mut lines, String::from_str("    });"));
            proof {
                assert(views(procs@).take(procs@.len() as int) =~= views(procs@));
                assert(ts[i as int].1.processors == views(procs@));
                assert(ts.take(i + 1).drop_last() =~= ts.take(i as int));
                assert(views(lines@) =~= before + task_lines(ts[i as int]));
            }
            i = i + 1;
        }
        proof {
            assert(ts.take(ts.len() as int) =~= ts);
        }
        push_optional(&mut lines, self.code(MainCoderParts::StreamRun));
        proof {
            assert(head =~= seq!["    let mut task_manager = TaskManager::get().lock().unwrap();"@]);
        }
        join_lines_of(&lines)
    }

    fn create_stream_stop_block(&self) -> (r: String)
        requires
            self.wf(),
        ensures
            r@ == render_app_stop(self@),
    {
        let mut lines: Vec<String> = Vec::new();
        push_line(&mut lines, String::from_str("    processor_engine.stop().unwrap();"));
        proof {
            assert(views(lines@) =~= seq!["    processor_engine.stop().unwrap();"@]);
        }
        push_optional(&mut lines, self.code(MainCoderParts::StreamStop));
        join_lines_of(&lines)
    }

    /// Renders the application's main file.
    pub fn generate(&self) -> (r: String)
        requires
            self.wf(),
        ensures
            r@ == render_app(self@),
    {
        let mut parts: Vec<String> = Vec::new();
        push_line(&mut parts, String::from_str("// Auto-generated main.rs file"));
        push_line(&mut parts, self.create_file_head_block());
        push_line(&mut parts, self.create_user_section_block());
        push_line(&mut parts, String::from_str("fn main() {"));
        push_line(&mut parts, self.create_stream_processor_creation_block());
        push_line(&mut parts, self.create_stream_processor_setup_block());
        push_line(&mut parts, self.create_stream_processor_connection_block());
        push_line(&mut parts, self.create_stream_init_block());
        push_line(&mut parts, self.create_stream_run_block());
        push_line(&mut parts, self.create_stream_stop_block());
        push_line(&mut parts, String::from_str("}"));
        proof {
            let m = self@;
            assert(views(parts@) =~= seq![
                "// Auto-generated main.rs file"@,
                render_app_head(m),
                render_app_user(m),
                "fn main() {"@,
                render_creation(m),
                render_setup(m),
                render_wiring(m),
                render_app_init(m),
                render_app_run(m),
                render_app_stop(m),
                "}"@,
            ]);
        }
        join_lines_of(&parts)
    }
}

} // verus!
