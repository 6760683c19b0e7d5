//! Properties that hold of every state of the dispatcher and of every
//! statement, proved from the outcomes that the handlers are held to.

use vstd::prelude::*;
use crate::naming::{ObjectCategory, is_under};
use crate::text::{split_on, joined_len, lemma_split_len, lemma_single_segment};
use crate::strmap::{to_map, unique_keys, map_outside, map_inside, lemma_to_map_domain};
use crate::registry::{ErrorKind, GeneratorView, generator_wf};
use crate::parser::{ParserModel, statement_outcome, connect_outcome, delete_outcome, dot2, check_var, instance_of, port_resolves,
    import_project_outcome, is_root_key, root_index, block_entries, has_library, has_application,
    model_wf};
use crate::lib_coder::render_library;
use crate::main_coder::render_app;
use crate::processor_coder::{BlockModel, render_block, block_model_wf};

verus! {

proof fn lemma_three_segments(name: Seq<char>)
    requires
        split_on(name, '.').len() == 3,
    ensures
        split_on(name, '.')[0] != name,
        dot2(split_on(name, '.')[0], split_on(name, '.')[1]) != name,
{
    let s = split_on(name, '.');
    lemma_split_len(name, '.');
    reveal_with_fuel(joined_len, 4);
    reveal_strlit(".");
    assert(s.drop_last().drop_last().drop_last() =~= Seq::<Seq<char>>::empty());
    assert(s.drop_last().drop_last().last() == s[0]);
    assert(s.drop_last().last() == s[1]);
    assert(joined_len(s) == s[0].len() + s[1].len() + s[2].len() + 2);
}

proof fn lemma_two_segments(name: Seq<char>)
    requires
        split_on(name, '.').len() == 2,
    ensures
        split_on(name, '.')[0] != name,
{
    let s = split_on(name, '.');
    lemma_split_len(name, '.');
    reveal_with_fuel(joined_len, 3);
    assert(s.drop_last().drop_last() =~= Seq::<Seq<char>>::empty());
    assert(s.drop_last().last() == s[0]);
    assert(joined_len(s) == s[0].len() + s[1].len() + 1);
}

/// Names are unique: a `create` that succeeded fails when it is issued
/// again, with a conflict, and a failed statement changes nothing.
pub proof fn law_repeated_create_conflicts(m: ParserModel, t: Seq<Seq<char>>)
    requires
        t.len() > 0,
        t[0] == "create"@,
        statement_outcome(m, t) is Ok,
    ensures
        statement_outcome(statement_outcome(m, t)->Ok_0.0, t) == Err::<
            (ParserModel, Seq<crate::registry::EffectView>),
            ErrorKind,
        >(ErrorKind::Conflict),
{
    reveal(statement_outcome);
    reveal_strlit("create");
    reveal_strlit("connect");
    reveal_strlit("set");
    reveal_strlit("delete");
    reveal_strlit("code");
    reveal_strlit("build");
    reveal_strlit("import");
    reveal_strlit("library");
    reveal_strlit("application");
    reveal_strlit("processor_block");
    reveal_strlit("input");
    reveal_strlit("output");
    reveal_strlit("state");
    reveal_strlit("static");
    reveal_strlit("parameter");
    reveal_strlit("task");
    reveal_strlit("processor_instance");
    let m2 = statement_outcome(m, t)->Ok_0.0;
    let s = split_on(t[2], '.');
    if t[1] == "library"@ || t[1] == "application"@ || t[1] == "processor_block"@ || t[1]
        == "task"@ {
        if split_on(t[2], '.').len() == 2 {
            lemma_two_segments(t[2]);
        }
    } else {
        if split_on(t[2], '.').len() == 3 {
            lemma_three_segments(t[2]);
        }
    }
}

/// A port, state or settable slot is created only beneath an existing
/// block of an existing library.
pub proof fn law_member_needs_block(m: ParserModel, t: Seq<Seq<char>>)
    requires
        t.len() > 1,
        t[0] == "create"@,
        t[1] == "input"@ || t[1] == "output"@ || t[1] == "state"@ || t[1] == "static"@ || t[1]
            == "parameter"@,
        statement_outcome(m, t) is Ok,
    ensures
        split_on(t[2], '.').len() == 3,
        check_var(m, split_on(t[2], '.')[0], ObjectCategory::Library) is None,
        check_var(
            m,
            dot2(split_on(t[2], '.')[0], split_on(t[2], '.')[1]),
            ObjectCategory::ProcessorBlock,
        ) is None,
{
    reveal(statement_outcome);
    reveal_strlit("create");
    reveal_strlit("connect");
    reveal_strlit("set");
    reveal_strlit("delete");
    reveal_strlit("code");
    reveal_strlit("build");
    reveal_strlit("import");
    reveal_strlit("library");
    reveal_strlit("application");
    reveal_strlit("processor_block");
    reveal_strlit("input");
    reveal_strlit("output");
    reveal_strlit("state");
    reveal_strlit("static");
    reveal_strlit("parameter");
    reveal_strlit("task");
    reveal_strlit("processor_instance");
}

/// A processor instance is created only beneath an existing task of an
/// existing application.
pub proof fn law_instance_needs_task(m: ParserModel, t: Seq<Seq<char>>)
    requires
        t.len() > 1,
        t[0] == "create"@,
        t[1] == "processor_instance"@,
        statement_outcome(m, t) is Ok,
    ensures
        split_on(t[2], '.').len() == 3,
        check_var(m, split_on(t[2], '.')[0], ObjectCategory::Application) is None,
        check_var(
            m,
            dot2(split_on(t[2], '.')[0], split_on(t[2], '.')[1]),
            ObjectCategory::Task,
        ) is None,
{
    reveal(statement_outcome);
    reveal_strlit("create");
    reveal_strlit("connect");
    reveal_strlit("set");
    reveal_strlit("delete");
    reveal_strlit("code");
    reveal_strlit("build");
    reveal_strlit("import");
    reveal_strlit("library");
    reveal_strlit("application");
    reveal_strlit("processor_block");
    reveal_strlit("input");
    reveal_strlit("output");
    reveal_strlit("state");
    reveal_strlit("static");
    reveal_strlit("parameter");
    reveal_strlit("task");
    reveal_strlit("processor_instance");
}

/// A block is created only beneath an existing library, and a task only
/// beneath an existing application.
pub proof fn law_block_and_task_need_project(m: ParserModel, t: Seq<Seq<char>>)
    requires
        t.len() > 1,
        t[0] == "create"@,
        t[1] == "processor_block"@ || t[1] == "task"@,
        statement_outcome(m, t) is Ok,
    ensures
        split_on(t[2], '.').len() == 2,
        check_var(
            m,
            split_on(t[2], '.')[0],
            if t[1] == "task"@ { ObjectCategory::Application } else { ObjectCategory::Library },
        ) is None,
{
    reveal(statement_outcome);
    reveal_strlit("create");
    reveal_strlit("connect");
    reveal_strlit("set");
    reveal_strlit("delete");
    reveal_strlit("code");
    reveal_strlit("build");
    reveal_strlit("import");
    reveal_strlit("library");
    reveal_strlit("application");
    reveal_strlit("processor_block");
    reveal_strlit("input");
    reveal_strlit("output");
    reveal_strlit("state");
    reveal_strlit("static");
    reveal_strlit("parameter");
    reveal_strlit("task");
    reveal_strlit("processor_instance");
}

/// Rendering is a function of the generator's state: equal states give
/// identical text, so rendering twice without a change in between gives
/// the same file.
pub proof fn law_render_deterministic(a: GeneratorView, b: GeneratorView)
    requires
        a == b,
    ensures
        a is Library ==> render_library(a->Library_0) == render_library(b->Library_0),
        a is Application ==> render_app(a->Application_0) == render_app(b->Application_0),
        a is Block ==> render_block(a->Block_0) == render_block(b->Block_0),
{
}

/// `connect` succeeds only when both instances exist, and the source
/// resolves to an output and the target to an input of their block types.
pub proof fn law_connect_resolves(m: ParserModel, t: Seq<Seq<char>>)
    requires
        t.len() > 0,
        t[0] == "connect"@,
        statement_outcome(m, t) is Ok,
    ensures
        split_on(t[1], '.').len() == 4,
        split_on(t[2], '.').len() == 4,
        check_var(m, instance_of(split_on(t[1], '.')), ObjectCategory::ProcessorInstance) is None,
        check_var(m, instance_of(split_on(t[2], '.')), ObjectCategory::ProcessorInstance) is None,
        port_resolves(
            m,
            m.objects[instance_of(split_on(t[1], '.'))].object_type,
            split_on(t[1], '.')[3],
            ObjectCategory::Output,
        ),
        port_resolves(
            m,
            m.objects[instance_of(split_on(t[2], '.'))].object_type,
            split_on(t[2], '.')[3],
            ObjectCategory::Input,
        ),
{
    reveal(statement_outcome);
    reveal_strlit("create");
    reveal_strlit("connect");
    reveal_strlit("set");
    reveal_strlit("delete");
    reveal_strlit("code");
    reveal_strlit("build");
    reveal_strlit("import");
    reveal_strlit("library");
    reveal_strlit("application");
    reveal_strlit("processor_block");
    reveal_strlit("input");
    reveal_strlit("output");
    reveal_strlit("state");
    reveal_strlit("static");
    reveal_strlit("parameter");
    reveal_strlit("task");
    reveal_strlit("processor_instance");
    assert("connect"@[1] != "create"@[1]);
    assert(t[0] != "create"@);
    assert(statement_outcome(m, t) == connect_outcome(m, t));
}

/// Exporting a project's entries and importing them, with its generator
/// and block generators, after the project was deleted restores every
/// entry and puts back the same generators, which then render the same
/// files.
pub proof fn law_import_round_trip(
    m: ParserModel,
    p: Seq<char>,
    s: Seq<(Seq<char>, crate::registry::ObjectView)>,
    blocks: Seq<BlockModel>,
)
    requires
        model_wf(m),
        m.objects.contains_key(p),
        split_on(p, '.').len() == 1,
        (m.objects[p].category == ObjectCategory::Library && has_library(m, p)) || (
        m.objects[p].category == ObjectCategory::Application && has_application(m, p)),
        unique_keys(s),
        to_map(s) == map_inside(m.objects, p),
        forall|i: int| 0 <= i < blocks.len() ==> block_model_wf(#[trigger] blocks[i]),
    ensures
        ({
            let d = statement_outcome(m, seq!["delete"@, p]);
            &&& d is Ok
            &&& import_project_outcome(d->Ok_0.0, s, m.coders[p], blocks) is Ok
            &&& ({
                let m1 = import_project_outcome(d->Ok_0.0, s, m.coders[p], blocks)->Ok_0;
                &&& m1.objects == m.objects
                &&& m1.coders.contains_key(p)
                &&& (m.coders[p] is Library ==> render_library(m1.coders[p]->Library_0)
                    == render_library(m.coders[p]->Library_0))
                &&& (m.coders[p] is Application ==> render_app(m1.coders[p]->Application_0)
                    == render_app(m.coders[p]->Application_0))
            })
        }),
{
    reveal(statement_outcome);
    reveal_strlit("create");
    reveal_strlit("connect");
    reveal_strlit("set");
    reveal_strlit("delete");
    reveal_strlit("code");
    reveal_strlit("build");
    reveal_strlit("import");
    reveal_strlit("library");
    reveal_strlit("application");
    reveal_strlit("processor_block");
    reveal_strlit("input");
    reveal_strlit("output");
    reveal_strlit("state");
    reveal_strlit("static");
    reveal_strlit("parameter");
    reveal_strlit("task");
    reveal_strlit("processor_instance");
    reveal_strlit(".");
    let t = seq!["delete"@, p];
    assert(t[0] == "delete"@);
    assert(t[1] == p);
    assert(t.len() == 2);
    assert("delete"@[0] != "create"@[0] && "delete"@[0] != "connect"@[0] && "delete"@[0] != "set"@[0]);
    assert(t[0] != "create"@ && t[0] != "connect"@ && t[0] != "set"@);
    assert(statement_outcome(m, t) == delete_outcome(m, t));
    assert(split_on(t[1], '.').len() == 1);
    let d = statement_outcome(m, t);
    let m0 = d->Ok_0.0;
    assert(m0.objects == map_outside(m.objects, p));
    let g = m.coders[p];
    assert(generator_wf(g));
    lemma_to_map_domain(s, p);
    assert(crate::strmap::has_key(s, p));
    let ip = choose|i: int| 0 <= i < s.len() && s[i].0 == p;
    assert(is_root_key(s[ip].0));
    let c = root_index(s);
    assert(is_root_key(s[c].0));
    assert forall|i: int| 0 <= i < s.len() implies is_under(#[trigger] s[i].0, p) by {
        crate::strmap::lemma_to_map_value(s, i);
        assert(to_map(s).contains_key(s[i].0));
    }
    assert(is_under(s[c].0, p));
    lemma_single_segment(s[c].0, '.');
    if s[c].0 != p {
        assert(s[c].0[p.len() as int] == '.');
    }
    assert(s[c].0 == p);
    crate::strmap::lemma_to_map_value(s, c);
    assert(s[c].1 == m.objects[p]);
    assert(!(exists|k: Seq<char>| #[trigger] m0.objects.contains_key(k) && is_under(k, p)));
    let o = import_project_outcome(m0, s, g, blocks);
    assert(o is Ok);
    let m1 = o->Ok_0;
    assert(m1.objects =~= m.objects);
    let be = block_entries(p, blocks);
    assert forall|i: int| 0 <= i < be.len() implies #[trigger] be[i].0 != p by {
        assert(be[i].0 == dot2(p, blocks[i].name));
        assert(dot2(p, blocks[i].name).len() > p.len());
    }
    if crate::strmap::has_key(be, p) {
        let i = choose|i: int| 0 <= i < be.len() && be[i].0 == p;
        assert(be[i].0 != p);
    }
    lemma_to_map_domain(be, p);
    assert(m1.coders[p] == g);
}

} // verus!
