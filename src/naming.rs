//! Entity categories, their command keywords, and the snake-case form used
//! for generated module names.

use vstd::prelude::*;
use crate::text::same_text;

verus! {

/// The category of an entity of the project graph.
#[derive(Clone, Copy, Debug, PartialEq, Eq, Structural)]
pub enum ObjectCategory {
    Library,
    ProcessorBlock,
    Input,
    Output,
    State,
    Static,
    Parameter,
    Application,
    Task,
    ProcessorInstance,
    Connection,
    Setting,
}

/// The keyword that names a category in commands.
pub open spec fn category_keyword(c: ObjectCategory) -> Seq<char> {
    match c {
        ObjectCategory::Library => "library"@,
        ObjectCategory::ProcessorBlock => "processor_block"@,
        ObjectCategory::Input => "input"@,
        ObjectCategory::Output => "output"@,
        ObjectCategory::State => "state"@,
        ObjectCategory::Static => "static"@,
        ObjectCategory::Parameter => "parameter"@,
        ObjectCategory::Application => "application"@,
        ObjectCategory::Task => "task"@,
        ObjectCategory::ProcessorInstance => "processor_instance"@,
        ObjectCategory::Connection => "connection"@,
        ObjectCategory::Setting => "setting"@,
    }
}

pub open spec fn is_upper(c: char) -> bool {
    'A' <= c && c <= 'Z'
}

pub open spec fn is_lower(c: char) -> bool {
    'a' <= c && c <= 'z'
}

/// The ASCII lower-case form of a character; other characters are kept.
pub open spec fn lower(c: char) -> char {
    if is_upper(c) {
        ((c as u32) + 32) as char
    } else {
        c
    }
}

/// The snake-case form of the first `n` characters of `s`: an upper-case
/// letter is lowered, and an underscore goes before it when something was
/// already written and either a lower-case letter follows it or the last
/// written character is neither upper-case nor an underscore.
pub open spec fn snake_prefix(s: Seq<char>, n: int) -> Seq<char>
    decreases n,
{
    if n <= 0 {
        Seq::empty()
    } else {
        let out = snake_prefix(s, n - 1);
        let c = s[n - 1];
        if is_upper(c) {
            let next_lower = n < s.len() && is_lower(s[n]);
            let sep = out.len() > 0 && (next_lower || (!is_upper(out.last()) && out.last() != '_'));
            if sep {
                out.push('_').push(lower(c))
            } else {
                out.push(lower(c))
            }
        } else {
            out.push(c)
        }
    }
}

/// The snake-case form of `s`.
pub open spec fn snake_case(s: Seq<char>) -> Seq<char> {
    snake_prefix(s, s.len() as int)
}

fn lower_char(c: char) -> (r: char)
    ensures
        r == lower(c),
{
    if 'A' <= c && c <= 'Z' {
        let b: u8 = c as u8;
        (b + 32) as char
    } else {
        c
    }
}

/// Converts a CamelCase name into snake_case.
pub fn to_snake_case(s: &str) -> (r: String)
    ensures
        r@ == snake_case(s@),
{
    let n = s.unicode_len();
    let mut result = String::new();
    let mut last: char = ' ';
    let mut i: usize = 0;
    while i < n
        invariant
            n == s@.len(),
            0 <= i <= n,
            result@ == snake_prefix(s@, i as int),
            result@.len() > 0 ==> last == result@.last(),
        decreases n - i,
    {
        let c = s.get_char(i);
        if 'A' <= c && c <= 'Z' {
            if result.as_str().unicode_len() > 0 {
                let next_lower = i + 1 < n && {
                    let d = s.get_char(i + 1);
                    'a' <= d && d <= 'z'
                };
                if next_lower || (!('A' <= last && last <= 'Z') && last != '_') {
                    result.push('_');
                }
            }
            let l = lower_char(c);
            result.push(l);
            last = l;
        } else {
            result.push(c);
            last = c;
        }
        i = i + 1;
    }
    result
}

impl ObjectCategory {
    /// The keyword that names this category in commands.
    pub fn keyword(&self) -> (r: String)
        ensures
            r@ == category_keyword(*self),
    {
        match self {
            ObjectCategory::Library => String::from_str("library"),
            ObjectCategory::ProcessorBlock => String::from_str("processor_block"),
            ObjectCategory::Input => String::from_str("input"),
            ObjectCategory::Output => String::from_str("output"),
            ObjectCategory::State => String::from_str("state"),
            ObjectCategory::Static => String::from_str("static"),
            ObjectCategory::Parameter => String::from_str("parameter"),
            ObjectCategory::Application => String::from_str("application"),
            ObjectCategory::Task => String::from_str("task"),
            ObjectCategory::ProcessorInstance => String::from_str("processor_instance"),
            ObjectCategory::Connection => String::from_str("connection"),
            ObjectCategory::Setting => String::from_str("setting"),
        }
    }

    /// The category that a keyword names, if any.
    pub fn from_keyword(s: &str) -> (r: Option<ObjectCategory>)
        ensures
            match r {
                Some(c) => s@ == category_keyword(c),
                None => forall|c: ObjectCategory| s@ != category_keyword(c),
            },
    {
        proof {
            reveal_strlit("library");
            reveal_strlit("processor_block");
            reveal_strlit("input");
            reveal_strlit("output");
            reveal_strlit("state");
            reveal_strlit("static");
            reveal_strlit("parameter");
            reveal_strlit("application");
            reveal_strlit("task");
            reveal_strlit("processor_instance");
            reveal_strlit("connection");
            reveal_strlit("setting");
        }
        if same_text(s, "library") {
            Some(ObjectCategory::Library)
        } else if same_text(s, "processor_block") {
            Some(ObjectCategory::ProcessorBlock)
        } else if same_text(s, "input") {
            Some(ObjectCategory::Input)
        } else if same_text(s, "output") {
            Some(ObjectCategory::Output)
        } else if same_text(s, "state") {
            Some(ObjectCategory::State)
        } else if same_text(s, "static") {
            Some(ObjectCategory::Static)
        } else if same_text(s, "parameter") {
            Some(ObjectCategory::Parameter)
        } else if same_text(s, "application") {
            Some(ObjectCategory::Application)
        } else if same_text(s, "task") {
            Some(ObjectCategory::Task)
        } else if same_text(s, "processor_instance") {
            Some(ObjectCategory::ProcessorInstance)
        } else if same_text(s, "connection") {
            Some(ObjectCategory::Connection)
        } else if same_text(s, "setting") {
            Some(ObjectCategory::Setting)
        } else {
            proof {
                assert forall|c: ObjectCategory| s@ != category_keyword(c) by {
                    match c {
                        ObjectCategory::Library => {},
                        ObjectCategory::ProcessorBlock => {},
                        ObjectCategory::Input => {},
                        ObjectCategory::Output => {},
                        ObjectCategory::State => {},
                        ObjectCategory::Static => {},
                        ObjectCategory::Parameter => {},
                        ObjectCategory::Application => {},
                        ObjectCategory::Task => {},
                        ObjectCategory::ProcessorInstance => {},
                        ObjectCategory::Connection => {},
                        ObjectCategory::Setting => {},
                    }
                }
            }
            None
        }
    }
}

/// Whether the dotted name `name` is `x` itself or lies beneath it.
pub open spec fn is_under(name: Seq<char>, x: Seq<char>) -> bool {
    name == x || (name.len() > x.len() && name.take(x.len() as int) == x && name[x.len() as int]
        == '.')
}

/// Whether the dotted name `name` is `x` itself or lies beneath it.
pub fn under(name: &str, x: &str) -> (r: bool)
    ensures
        r == is_under(name@, x@),
{
    let n = name.unicode_len();
    let m = x.unicode_len();
    if n < m {
        return false;
    }
    let mut i: usize = 0;
    while i < m
        invariant
            n == name@.len(),
            m == x@.len(),
            m <= n,
            0 <= i <= m,
            forall|j: int| 0 <= j < i ==> name@[j] == x@[j],
        decreases m - i,
    {
        if name.get_char(i) != x.get_char(i) {
            proof {
                assert(name@.take(m as int)[i as int] != x@[i as int]);
            }
            return false;
        }
        i = i + 1;
    }
    proof {
        assert(name@.take(m as int) =~= x@);
    }
    if n == m {
        proof {
            assert(name@ =~= x@);
        }
        true
    } else {
        name.get_char(m) == '.'
    }
}

/// The position of the last dot of `s`, or -1 where it has none.
pub open spec fn last_dot(s: Seq<char>) -> int
    decreases s.len(),
{
    if s.len() == 0 {
        -1
    } else if s.last() == '.' {
        s.len() - 1
    } else {
        last_dot(s.drop_last())
    }
}

pub proof fn lemma_last_dot(s: Seq<char>)
    ensures
        -1 <= last_dot(s) < s.len(),
        last_dot(s) >= 0 ==> s[last_dot(s)] == '.',
        forall|j: int| last_dot(s) < j < s.len() ==> s[j] != '.',
    decreases s.len(),
{
    if s.len() > 0 && s.last() != '.' {
        lemma_last_dot(s.drop_last());
        assert forall|j: int| last_dot(s) < j < s.len() implies s[j] != '.' by {
            if j < s.len() - 1 {
                assert(s.drop_last()[j] == s[j]);
            }
        }
    }
}

/// The dotted name of the parent of `s`: all but its last segment.
pub open spec fn parent_name(s: Seq<char>) -> Seq<char> {
    if last_dot(s) < 0 {
        Seq::empty()
    } else {
        s.take(last_dot(s))
    }
}

/// The last segment of the dotted name `s`.
pub open spec fn last_segment(s: Seq<char>) -> Seq<char> {
    s.skip(last_dot(s) + 1)
}

/// Splits a dotted name into its parent and its last segment.
pub fn split_last(s: &str) -> (r: (String, String))
    ensures
        r.0@ == parent_name(s@),
        r.1@ == last_segment(s@),
{
    let n = s.unicode_len();
    let mut i: usize = n;
    proof {
        lemma_last_dot(s@);
    }
    while i > 0
        invariant
            n == s@.len(),
            0 <= i <= n,
            forall|j: int| i <= j < n ==> s@[j] != '.',
            last_dot(s@) < i,
            -1 <= last_dot(s@) < n,
            last_dot(s@) >= 0 ==> s@[last_dot(s@)] == '.',
        decreases i,
    {
        if s.get_char(i - 1) == '.' {
            proof {
                if last_dot(s@) < i - 1 {
                    lemma_last_dot(s@);
                }
            }
            let parent = String::from_str(s.substring_char(0, i - 1));
            let last = String::from_str(s.substring_char(i, n));
            proof {
                assert(last_dot(s@) == i - 1);
                assert(last@ =~= last_segment(s@));
            }
            return (parent, last);
        }
        i = i - 1;
    }
    proof {
        assert(last_dot(s@) == -1);
        assert(s@.skip(0) =~= s@);
    }
    (String::new(), String::from_str(s))
}

/// The dotted name as an identifier: each dot becomes an underscore.
pub open spec fn ident_of(s: Seq<char>) -> Seq<char> {
    s.map_values(|c: char| if c == '.' { '_' } else { c })
}

/// Turns a dotted name into an identifier.
pub fn ident(s: &str) -> (r: String)
    ensures
        r@ == ident_of(s@),
{
    let n = s.unicode_len();
    let mut out = String::new();
    let mut i: usize = 0;
    while i < n
        invariant
            n == s@.len(),
            0 <= i <= n,
            out@ == ident_of(s@.take(i as int)),
        decreases n - i,
    {
        let c = s.get_char(i);
        if c == '.' {
            out.push('_');
        } else {
            out.push(c);
        }
        proof {
            assert(ident_of(s@.take(i + 1)) =~= ident_of(s@.take(i as int)).push(
                if c == '.' { '_' } else { c },
            ));
        }
        i = i + 1;
    }
    proof {
        assert(s@.take(n as int) =~= s@);
    }
    out
}

} // verus!
