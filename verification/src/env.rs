//! Environment variables and the `.env` files that add to them.

use vstd::prelude::*;

use crate::text;
use crate::text::{
    find_of, lines, lines_of, opt_str, opt_text, same, strip_prefix, strip_prefix_of, texts, trim,
    trim_of,
};

verus! {

/// A set of environment variables.
#[derive(Debug)]
pub struct Env {
    entries: Vec<(String, String)>,
}

/// What a list of assignments leaves: a later one replaces an earlier.
pub open spec fn assigned(entries: Seq<(Seq<char>, Seq<char>)>) -> Map<Seq<char>, Seq<char>>
    decreases entries.len(),
{
    if entries.len() == 0 {
        Map::empty()
    } else {
        assigned(entries.drop_last()).insert(entries.last().0, entries.last().1)
    }
}

pub open spec fn pairs(entries: Seq<(String, String)>) -> Seq<(Seq<char>, Seq<char>)> {
    entries.map_values(|e: (String, String)| (e.0@, e.1@))
}

impl View for Env {
    type V = Map<Seq<char>, Seq<char>>;

    closed spec fn view(&self) -> Map<Seq<char>, Seq<char>> {
        assigned(pairs(self.entries@))
    }
}

impl Env {
    /// No variables.
    pub fn new() -> (r: Env)
        ensures
            r@ == Map::<Seq<char>, Seq<char>>::empty(),
    {
        let r = Env { entries: Vec::new() };
        assert(pairs(r.entries@) =~= Seq::empty());
        r
    }

    /// Gives a variable a value.
    pub fn set(&mut self, name: String, value: String)
        ensures
            final(self)@ == old(self)@.insert(name@, value@),
    {
        self.entries.push((name, value));
        assert(pairs(self.entries@) =~= pairs(old(self).entries@).push((name@, value@)));
        assert(pairs(self.entries@).drop_last() =~= pairs(old(self).entries@));
    }

    /// The value of a variable.
    pub fn get(&self, name: &str) -> (r: Option<&str>)
        ensures
            match r {
                Some(v) => self@.contains_key(name@) && self@[name@] == v@,
                None => !self@.contains_key(name@),
            },
    {
        let mut i: usize = self.entries.len();
        let ghost all = pairs(self.entries@);
        assert(all.take(i as int) =~= all);
        while i > 0
            invariant
                i <= self.entries@.len(),
                all == pairs(self.entries@),
                assigned(all.take(i as int)).contains_key(name@) == assigned(all).contains_key(
                    name@,
                ),
                assigned(all).contains_key(name@) ==> assigned(all.take(i as int))[name@]
                    == assigned(all)[name@],
            decreases i,
        {
            i -= 1;
            assert(all.take(i + 1).drop_last() =~= all.take(i as int));
            assert(all[i as int] == (self.entries@[i as int].0@, self.entries@[i as int].1@));
            if same(self.entries[i].0.as_str(), name) {
                return Some(self.entries[i].1.as_str());
            }
        }
        None
    }
}

/// A line without the word `export` at its start.
pub open spec fn without_export(line: Seq<char>) -> Seq<char> {
    match strip_prefix_of(line, "export "@) {
        Some(rest) => trim_of(rest),
        None => line,
    }
}

pub open spec fn is_key_start(c: char) -> bool {
    'a' <= c <= 'z' || 'A' <= c <= 'Z' || c == '_'
}

pub open spec fn is_key_char(c: char) -> bool {
    is_key_start(c) || '0' <= c <= '9'
}

/// A name of letters, digits and underscores that does not start with a digit.
pub open spec fn is_key(s: Seq<char>) -> bool {
    &&& s.len() > 0
    &&& is_key_start(s[0])
    &&& forall|i: int| 0 <= i < s.len() ==> is_key_char(#[trigger] s[i])
}

/// A value without the quotes, double or single, that enclose it.
pub open spec fn unquoted(s: Seq<char>) -> Seq<char> {
    if s.len() >= 2 && s[0] == s.last() && (s[0] == '"' || s[0] == '\'') {
        s.subrange(1, s.len() - 1)
    } else {
        s
    }
}

/// The name and the value that a line of an environment file assigns. Blank
/// lines, comments and lines without a proper name assign nothing.
pub open spec fn assignment_of(line: Seq<char>) -> Option<(Seq<char>, Seq<char>)> {
    let trimmed = trim_of(line);
    let body = without_export(trimmed);
    let sep = find_of(body, '=');
    let key = trim_of(body.take(sep));
    if trimmed.len() == 0 || trimmed[0] == '#' || sep == body.len() || sep == 0 || !is_key(key) {
        None
    } else {
        Some((key, unquoted(trim_of(body.skip(sep + 1)))))
    }
}

fn key_start(c: char) -> (r: bool)
    ensures
        r == is_key_start(c),
{
    ('a' <= c && c <= 'z') || ('A' <= c && c <= 'Z') || c == '_'
}

fn key_ok(s: &str) -> (r: bool)
    ensures
        r == is_key(s@),
{
    let chars: Vec<char> = text::to_chars(s);
    if chars.len() == 0 || !key_start(chars[0]) {
        return false;
    }
    let mut i: usize = 0;
    while i < chars.len()
        invariant
            i <= chars@.len(),
            chars@ == s@,
            forall|j: int| 0 <= j < i ==> is_key_char(#[trigger] chars@[j]),
        decreases chars@.len() - i,
    {
        let c: char = chars[i];
        if !key_start(c) && !('0' <= c && c <= '9') {
            assert(!is_key_char(s@[i as int]));
            return false;
        }
        i += 1;
    }
    true
}

fn unquote(s: &str) -> (r: String)
    ensures
        r@ == unquoted(s@),
{
    let size: usize = s.unicode_len();
    if size >= 2 {
        let first: char = s.get_char(0);
        if first == s.get_char(size - 1) && (first == '"' || first == '\'') {
            return s.substring_char(1, size - 1).to_owned();
        }
    }
    s.to_owned()
}

/// The name and the value that a line of an environment file assigns.
pub fn parse_env_assignment(line: &str) -> (r: Option<(String, String)>)
    ensures
        match r {
            Some((key, value)) => assignment_of(line@) == Some((key@, value@)),
            None => assignment_of(line@) is None,
        },
{
    let trimmed: &str = trim(line);
    if trimmed.is_empty() || trimmed.get_char(0) == '#' {
        return None;
    }
    let body: &str = match strip_prefix(trimmed, "export ") {
        Some(rest) => trim(rest),
        None => trimmed,
    };
    let sep: usize = match text::find_char(body, '=') {
        Some(at) => at,
        None => {
            return None;
        },
    };
    if sep == 0 {
        return None;
    }
    let size: usize = body.unicode_len();
    let left: &str = body.substring_char(0, sep);
    assert(left@ =~= body@.take(sep as int));
    let key: &str = trim(left);
    if !key_ok(key) {
        return None;
    }
    let right: &str = body.substring_char(sep + 1, size);
    assert(right@ =~= body@.skip(sep + 1));
    Some((key.to_owned(), unquote(trim(right))))
}

/// The variables after a line of an environment file: one that is set already
/// keeps its value.
pub open spec fn env_with_line(env: Map<Seq<char>, Seq<char>>, line: Seq<char>) -> Map<
    Seq<char>,
    Seq<char>,
> {
    match assignment_of(line) {
        Some((key, value)) => if env.contains_key(key) {
            env
        } else {
            env.insert(key, value)
        },
        None => env,
    }
}

pub open spec fn env_with_lines(
    env: Map<Seq<char>, Seq<char>>,
    file: Seq<Seq<char>>,
) -> Map<Seq<char>, Seq<char>>
    decreases file.len(),
{
    if file.len() == 0 {
        env
    } else {
        env_with_line(env_with_lines(env, file.drop_last()), file.last())
    }
}

/// The variables after an environment file; a missing file adds none.
pub open spec fn env_with_file(
    env: Map<Seq<char>, Seq<char>>,
    content: Option<Seq<char>>,
) -> Map<Seq<char>, Seq<char>> {
    match content {
        Some(c) => env_with_lines(env, lines_of(c)),
        None => env,
    }
}

/// The value that the first line that assigns to `key` gives it.
pub open spec fn first_assignment(file: Seq<Seq<char>>, key: Seq<char>) -> Option<Seq<char>>
    decreases file.len(),
{
    if file.len() == 0 {
        None
    } else {
        match first_assignment(file.drop_last(), key) {
            Some(value) => Some(value),
            None => match assignment_of(file.last()) {
                Some((k, value)) => if k == key {
                    Some(value)
                } else {
                    None
                },
                None => None,
            },
        }
    }
}

/// The first write wins: a variable that was set keeps its value, any other has
/// the value of the first line of the file that assigns to it, and no others
/// are set.
pub proof fn law_first_write_wins(
    env: Map<Seq<char>, Seq<char>>,
    file: Seq<Seq<char>>,
    key: Seq<char>,
)
    ensures
        env.contains_key(key) ==> env_with_lines(env, file).contains_key(key) && env_with_lines(
            env,
            file,
        )[key] == env[key],
        !env.contains_key(key) ==> match first_assignment(file, key) {
            Some(value) => env_with_lines(env, file).contains_key(key) && env_with_lines(
                env,
                file,
            )[key] == value,
            None => !env_with_lines(env, file).contains_key(key),
        },
    decreases file.len(),
{
    if file.len() > 0 {
        law_first_write_wins(env, file.drop_last(), key);
    }
}

/// What `.env` assigns wins over what `.env.local` assigns.
pub proof fn law_env_file_order(
    env: Map<Seq<char>, Seq<char>>,
    dot_env: Seq<Seq<char>>,
    dot_env_local: Seq<Seq<char>>,
    key: Seq<char>,
)
    requires
        !env.contains_key(key),
        first_assignment(dot_env, key) is Some,
    ensures
        env_with_lines(env_with_lines(env, dot_env), dot_env_local).contains_key(key),
        env_with_lines(env_with_lines(env, dot_env), dot_env_local)[key] == first_assignment(
            dot_env,
            key,
        ).unwrap(),
{
    law_first_write_wins(env, dot_env, key);
    law_first_write_wins(env_with_lines(env, dot_env), dot_env_local, key);
}

/// Adds what an environment file assigns.
pub fn load_env_file(env: &mut Env, content: Option<&str>)
    ensures
        final(env)@ == env_with_file(old(env)@, opt_str(content)),
{
    let file: Vec<String> = match content {
        Some(c) => lines(c),
        None => {
            return ;
        },
    };
    let ghost all = texts(file@);
    let mut i: usize = 0;
    assert(all.take(0) =~= Seq::empty());
    while i < file.len()
        invariant
            i <= file@.len(),
            all == texts(file@),
            env@ == env_with_lines(old(env)@, all.take(i as int)),
        decreases file@.len() - i,
    {
        assert(all.take(i + 1).drop_last() =~= all.take(i as int));
        assert(all[i as int] == file@[i as int]@);
        if let Some((key, value)) = parse_env_assignment(file[i].as_str()) {
            if env.get(key.as_str()).is_none() {
                env.set(key, value);
            }
        }
        i += 1;
    }
    assert(all.take(i as int) =~= all);
}

/// Adds what `.env` assigns, then what `.env.local` assigns, without replacing
/// what is set. A missing file adds nothing.
pub fn load_env_files(env: &mut Env, dot_env: Option<&str>, dot_env_local: Option<&str>)
    ensures
        final(env)@ == env_with_file(
            env_with_file(old(env)@, opt_str(dot_env)),
            opt_str(dot_env_local),
        ),
{
    load_env_file(env, dot_env);
    load_env_file(env, dot_env_local);
}

/// A variable's value without white space around it, if there is any left.
pub open spec fn opt_string_of(env: Map<Seq<char>, Seq<char>>, name: Seq<char>) -> Option<
    Seq<char>,
> {
    if env.contains_key(name) && trim_of(env[name]).len() > 0 {
        Some(trim_of(env[name]))
    } else {
        None
    }
}

/// A variable's value without white space around it, if there is any left.
pub fn opt_string(env: &Env, name: &str) -> (r: Option<String>)
    ensures
        opt_text(r) == opt_string_of(env@, name@),
{
    match env.get(name) {
        Some(v) => {
            let t: &str = trim(v);
            if t.is_empty() {
                None
            } else {
                Some(t.to_owned())
            }
        },
        None => None,
    }
}

/// A variable read as a truth value: `true` or `1`, `false` or `0`.
pub open spec fn bool_of(env: Map<Seq<char>, Seq<char>>, name: Seq<char>) -> Result<
    Option<bool>,
    Seq<char>,
> {
    match opt_string_of(env, name) {
        None => Ok(None),
        Some(s) => if s == "true"@ || s == "1"@ {
            Ok(Some(true))
        } else if s == "false"@ || s == "0"@ {
            Ok(Some(false))
        } else {
            Err(name)
        },
    }
}

/// Reads a variable as a truth value; an `Err` names the variable.
pub fn opt_bool(env: &Env, name: &str) -> (r: Result<Option<bool>, String>)
    ensures
        match r {
            Ok(b) => bool_of(env@, name@) == Ok::<Option<bool>, Seq<char>>(b),
            Err(n) => bool_of(env@, name@) == Err::<Option<bool>, Seq<char>>(n@),
        },
{
    match opt_string(env, name) {
        None => Ok(None),
        Some(s) => {
            if same(s.as_str(), "true") || same(s.as_str(), "1") {
                Ok(Some(true))
            } else if same(s.as_str(), "false") || same(s.as_str(), "0") {
                Ok(Some(false))
            } else {
                Err(name.to_owned())
            }
        },
    }
}

/// `s`, or `default` if there is none.
pub open spec fn text_or(s: Option<Seq<char>>, default: Seq<char>) -> Seq<char> {
    match s {
        Some(t) => t,
        None => default,
    }
}

/// `s`, or `default` if there is none.
pub fn string_or(s: Option<String>, default: &str) -> (r: String)
    ensures
        r@ == text_or(opt_text(s), default@),
{
    match s {
        Some(t) => t,
        None => default.to_owned(),
    }
}

/// A variable has the value that it was given last, and the others keep theirs.
pub proof fn law_variables_keep_their_values(
    env: &mut Env,
    name: String,
    value: String,
    other: &str,
    before: Option<&str>,
    after: Option<&str>,
    none: Env,
    missing: Option<&str>,
)
    requires
        call_ensures(Env::set, (env, name, value), ()),
        call_ensures(Env::get, (&*old(env), other), before),
        call_ensures(Env::get, (&*final(env), other), after),
        call_ensures(Env::new, (), none),
        call_ensures(Env::get, (&none, other), missing),
    ensures
        other@ == name@ ==> (after matches Some(v) && v@ == value@),
        other@ != name@ ==> opt_str(after) == opt_str(before),
        missing is None,
{
}

/// A value that quotes enclose, double or single, is what they enclose; any other is
/// itself.
pub open spec fn stands_for(written: Seq<char>, value: Seq<char>) -> bool {
    if written.len() >= 2 && (written[0] == '"' && written.last() == '"' || written[0] == '\''
        && written.last() == '\'') {
        written == seq![written[0]] + value + seq![written[0]]
    } else {
        value == written
    }
}

/// Whether `name` is letters, digits and underscores of ASCII and does not start
/// with a digit.
pub open spec fn is_name(name: Seq<char>) -> bool {
    &&& name.len() > 0
    &&& !('0' <= name[0] <= '9')
    &&& forall|i: int|
        0 <= i < name.len() ==> ('a' <= #[trigger] name[i] <= 'z' || 'A' <= name[i] <= 'Z' || '0'
            <= name[i] <= '9' || name[i] == '_')
}

/// Whether all of `s` is white space.
pub open spec fn is_blank(s: Seq<char>) -> bool {
    forall|i: int| 0 <= i < s.len() ==> text::is_white(#[trigger] s[i])
}

/// A name, an equals sign and a value assign the value to the name, with or without
/// `export` before them and white space round each, and quotes round the value.
pub proof fn law_assignments_are_read(
    line: &str,
    front: Seq<char>,
    exported: bool,
    before: Seq<char>,
    name: Seq<char>,
    gap: Seq<char>,
    value: &str,
    written: &str,
    r: Option<(String, String)>,
)
    requires
        call_ensures(parse_env_assignment, (line,), r),
        call_ensures(trim, (value,), written),
        line@ == if exported {
            front + "export "@ + before + name + gap + seq!['='] + value@
        } else {
            front + name + gap + seq!['='] + value@
        },
        is_blank(front),
        is_blank(before),
        is_blank(gap),
        is_name(name),
        !exported ==> !"export "@.is_prefix_of(name + gap),
    ensures
        r matches Some((k, v)) && k@ == name && stands_for(written@, v@),
{
    let (tail, back) = lemma_value_tail(value@);
    lemma_assigned(line@, front, exported, before, name, gap, value@, tail, back);
    let t = trim_of(value@);
    if t.len() >= 2 {
        assert(t =~= seq![t[0]] + t.subrange(1, t.len() - 1) + seq![t.last()]);
    }
}

proof fn lemma_value_tail(value: Seq<char>) -> (parts: (Seq<char>, Seq<char>))
    ensures
        value == parts.0 + parts.1,
        is_blank(parts.1),
        trim_of(parts.0) == trim_of(value),
        parts.0.len() > 0 ==> !text::is_white(parts.0.last()),
{
    let (front, back) = text::lemma_trim_splits(value);
    let t = trim_of(value);
    if t.len() == 0 {
        assert(value =~= front + back);
        assert forall|i: int| 0 <= i < value.len() implies text::is_white(#[trigger] value[i]) by {
            if i < front.len() {
                assert(value[i] == front[i]);
            } else {
                assert(value[i] == back[i - front.len()]);
            }
        }
        let none = Seq::<char>::empty();
        assert(none =~= none + t + none);
        text::lemma_trim_is(none, none, t, none);
        assert(value =~= none + value);
        (none, value)
    } else {
        let tail = front + t;
        assert(tail =~= front + t + Seq::empty());
        text::lemma_trim_is(tail, front, t, Seq::empty());
        assert(tail.last() == t.last());
        (tail, back)
    }
}

proof fn lemma_assigned(
    line: Seq<char>,
    front: Seq<char>,
    exported: bool,
    before: Seq<char>,
    name: Seq<char>,
    gap: Seq<char>,
    value: Seq<char>,
    tail: Seq<char>,
    back: Seq<char>,
)
    requires
        line == if exported {
            front + "export "@ + before + name + gap + seq!['='] + value
        } else {
            front + name + gap + seq!['='] + value
        },
        value == tail + back,
        is_blank(front),
        is_blank(before),
        is_blank(gap),
        is_blank(back),
        tail.len() > 0 ==> !text::is_white(tail.last()),
        is_name(name),
        !exported ==> !"export "@.is_prefix_of(name + gap),
    ensures
        assignment_of(line) == Some((name, unquoted(trim_of(tail)))),
{
    lemma_name_is_key(name);
    let core = name + gap + seq!['='] + tail;
    assert(core[0] == name[0]);
    assert(core.last() == if tail.len() > 0 {
        tail.last()
    } else {
        '='
    });
    if exported {
        lemma_regrouped(front + "export "@ + before, name, gap, tail, back);
    } else {
        lemma_regrouped(front, name, gap, tail, back);
        lemma_not_exported(name + gap, tail);
    }
    lemma_line_core(line, front, exported, before, core, back);
    lemma_core_sides(name, gap, tail);
}

proof fn lemma_regrouped(
    front: Seq<char>,
    name: Seq<char>,
    gap: Seq<char>,
    tail: Seq<char>,
    back: Seq<char>,
)
    ensures
        front + name + gap + seq!['='] + (tail + back) == front + (name + gap + seq!['='] + tail)
            + back,
{
    assert(front + name + gap + seq!['='] + (tail + back) =~= front + (name + gap + seq!['=']
        + tail) + back);
}

proof fn lemma_not_exported(named: Seq<char>, tail: Seq<char>)
    requires
        !"export "@.is_prefix_of(named),
    ensures
        !"export "@.is_prefix_of(named + seq!['='] + tail),
{
    reveal_strlit("export ");
    let whole = named + seq!['='] + tail;
    if "export "@.is_prefix_of(whole) {
        assert(forall|i: int| 0 <= i < 7 ==> whole[i] == "export "@[i]);
        if named.len() < 7 {
            assert(whole[named.len() as int] == '=');
        } else {
            assert(forall|i: int| 0 <= i < 7 ==> whole[i] == named[i]);
            assert(named.subrange(0, 7) =~= "export "@);
        }
    }
}

proof fn lemma_line_core(
    line: Seq<char>,
    front: Seq<char>,
    exported: bool,
    before: Seq<char>,
    core: Seq<char>,
    back: Seq<char>,
)
    requires
        line == if exported {
            front + "export "@ + before + core + back
        } else {
            front + core + back
        },
        is_blank(front),
        is_blank(before),
        is_blank(back),
        core.len() > 0,
        !text::is_white(core[0]) && !text::is_white(core.last()) && core[0] != '#',
        !exported ==> !"export "@.is_prefix_of(core),
    ensures
        trim_of(line).len() > 0,
        trim_of(line)[0] != '#',
        without_export(trim_of(line)) == core,
{
    reveal_strlit("export ");
    let whole = if exported {
        "export "@ + before + core
    } else {
        core
    };
    assert(line =~= front + whole + back);
    assert(whole.last() == core.last());
    assert(whole[0] == if exported {
        'e'
    } else {
        core[0]
    });
    text::lemma_trim_is(line, front, whole, back);
    if exported {
        assert("export "@.is_prefix_of(whole)) by {
            assert(whole.subrange(0, 7) =~= "export "@);
        }
        assert(whole.skip(7) =~= before + core + Seq::empty());
        text::lemma_trim_is(whole.skip(7), before, core, Seq::empty());
    }
}

proof fn lemma_core_sides(name: Seq<char>, gap: Seq<char>, tail: Seq<char>)
    requires
        is_name(name),
        is_blank(gap),
    ensures
        ({
            let core = name + gap + seq!['='] + tail;
            let sep = find_of(core, '=');
            &&& 0 < sep < core.len()
            &&& trim_of(core.take(sep)) == name
            &&& core.skip(sep + 1) == tail
        }),
{
    lemma_name_is_key(name);
    let core = name + gap + seq!['='] + tail;
    let sep = (name.len() + gap.len()) as int;
    assert forall|i: int| 0 <= i < sep implies core[i] != '=' by {
        if i < name.len() {
            assert(core[i] == name[i]);
        } else {
            assert(core[i] == gap[i - name.len()]);
            assert(text::is_white(core[i]));
        }
    }
    assert(core[sep] == '=');
    text::lemma_find_is(core, '=', sep);
    assert(core.take(sep) =~= Seq::empty() + name + gap);
    text::lemma_trim_is(core.take(sep), Seq::empty(), name, gap);
    assert(core.skip(sep + 1) =~= tail);
}

proof fn lemma_name_is_key(name: Seq<char>)
    ensures
        is_name(name) <==> is_key(name),
        is_name(name) ==> !text::is_white(name[0]) && !text::is_white(name.last()) && name[0] != '#',
{
    if is_name(name) {
        assert(name[0] == name[0]);
        assert forall|i: int| 0 <= i < name.len() implies is_key_char(#[trigger] name[i]) by {}
    }
    if is_key(name) {
        assert(is_key_char(name[0]));
        assert forall|i: int| 0 <= i < name.len() implies ('a' <= #[trigger] name[i] <= 'z' || 'A'
            <= name[i] <= 'Z' || '0' <= name[i] <= '9' || name[i] == '_') by {
            assert(is_key_char(name[i]));
        }
    }
}

/// Nothing else assigns: a line that assigns to a name is no comment, and it is the
/// name and an equals sign with `export` before them or not, and white space.
pub proof fn law_nothing_else_assigns(
    line: &str,
    trimmed: &str,
    r: Option<(String, String)>,
) -> (parts: (bool, Seq<char>, Seq<char>, Seq<char>))
    requires
        call_ensures(parse_env_assignment, (line,), r),
        call_ensures(trim, (line,), trimmed),
        r is Some,
    ensures
        trimmed@[0] != '#',
        is_name(r->Some_0.0@),
        is_blank(parts.1),
        is_blank(parts.2),
        parts.0 <==> "export "@.is_prefix_of(trimmed@),
        trimmed@ == if parts.0 {
            "export "@ + parts.1 + r->Some_0.0@ + parts.2 + seq!['='] + parts.3
        } else {
            r->Some_0.0@ + parts.2 + seq!['='] + parts.3
        },
{
    let whole = trim_of(line@);
    let core = without_export(whole);
    let sep = find_of(core, '=');
    text::lemma_find(core, '=');
    let left = core.take(sep);
    let key = trim_of(left);
    lemma_name_is_key(key);
    let (f, gap) = text::lemma_trim_splits(left);
    let rest = core.skip(sep + 1);
    assert(core =~= left + seq!['='] + rest);
    if "export "@.is_prefix_of(whole) {
        let after = whole.skip("export "@.len() as int);
        let (before, b) = text::lemma_trim_splits(after);
        assert(whole =~= "export "@ + after);
        assert(after =~= before + core + b);
        assert(before + f + key + gap + seq!['='] + (rest + b) =~= after);
        let lead = before + f;
        assert forall|i: int| 0 <= i < lead.len() implies text::is_white(#[trigger] lead[i]) by {
            if i < before.len() {
                assert(lead[i] == before[i]);
            } else {
                assert(lead[i] == f[i - before.len()]);
            }
        }
        assert(whole =~= "export "@ + lead + key + gap + seq!['='] + (rest + b));
        (true, lead, gap, rest + b)
    } else {
        text::lemma_trim_ends(line@);
        if f.len() > 0 {
            assert(whole[0] == f[0]);
        }
        assert(f =~= Seq::empty());
        assert(whole =~= key + gap + seq!['='] + rest);
        (false, Seq::empty(), gap, rest)
    }
}

/// A file adds what its lines assign: what is set stays, any other name gets the
/// value of the first line that assigns to it, and a name that none assigns to stays
/// unset. A missing file adds nothing.
pub proof fn law_files_add_to_the_environment(
    env: &mut Env,
    content: Option<&str>,
    file: Vec<String>,
    name: Seq<char>,
    at: int,
)
    requires
        call_ensures(load_env_file, (env, content), ()),
        content matches Some(c) ==> call_ensures(lines, (c,), file),
    ensures
        content is None ==> final(env)@ == old(env)@,
        old(env)@.contains_key(name) ==> final(env)@.contains_pair(name, old(env)@[name]),
        content is Some && !old(env)@.contains_key(name) && (forall|i: int|
            0 <= i < file@.len() ==> !assigns_to(#[trigger] file@[i]@, name))
            ==> !final(env)@.contains_key(name),
        content is Some && !old(env)@.contains_key(name) && 0 <= at < file@.len() && assigns_to(
            file@[at]@,
            name,
        ) && (forall|i: int| 0 <= i < at ==> !assigns_to(#[trigger] file@[i]@, name))
            ==> final(env)@.contains_pair(name, assignment_of(file@[at]@).unwrap().1),
{
    if content is Some {
        let all = texts(file@);
        assert(all.len() == file@.len());
        assert forall|i: int| 0 <= i < file@.len() implies all[i] == (#[trigger] file@[i])@ by {}
        law_first_write_wins(old(env)@, all, name);
        lemma_first_assignment(all, name, at);
        if forall|i: int| 0 <= i < file@.len() ==> !assigns_to(#[trigger] file@[i]@, name) {
            assert forall|i: int| 0 <= i < all.len() implies !assigns_to(#[trigger] all[i], name) by {
                assert(all[i] == file@[i]@);
            }
        }
        if 0 <= at < all.len() && forall|i: int|
            0 <= i < at ==> !assigns_to(#[trigger] file@[i]@, name) {
            assert forall|i: int| 0 <= i < at implies !assigns_to(#[trigger] all[i], name) by {
                assert(all[i] == file@[i]@);
            }
        }
    }
}

/// Whether a line assigns to `name`.
pub open spec fn assigns_to(line: Seq<char>, name: Seq<char>) -> bool {
    assignment_of(line) matches Some((k, v)) && k == name
}

proof fn lemma_first_assignment(file: Seq<Seq<char>>, name: Seq<char>, at: int)
    ensures
        (forall|i: int| 0 <= i < file.len() ==> !assigns_to(#[trigger] file[i], name))
            ==> first_assignment(file, name) is None,
        0 <= at < file.len() && assigns_to(file[at], name) && (forall|i: int|
            0 <= i < at ==> !assigns_to(#[trigger] file[i], name)) ==> first_assignment(file, name)
            == Some(assignment_of(file[at]).unwrap().1),
    decreases file.len(),
{
    if file.len() > 0 {
        let earlier = file.drop_last();
        assert forall|i: int| 0 <= i < earlier.len() implies earlier[i] == #[trigger] file[i] by {}
        lemma_first_assignment(earlier, name, at);
        assert(file.last() == file[file.len() - 1]);
        if forall|i: int| 0 <= i < file.len() ==> !assigns_to(#[trigger] file[i], name) {
            assert forall|i: int| 0 <= i < earlier.len() implies !assigns_to(
                #[trigger] earlier[i],
                name,
            ) by {
                assert(earlier[i] == file[i]);
            }
        }
        if 0 <= at < file.len() && forall|i: int| 0 <= i < at ==> !assigns_to(
            #[trigger] file[i],
            name,
        ) {
            assert forall|i: int| 0 <= i < at implies !assigns_to(#[trigger] earlier[i], name) by {
                assert(earlier[i] == file[i]);
            }
            if at == file.len() - 1 {
                assert forall|i: int| 0 <= i < earlier.len() implies !assigns_to(
                    #[trigger] earlier[i],
                    name,
                ) by {
                    assert(earlier[i] == file[i]);
                }
            }
        }
    }
}

/// Reading a line gives what the line assigns.
pub proof fn law_lines_are_read_as_assignments(line: &str, r: Option<(String, String)>)
    requires
        call_ensures(parse_env_assignment, (line,), r),
    ensures
        r matches Some((k, v)) ==> assigns_to(line@, k@) && assignment_of(line@).unwrap().1 == v@,
        r is None ==> forall|name: Seq<char>| !#[trigger] assigns_to(line@, name),
{
}

/// `.env` comes first and `.env.local` second.
pub proof fn law_env_comes_before_env_local(
    both: &mut Env,
    first: &mut Env,
    second: &mut Env,
    dot_env: Option<&str>,
    dot_env_local: Option<&str>,
)
    requires
        call_ensures(load_env_files, (both, dot_env, dot_env_local), ()),
        call_ensures(load_env_file, (first, dot_env), ()),
        call_ensures(load_env_file, (second, dot_env_local), ()),
        old(first)@ == old(both)@,
        old(second)@ == final(first)@,
    ensures
        final(both)@ == final(second)@,
{
}

/// A variable that is read is its value without white space round it; an unset or
/// blank one is none.
pub proof fn law_blank_variables_are_unset(
    env: Env,
    name: &str,
    value: Option<&str>,
    trimmed: &str,
    r: Option<String>,
)
    requires
        call_ensures(opt_string, (&env, name), r),
        call_ensures(Env::get, (&env, name), value),
        value matches Some(v) ==> call_ensures(trim, (v,), trimmed),
    ensures
        value is None ==> r is None,
        value is Some ==> if trimmed@.len() == 0 {
            r is None
        } else {
            r matches Some(s) && s@ == trimmed@
        },
{
}

/// A truth value is written `true` or `1`, or `false` or `0`; anything else but
/// nothing is an error that names the variable.
pub proof fn law_truth_values(
    env: Env,
    name: &str,
    value: Option<String>,
    r: Result<Option<bool>, String>,
)
    requires
        call_ensures(opt_bool, (&env, name), r),
        call_ensures(opt_string, (&env, name), value),
    ensures
        value is None ==> r == Ok::<Option<bool>, String>(None),
        value matches Some(s) ==> match r {
            Ok(b) => b is Some && (b == Some(true) <==> s@ == "true"@ || s@ == "1"@) && (b == Some(
                false,
            ) <==> s@ == "false"@ || s@ == "0"@),
            Err(told) => told@ == name@ && s@ != "true"@ && s@ != "1"@ && s@ != "false"@ && s@
                != "0"@,
        },
{
    reveal_strlit("true");
    reveal_strlit("1");
    reveal_strlit("false");
    reveal_strlit("0");
    assert("true"@.len() == 4 && "false"@.len() == 5 && "1"@[0] == '1' && "0"@[0] == '0');
    assert("1"@.len() == 1 && "0"@.len() == 1);
}

/// A default counts only where there is nothing else.
pub proof fn law_defaults(s: Option<String>, default: &str, r: String)
    requires
        call_ensures(string_or, (s, default), r),
    ensures
        s matches Some(t) ==> r@ == t@,
        s is None ==> r@ == default@,
{
}

} // verus!
