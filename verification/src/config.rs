//! The `sunix.toml` configuration: `key=value` lines, `#` comments outside
//! quotes, values optionally quoted, and `$HOME`, `${HOME}` and `~` expanded
//! in paths.
use vstd::prelude::*;
use crate::model::opt_view;
use crate::text::{
    chars_of, copy_str, decimal, push_decimal, push_range, range_string, split_exec, split_on,
    starts_with, starts_with_exec, str_equal, trim, trim_string, trim_vec,
};

verus! {

#[derive(Clone, Debug)]
pub struct SunixConfig {
    pub flake_dir: String,
    pub home_flake_dir: Option<String>,
    pub nixos_flake_dir: Option<String>,
    pub home_flake: String,
    pub nixos_flake: String,
    pub dix_binary: Option<String>,
    pub style_css: Option<String>,
    pub show_demo: bool,
}

pub struct SunixConfigView {
    pub flake_dir: Seq<char>,
    pub home_flake_dir: Option<Seq<char>>,
    pub nixos_flake_dir: Option<Seq<char>>,
    pub home_flake: Seq<char>,
    pub nixos_flake: Seq<char>,
    pub dix_binary: Option<Seq<char>>,
    pub style_css: Option<Seq<char>>,
    pub show_demo: bool,
}

impl View for SunixConfig {
    type V = SunixConfigView;

    open spec fn view(&self) -> SunixConfigView {
        SunixConfigView {
            flake_dir: self.flake_dir@,
            home_flake_dir: opt_view(self.home_flake_dir),
            nixos_flake_dir: opt_view(self.nixos_flake_dir),
            home_flake: self.home_flake@,
            nixos_flake: self.nixos_flake@,
            dix_binary: opt_view(self.dix_binary),
            style_css: opt_view(self.style_css),
            show_demo: self.show_demo,
        }
    }
}

impl SunixConfig {
    /// Where the Home Manager configuration is built: its own directory or `flake_dir`.
    pub fn home_flake_dir(&self) -> (r: &str)
        ensures
            r@ == match self.home_flake_dir {
                Some(d) => d@,
                None => self.flake_dir@,
            },
    {
        match &self.home_flake_dir {
            Some(d) => d.as_str(),
            None => self.flake_dir.as_str(),
        }
    }

    /// Where the NixOS configuration is built: its own directory or `flake_dir`.
    pub fn nixos_flake_dir(&self) -> (r: &str)
        ensures
            r@ == match self.nixos_flake_dir {
                Some(d) => d@,
                None => self.flake_dir@,
            },
    {
        match &self.nixos_flake_dir {
            Some(d) => d.as_str(),
            None => self.flake_dir.as_str(),
        }
    }
}

// ---------------------------------------------------------------------------
// Lines, comments and values
// ---------------------------------------------------------------------------

pub open spec fn strip_cr(l: Seq<char>) -> Seq<char> {
    if l.len() > 0 && l.last() == '\r' {
        l.drop_last()
    } else {
        l
    }
}

/// `str::lines`: split at `\n`, a `\r` before it dropped, no empty last line.
pub open spec fn lines_of(s: Seq<char>) -> Seq<Seq<char>> {
    let parts = split_on(s, '\n');
    let body = parts.drop_last().map_values(|l: Seq<char>| strip_cr(l));
    if parts.last().len() == 0 {
        body
    } else {
        body.push(parts.last())
    }
}

/// Where a `#` outside quotes starts a comment (`s.len()` when none does).
pub open spec fn comment_start(s: Seq<char>, i: int, quote: Option<char>) -> int
    decreases s.len() - i,
{
    if i < 0 || i >= s.len() {
        s.len() as int
    } else {
        let c = s[i];
        match quote {
            Some(q) => if c == q {
                comment_start(s, i + 1, None)
            } else {
                comment_start(s, i + 1, quote)
            },
            None => if c == '"' || c == '\'' {
                comment_start(s, i + 1, Some(c))
            } else if c == '#' {
                i
            } else {
                comment_start(s, i + 1, None)
            },
        }
    }
}

pub open spec fn strip_comment_spec(s: Seq<char>) -> Seq<char> {
    s.subrange(0, comment_start(s, 0, None))
}

/// Index of the first `c` in `s`.
pub open spec fn first_index(s: Seq<char>, c: char, i: int) -> Option<int>
    decreases s.len() - i,
{
    if i < 0 || i >= s.len() {
        None
    } else if s[i] == c {
        Some(i)
    } else {
        first_index(s, c, i + 1)
    }
}

pub open spec fn location(source: Seq<char>, line: nat) -> Seq<char> {
    "failed to parse "@ + source + ":"@ + decimal(line)
}

/// A value: quoted values lose their quotes; an unmatched quote is an error.
pub open spec fn parse_value_spec(v: Seq<char>, source: Seq<char>, line: nat) -> Result<
    Seq<char>,
    Seq<char>,
> {
    if v.len() > 0 && (v[0] == '"' || v[0] == '\'') {
        if v.len() < 2 || v.last() != v[0] {
            Err(location(source, line) + ": unterminated quoted value"@)
        } else {
            Ok(v.subrange(1, v.len() - 1))
        }
    } else {
        Ok(v)
    }
}

/// The `key=value` entries of the lines from `i` on, after those in `acc`.
pub open spec fn entries_from(
    lines: Seq<Seq<char>>,
    i: int,
    source: Seq<char>,
    acc: Seq<(Seq<char>, Seq<char>)>,
) -> Result<Seq<(Seq<char>, Seq<char>)>, Seq<char>>
    decreases lines.len() - i,
{
    if i < 0 || i >= lines.len() {
        Ok(acc)
    } else {
        let line = trim(strip_comment_spec(lines[i]));
        if line.len() == 0 {
            entries_from(lines, i + 1, source, acc)
        } else {
            match first_index(line, '=', 0) {
                None => Err(location(source, (i + 1) as nat) + ": expected key=value"@),
                Some(k) => {
                    let key = trim(line.subrange(0, k));
                    match parse_value_spec(
                        trim(line.subrange(k + 1, line.len() as int)),
                        source,
                        (i + 1) as nat,
                    ) {
                        Err(e) => Err(e),
                        Ok(v) => entries_from(lines, i + 1, source, acc.push((key, v))),
                    }
                },
            }
        }
    }
}

/// The value last given to `key`.
pub open spec fn lookup(es: Seq<(Seq<char>, Seq<char>)>, key: Seq<char>) -> Option<Seq<char>>
    decreases es.len(),
{
    if es.len() == 0 {
        None
    } else if es.last().0 == key {
        Some(es.last().1)
    } else {
        lookup(es.drop_last(), key)
    }
}

pub open spec fn required_spec(
    es: Seq<(Seq<char>, Seq<char>)>,
    field: Seq<char>,
    source: Seq<char>,
) -> Result<Seq<char>, Seq<char>> {
    match lookup(es, field) {
        Some(v) => if trim(v).len() > 0 {
            Ok(trim(v))
        } else {
            Err(source + " has an empty mandatory `"@ + field + "` field"@)
        },
        None => Err(source + " is missing mandatory `"@ + field + "` field"@),
    }
}

/// `PathBuf::join` on Unix: an absolute `rest` replaces `base`; otherwise a
/// separator goes between them unless `base` is empty or already ends with one.
pub open spec fn path_join(base: Seq<char>, rest: Seq<char>) -> Seq<char> {
    if starts_with(rest, "/"@) {
        rest
    } else if base.len() == 0 || base.last() == '/' {
        base + rest
    } else {
        base + "/"@ + rest
    }
}

/// A path with a leading home reference expanded when a home is known.
pub open spec fn expand_home(value: Seq<char>, home: Option<Seq<char>>) -> Seq<char> {
    match home {
        None => value,
        Some(h) => if h.len() == 0 {
            value
        } else if value == "$HOME"@ || value == "${HOME}"@ || value == "~"@ {
            h
        } else if starts_with(value, "$HOME/"@) {
            path_join(h, value.skip(6))
        } else if starts_with(value, "${HOME}/"@) {
            path_join(h, value.skip(8))
        } else if starts_with(value, "~/"@) {
            path_join(h, value.skip(2))
        } else {
            value
        },
    }
}

pub open spec fn optional_path_spec(
    es: Seq<(Seq<char>, Seq<char>)>,
    field: Seq<char>,
    home: Option<Seq<char>>,
) -> Option<Seq<char>> {
    match lookup(es, field) {
        Some(v) => if trim(v).len() > 0 {
            Some(expand_home(trim(v), home))
        } else {
            None
        },
        None => None,
    }
}

pub open spec fn optional_bool_spec(
    es: Seq<(Seq<char>, Seq<char>)>,
    field: Seq<char>,
    source: Seq<char>,
) -> Result<bool, Seq<char>> {
    match lookup(es, field) {
        None => Ok(false),
        Some(v) => {
            let t = trim(v);
            if t.len() == 0 || t == "false"@ {
                Ok(false)
            } else if t == "true"@ {
                Ok(true)
            } else {
                Err(source + " has invalid optional `"@ + field + "` value `"@ + t
                    + "`; expected true or false"@)
            }
        },
    }
}

/// The configuration `content` describes, or the first problem with it.
pub open spec fn config_spec(content: Seq<char>, source: Seq<char>, home: Option<Seq<char>>) -> Result<
    SunixConfigView,
    Seq<char>,
> {
    match entries_from(lines_of(content), 0, source, Seq::empty()) {
        Err(e) => Err(e),
        Ok(es) => match required_spec(es, "flake_dir"@, source) {
            Err(e) => Err(e),
            Ok(flake_dir) => match required_spec(es, "home_flake"@, source) {
                Err(e) => Err(e),
                Ok(home_flake) => match required_spec(es, "nixos_flake"@, source) {
                    Err(e) => Err(e),
                    Ok(nixos_flake) => match optional_bool_spec(es, "show_demo"@, source) {
                        Err(e) => Err(e),
                        Ok(show_demo) => Ok(
                            SunixConfigView {
                                flake_dir: expand_home(flake_dir, home),
                                home_flake_dir: optional_path_spec(es, "home_flake_dir"@, home),
                                nixos_flake_dir: optional_path_spec(es, "nixos_flake_dir"@, home),
                                home_flake,
                                nixos_flake,
                                dix_binary: optional_path_spec(es, "dix_binary"@, home),
                                style_css: optional_path_spec(es, "style_css"@, home),
                                show_demo,
                            },
                        ),
                    },
                },
            },
        },
    }
}

// ---------------------------------------------------------------------------

fn lines_exec(content: &str) -> (r: Vec<Vec<char>>)
    ensures
        r@.len() == lines_of(content@).len(),
        forall|i: int| 0 <= i < r@.len() ==> #[trigger] r@[i]@ == lines_of(content@)[i],
{
    let v = chars_of(content);
    let parts = split_exec(&v, '\n');
    let ghost sp = split_on(content@, '\n');
    proof {
        crate::text::lemma_split_nonempty(content@, '\n');
    }
    let ghost body = sp.drop_last().map_values(|l: Seq<char>| strip_cr(l));
    let mut out: Vec<Vec<char>> = Vec::new();
    let n = parts.len();
    let mut i: usize = 0;
    while i + 1 < n
        invariant
            n == parts@.len(),
            n == sp.len(),
            n >= 1,
            i + 1 <= n,
            forall|k: int| 0 <= k < n ==> #[trigger] parts@[k]@ == sp[k],
            body == sp.drop_last().map_values(|l: Seq<char>| strip_cr(l)),
            out@.len() == i,
            forall|k: int| 0 <= k < i ==> #[trigger] out@[k]@ == body[k],
        decreases n - i,
    {
        let mut line = parts[i].clone();
        assert(line@ == sp[i as int]);
        if line.len() > 0 && line[line.len() - 1] == '\r' {
            line.pop();
        }
        out.push(line);
        i = i + 1;
    }
    let last = parts[n - 1].clone();
    assert(last@ == sp.last());
    if last.len() > 0 {
        out.push(last);
    }
    out
}

fn strip_comment(line: &Vec<char>) -> (r: usize)
    ensures
        r as int == comment_start(line@, 0, None),
        r <= line.len(),
{
    let mut quote: Option<char> = None;
    let mut i: usize = 0;
    while i < line.len()
        invariant
            i <= line.len(),
            comment_start(line@, 0, None) == comment_start(line@, i as int, quote),
        decreases line.len() - i,
    {
        let c = line[i];
        match quote {
            Some(q) => {
                if c == q {
                    quote = None;
                }
            },
            None => {
                if c == '"' || c == '\'' {
                    quote = Some(c);
                } else if c == '#' {
                    return i;
                }
            },
        }
        i = i + 1;
    }
    i
}

fn push_location(out: &mut String, source: &str, line: usize)
    ensures
        final(out)@ == old(out)@ + location(source@, line as nat),
{
    out.append("failed to parse ");
    out.append(source);
    out.append(":");
    push_decimal(out, line as u128);
}

pub fn parse_value(value: &Vec<char>, source: &str, line: usize) -> (r: Result<String, String>)
    ensures
        match r {
            Ok(v) => parse_value_spec(value@, source@, line as nat) == Ok::<Seq<char>, Seq<char>>(v@),
            Err(e) => parse_value_spec(value@, source@, line as nat) == Err::<Seq<char>, Seq<char>>(e@),
        },
{
    if value.len() > 0 && (value[0] == '"' || value[0] == '\'') {
        if value.len() < 2 || value[value.len() - 1] != value[0] {
            let mut e = String::new();
            push_location(&mut e, source, line);
            e.append(": unterminated quoted value");
            return Err(e);
        }
        return Ok(range_string(value, 1, value.len() - 1));
    }
    let r = range_string(value, 0, value.len());
    assert(value@.subrange(0, value@.len() as int) =~= value@);
    Ok(r)
}

fn first_equals(line: &Vec<char>) -> (r: Option<usize>)
    ensures
        match r {
            Some(k) => first_index(line@, '=', 0) == Some(k as int) && k < line.len(),
            None => first_index(line@, '=', 0) is None,
        },
{
    let mut i: usize = 0;
    while i < line.len()
        invariant
            i <= line.len(),
            first_index(line@, '=', 0) == first_index(line@, '=', i as int),
        decreases line.len() - i,
    {
        if line[i] == '=' {
            return Some(i);
        }
        i = i + 1;
    }
    None
}

pub open spec fn entries_view(es: Seq<(String, String)>) -> Seq<(Seq<char>, Seq<char>)> {
    es.map_values(|e: (String, String)| (e.0@, e.1@))
}

fn sub_vec(v: &Vec<char>, from: usize, to: usize) -> (r: Vec<char>)
    requires
        from <= to <= v.len(),
    ensures
        r@ == v@.subrange(from as int, to as int),
{
    let mut r: Vec<char> = Vec::new();
    let mut k = from;
    while k < to
        invariant
            from <= k <= to <= v.len(),
            r@ == v@.subrange(from as int, k as int),
        decreases to - k,
    {
        r.push(v[k]);
        assert(v@.subrange(from as int, k + 1) =~= v@.subrange(from as int, k as int).push(
            v@[k as int],
        ));
        k = k + 1;
    }
    r
}

/// The `key=value` entries of the configuration text.
pub fn parse_entries(content: &str, source: &str) -> (r: Result<Vec<(String, String)>, String>)
    ensures
        match r {
            Ok(es) => entries_from(lines_of(content@), 0, source@, Seq::empty()) == Ok::<
                Seq<(Seq<char>, Seq<char>)>,
                Seq<char>,
            >(entries_view(es@)),
            Err(e) => entries_from(lines_of(content@), 0, source@, Seq::empty()) == Err::<
                Seq<(Seq<char>, Seq<char>)>,
                Seq<char>,
            >(e@),
        },
{
    let lines = lines_exec(content);
    let ghost ls = lines_of(content@);
    let mut values: Vec<(String, String)> = Vec::new();
    let mut i: usize = 0;
    assert(entries_view(values@) =~= Seq::<(Seq<char>, Seq<char>)>::empty());
    while i < lines.len()
        invariant
            i <= lines@.len(),
            ls == lines_of(content@),
            lines@.len() == ls.len(),
            forall|k: int| 0 <= k < lines@.len() ==> #[trigger] lines@[k]@ == ls[k],
            entries_from(ls, 0, source@, Seq::empty()) == entries_from(
                ls,
                i as int,
                source@,
                entries_view(values@),
            ),
        decreases lines.len() - i,
    {
        let raw = &lines[i];
        assert(raw@ == ls[i as int]);
        let cut = strip_comment(raw);
        let uncommented = sub_vec(raw, 0, cut);
        let line = trim_vec(&uncommented);
        assert(uncommented@ == strip_comment_spec(ls[i as int]));
        assert(line@ == trim(strip_comment_spec(ls[i as int])));
        if line.len() > 0 {
            match first_equals(&line) {
                None => {
                    let mut e = String::new();
                    push_location(&mut e, source, i + 1);
                    e.append(": expected key=value");
                    assert(entries_from(ls, i as int, source@, entries_view(values@)) == Err::<
                        Seq<(Seq<char>, Seq<char>)>,
                        Seq<char>,
                    >(e@));
                    return Err(e);
                },
                Some(k) => {
                    let key_raw = sub_vec(&line, 0, k);
                    let key_vec = trim_vec(&key_raw);
                    let value_raw = sub_vec(&line, k + 1, line.len());
                    let value_vec = trim_vec(&value_raw);
                    assert(key_vec@ == trim(line@.subrange(0, k as int)));
                    assert(value_vec@ == trim(line@.subrange(k + 1, line@.len() as int)));
                    match parse_value(&value_vec, source, i + 1) {
                        Err(e) => {
                            assert(entries_from(ls, i as int, source@, entries_view(values@)) == Err::<
                                Seq<(Seq<char>, Seq<char>)>,
                                Seq<char>,
                            >(e@));
                            return Err(e);
                        },
                        Ok(value) => {
                            let key = crate::text::string_of(&key_vec);
                            let ghost before = values@;
                            values.push((key, value));
                            assert(entries_view(values@) =~= entries_view(before).push(
                                (key_vec@, value@),
                            ));
                        },
                    }
                },
            }
        }
        i = i + 1;
    }
    Ok(values)
}

fn lookup_exec<'a>(values: &'a Vec<(String, String)>, key: &str) -> (r: Option<&'a String>)
    ensures
        match r {
            Some(v) => lookup(entries_view(values@), key@) == Some(v@),
            None => lookup(entries_view(values@), key@) is None,
        },
{
    let ghost es = entries_view(values@);
    let mut i: usize = values.len();
    assert(es.take(values@.len() as int) =~= es);
    while i > 0
        invariant
            i <= values@.len(),
            es == entries_view(values@),
            lookup(es, key@) == lookup(es.take(i as int), key@),
        decreases i,
    {
        assert(es.take(i as int).drop_last() =~= es.take(i - 1));
        assert(es.take(i as int).last() == es[i - 1]);
        if str_equal(values[i - 1].0.as_str(), key) {
            return Some(&values[i - 1].1);
        }
        i = i - 1;
    }
    None
}

fn field_error(source: &str, middle: &str, field: &str, tail: &str) -> (r: String)
    ensures
        r@ == source@ + middle@ + field@ + tail@,
{
    let mut e = String::new();
    e.append(source);
    e.append(middle);
    e.append(field);
    e.append(tail);
    e
}

pub fn required_field(values: &Vec<(String, String)>, field: &str, source: &str) -> (r: Result<String, String>)
    ensures
        match r {
            Ok(v) => required_spec(entries_view(values@), field@, source@) == Ok::<
                Seq<char>,
                Seq<char>,
            >(v@),
            Err(e) => required_spec(entries_view(values@), field@, source@) == Err::<
                Seq<char>,
                Seq<char>,
            >(e@),
        },
{
    match lookup_exec(values, field) {
        Some(value) => {
            let t = trim_string(value.as_str());
            if t.as_str().is_empty() {
                Err(field_error(source, " has an empty mandatory `", field, "` field"))
            } else {
                Ok(t)
            }
        },
        None => Err(field_error(source, " is missing mandatory `", field, "` field")),
    }
}

fn home_of(home: &Option<String>) -> (r: Option<&str>)
    ensures
        match r {
            Some(h) => opt_view(*home) == Some(h@),
            None => home is None,
        },
{
    match home {
        Some(h) => Some(h.as_str()),
        None => None,
    }
}

/// `base` joined with `rest` as `PathBuf::join` does.
pub fn join_path(base: &str, rest: &str) -> (r: String)
    ensures
        r@ == path_join(base@, rest@),
{
    let v = chars_of(rest);
    path_join_exec(base, &v)
}

fn path_join_exec(base: &str, rest: &Vec<char>) -> (r: String)
    ensures
        r@ == path_join(base@, rest@),
{
    let slash = chars_of("/");
    if starts_with_exec(rest, &slash) {
        return crate::text::string_of(rest);
    }
    let b = chars_of(base);
    let mut out = crate::text::string_of(&b);
    if b.len() > 0 && b[b.len() - 1] != '/' {
        out.append("/");
    }
    push_range(&mut out, rest, 0, rest.len());
    assert(rest@.subrange(0, rest@.len() as int) =~= rest@);
    out
}

/// Expands a leading `$HOME`, `${HOME}` or `~` in a path, given the home directory.
pub fn expand_home_path(value: &str, home: &Option<String>) -> (r: String)
    ensures
        r@ == expand_home(value@, opt_view(*home)),
{
    let h = match home_of(home) {
        Some(h) => h,
        None => {
            return copy_str(value);
        },
    };
    if h.is_empty() {
        return copy_str(value);
    }
    if str_equal(value, "$HOME") || str_equal(value, "${HOME}") || str_equal(value, "~") {
        return copy_str(h);
    }
    let v = chars_of(value);
    let p1 = chars_of("$HOME/");
    let p2 = chars_of("${HOME}/");
    let p3 = chars_of("~/");
    proof {
        reveal_strlit("$HOME/");
        reveal_strlit("${HOME}/");
        reveal_strlit("~/");
    }
    if starts_with_exec(&v, &p1) {
        let rest = sub_vec(&v, 6, v.len());
        assert(rest@ =~= value@.skip(6));
        return path_join_exec(h, &rest);
    }
    if starts_with_exec(&v, &p2) {
        let rest = sub_vec(&v, 8, v.len());
        assert(rest@ =~= value@.skip(8));
        return path_join_exec(h, &rest);
    }
    if starts_with_exec(&v, &p3) {
        let rest = sub_vec(&v, 2, v.len());
        assert(rest@ =~= value@.skip(2));
        return path_join_exec(h, &rest);
    }
    copy_str(value)
}

pub fn optional_path_field(values: &Vec<(String, String)>, field: &str, home: &Option<String>) -> (r: Option<String>)
    ensures
        opt_view(r) == optional_path_spec(entries_view(values@), field@, opt_view(*home)),
{
    match lookup_exec(values, field) {
        Some(value) => {
            let t = trim_string(value.as_str());
            if t.as_str().is_empty() {
                None
            } else {
                Some(expand_home_path(t.as_str(), home))
            }
        },
        None => None,
    }
}

pub fn optional_bool_field(values: &Vec<(String, String)>, field: &str, source: &str) -> (r: Result<bool, String>)
    ensures
        match r {
            Ok(b) => optional_bool_spec(entries_view(values@), field@, source@) == Ok::<
                bool,
                Seq<char>,
            >(b),
            Err(e) => optional_bool_spec(entries_view(values@), field@, source@) == Err::<
                bool,
                Seq<char>,
            >(e@),
        },
{
    match lookup_exec(values, field) {
        None => Ok(false),
        Some(value) => {
            let t = trim_string(value.as_str());
            if t.as_str().is_empty() || str_equal(t.as_str(), "false") {
                Ok(false)
            } else if str_equal(t.as_str(), "true") {
                Ok(true)
            } else {
                let mut e = field_error(source, " has invalid optional `", field, "` value `");
                e.append(t.as_str());
                e.append("`; expected true or false");
                Err(e)
            }
        },
    }
}

/// Where the configuration file lives: `sunix/sunix.toml` under a non-empty
/// `XDG_CONFIG_HOME`, else under `.config` in a non-empty `HOME`.
pub open spec fn config_path_spec(xdg_config_home: Option<Seq<char>>, home: Option<Seq<char>>) -> Result<
    Seq<char>,
    Seq<char>,
> {
    let base = match xdg_config_home {
        Some(x) if x.len() > 0 => Some(x),
        _ => match home {
            Some(h) if h.len() > 0 => Some(path_join(h, ".config"@)),
            _ => None,
        },
    };
    match base {
        Some(b) => Ok(path_join(path_join(b, "sunix"@), "sunix.toml"@)),
        None => Err("XDG_CONFIG_HOME is unset and HOME is unset; cannot locate sunix config"@),
    }
}

/// The configuration file's path, from the environment values
/// `XDG_CONFIG_HOME` and `HOME`.
pub fn config_file_path(xdg_config_home: &Option<String>, home: &Option<String>) -> (r: Result<
    String,
    String,
>)
    ensures
        match r {
            Ok(p) => config_path_spec(opt_view(*xdg_config_home), opt_view(*home)) == Ok::<
                Seq<char>,
                Seq<char>,
            >(p@),
            Err(e) => config_path_spec(opt_view(*xdg_config_home), opt_view(*home)) == Err::<
                Seq<char>,
                Seq<char>,
            >(e@),
        },
{
    let base: Option<String> = match xdg_config_home {
        Some(x) if !x.as_str().is_empty() => Some(x.clone()),
        _ => match home {
            Some(h) if !h.as_str().is_empty() => Some(join_path(h.as_str(), ".config")),
            _ => None,
        },
    };
    match base {
        Some(b) => {
            let dir = join_path(b.as_str(), "sunix");
            Ok(join_path(dir.as_str(), "sunix.toml"))
        },
        None => Err(copy_str("XDG_CONFIG_HOME is unset and HOME is unset; cannot locate sunix config")),
    }
}

/// Parses the configuration text; `source` names it in messages and `home`
/// is the home directory used to expand paths.
pub fn parse_config(content: &str, source: &str, home: &Option<String>) -> (r: Result<SunixConfig, String>)
    ensures
        match r {
            Ok(c) => config_spec(content@, source@, opt_view(*home)) == Ok::<
                SunixConfigView,
                Seq<char>,
            >(c@),
            Err(e) => config_spec(content@, source@, opt_view(*home)) == Err::<
                SunixConfigView,
                Seq<char>,
            >(e@),
        },
{
    let values = match parse_entries(content, source) {
        Ok(v) => v,
        Err(e) => {
            return Err(e);
        },
    };
    let flake_dir = match required_field(&values, "flake_dir", source) {
        Ok(v) => v,
        Err(e) => {
            return Err(e);
        },
    };
    let home_flake_dir = optional_path_field(&values, "home_flake_dir", home);
    let nixos_flake_dir = optional_path_field(&values, "nixos_flake_dir", home);
    let home_flake = match required_field(&values, "home_flake", source) {
        Ok(v) => v,
        Err(e) => {
            return Err(e);
        },
    };
    let nixos_flake = match required_field(&values, "nixos_flake", source) {
        Ok(v) => v,
        Err(e) => {
            return Err(e);
        },
    };
    let dix_binary = optional_path_field(&values, "dix_binary", home);
    let style_css = optional_path_field(&values, "style_css", home);
    let show_demo = match optional_bool_field(&values, "show_demo", source) {
        Ok(v) => v,
        Err(e) => {
            return Err(e);
        },
    };
    Ok(
        SunixConfig {
            flake_dir: expand_home_path(flake_dir.as_str(), home),
            home_flake_dir,
            nixos_flake_dir,
            home_flake,
            nixos_flake,
            dix_binary,
            style_css,
            show_demo,
        },
    )
}

/// A boolean field reads `false` when absent, empty or `false`, `true`
/// when `true` (surrounding whitespace aside), and any other value is an
/// error that quotes it.
pub proof fn lemma_optional_bool_values(es: Seq<(Seq<char>, Seq<char>)>, field: Seq<char>, source: Seq<char>)
    ensures
        lookup(es, field) is None ==> optional_bool_spec(es, field, source) == Ok::<bool, Seq<char>>(false),
        lookup(es, field) matches Some(v) ==> {
            &&& trim(v) == "false"@ ==> optional_bool_spec(es, field, source) == Ok::<bool, Seq<char>>(false)
            &&& trim(v) == "true"@ ==> optional_bool_spec(es, field, source) == Ok::<bool, Seq<char>>(true)
            &&& trim(v).len() == 0 ==> optional_bool_spec(es, field, source) == Ok::<bool, Seq<char>>(false)
            &&& optional_bool_spec(es, field, source) is Err <==> (trim(v).len() > 0 && trim(v) != "false"@
                && trim(v) != "true"@)
        },
{
    reveal_strlit("true");
    reveal_strlit("false");
    assert("true"@ != "false"@) by {
        assert("true"@.len() != "false"@.len());
    }
}

/// A configuration that loads keeps the `show_demo` value it was given:
/// `true` turns the demo on, and `false`, an empty value or no value at all
/// leave it off.
pub proof fn lemma_config_show_demo(content: Seq<char>, source: Seq<char>, home: Option<Seq<char>>)
    ensures
        config_spec(content, source, home) matches Ok(c) ==> (entries_from(lines_of(content), 0, source, Seq::empty()) matches Ok(es)
            && c.show_demo == (lookup(es, "show_demo"@) matches Some(v) && trim(v) == "true"@)),
{
    if let Ok(es) = entries_from(lines_of(content), 0, source, Seq::empty()) {
        lemma_optional_bool_values(es, "show_demo"@, source);
    }
}

} // verus!
