//! Minimal persisted receiver identity configuration.
use crate::text::{chars_of, has_char, is_ws, lemma_trim_start_skip, line_body, trim_end, trim_start, decimal, decimal_exec, has_prefix, index_of, first_index, lemma_first_index, lines, lines_exec, push_chars, push_str, starts_with, eq_chars, string_of, sub_vec, trim, trim_vec};
use vstd::prelude::*;

verus! {

#[verifier::external_type_specification]
#[verifier::external_body]
pub struct ExIoError(std::io::Error);

#[derive(Debug, Clone, PartialEq, Eq)]
pub struct ReceiverIdentity {
    pub host: String,
    pub model: Option<String>,
    pub friendly_name: Option<String>,
}

#[derive(Debug, Clone, PartialEq, Eq)]
pub struct Config {
    pub receiver: ReceiverIdentity,
}

#[derive(Debug)]
pub enum ConfigError {
    Io(std::io::Error),
    Invalid(String),
}

/// Where the configuration lives unless told otherwise.
pub fn default_path() -> (r: String)
    ensures
        r@ == "config/denon-avr-remote.yaml"@,
{
    crate::text::owned("config/denon-avr-remote.yaml")
}

/// Removes every leading and trailing `c`, as `str::trim_matches(c)` does.
pub open spec fn strip_start_all(s: Seq<char>, c: char) -> Seq<char>
    decreases s.len(),
{
    if s.len() > 0 && s[0] == c {
        strip_start_all(s.drop_first(), c)
    } else {
        s
    }
}

pub open spec fn strip_end_all(s: Seq<char>, c: char) -> Seq<char>
    decreases s.len(),
{
    if s.len() > 0 && s.last() == c {
        strip_end_all(s.drop_last(), c)
    } else {
        s
    }
}

pub open spec fn trim_matches(s: Seq<char>, c: char) -> Seq<char> {
    strip_end_all(strip_start_all(s, c), c)
}

pub fn trim_matches_exec(v: &[char], c: char) -> (r: Vec<char>)
    ensures
        r@ == trim_matches(v@, c),
    decreases v@.len(),
{
    if v.len() > 0 && v[0] == c {
        let rest = sub_vec(v, 1, v.len());
        assert(rest@ =~= v@.drop_first());
        let r = trim_matches_exec(&rest, c);
        return r;
    }
    let mut end = v.len();
    assert(v@.take(v@.len() as int) =~= v@);
    while end > 0 && v[end - 1] == c
        invariant
            end <= v@.len(),
            strip_end_all(v@, c) == strip_end_all(v@.take(end as int), c),
        decreases end,
    {
        assert(v@.take(end as int).drop_last() =~= v@.take(end - 1));
        end -= 1;
    }
    assert(v@.take(v@.len() as int) =~= v@) ;
    let r = sub_vec(v, 0, end);
    assert(r@ =~= v@.take(end as int));
    r
}

/// What has been read so far: whether the `receiver:` section opened, and its fields.
pub struct ConfigScan {
    pub in_receiver: bool,
    pub host: Option<Seq<char>>,
    pub model: Option<Seq<char>>,
    pub friendly_name: Option<Seq<char>>,
}

pub open spec fn scan_start() -> ConfigScan {
    ConfigScan { in_receiver: false, host: None, model: None, friendly_name: None }
}

pub open spec fn line_message(n: int, what: Seq<char>) -> Seq<char> {
    "line "@ + decimal((n + 1) as nat) + what
}

/// One line of the file, numbered from zero.
pub open spec fn config_step(raw: Seq<char>, n: int, st: ConfigScan) -> Result<ConfigScan, Seq<char>> {
    let line = trim(raw);
    if line.len() == 0 || line[0] == '#' {
        Ok(st)
    } else if line == "receiver:"@ {
        Ok(ConfigScan { in_receiver: true, ..st })
    } else if !st.in_receiver {
        Err(line_message(n, " is outside receiver"@))
    } else {
        let i = first_index(line, ':');
        if i < 0 {
            Err(line_message(n, " is not key/value"@))
        } else {
            let key = trim(line.take(i));
            let value = trim_matches(trim_matches(trim(line.skip(i + 1)), '"'), '\'');
            if key == "host"@ {
                Ok(ConfigScan { host: Some(value), ..st })
            } else if key == "model"@ {
                Ok(ConfigScan { model: Some(value), ..st })
            } else if key == "friendly_name"@ {
                Ok(ConfigScan { friendly_name: Some(value), ..st })
            } else {
                Err("unknown receiver field "@ + key)
            }
        }
    }
}

pub open spec fn config_scan(ls: Seq<Seq<char>>, i: int, st: ConfigScan) -> Result<ConfigScan, Seq<char>>
    decreases ls.len() - i,
{
    if i < 0 || i >= ls.len() {
        Ok(st)
    } else {
        match config_step(ls[i], i, st) {
            Ok(next) => config_scan(ls, i + 1, next),
            Err(e) => Err(e),
        }
    }
}

/// The configuration a text describes, or the message of the first problem.
pub open spec fn config_result(text: Seq<char>) -> Result<ConfigScan, Seq<char>> {
    match config_scan(lines(text), 0, scan_start()) {
        Ok(st) => match st.host {
            Some(h) => if h.len() > 0 {
                Ok(st)
            } else {
                Err("receiver.host is required"@)
            },
            None => Err("receiver.host is required"@),
        },
        Err(e) => Err(e),
    }
}

pub open spec fn opt_view(o: Option<String>) -> Option<Seq<char>> {
    match o {
        Some(s) => Some(s@),
        None => None,
    }
}

pub open spec fn vview(o: Option<Vec<char>>) -> Option<Seq<char>> {
    match o {
        Some(v) => Some(v@),
        None => None,
    }
}

fn line_error(n: usize, what: &str) -> (r: String)
    requires
        n < usize::MAX,
    ensures
        r@ == line_message(n as int, what@),
{
    let mut v: Vec<char> = Vec::new();
    push_str(&mut v, "line ");
    let d = decimal_exec((n + 1) as u64);
    push_chars(&mut v, &d);
    push_str(&mut v, what);
    string_of(&v)
}

fn is_key(key: &[char], name: &str) -> (r: bool)
    ensures
        r == (key@ == name@),
{
    let n = chars_of(name);
    eq_chars(key, &n)
}

pub fn parse(text: &str) -> (r: Result<Config, ConfigError>)
    ensures
        config_result(text@) matches Err(e) ==> (r matches Err(ConfigError::Invalid(m)) && m@ == e),
        config_result(text@) matches Ok(st) ==> (r matches Ok(c) && Some(c.receiver.host@) == st.host
            && opt_view(c.receiver.model) == st.model && opt_view(c.receiver.friendly_name)
            == st.friendly_name),
{
    let chars = chars_of(text);
    let ls = lines_exec(&chars);
    let ghost gl = lines(text@);
    assert(ls@.map_values(|x: Vec<char>| x@) =~= gl);
    let mut in_receiver = false;
    let mut host: Option<Vec<char>> = None;
    let mut model: Option<Vec<char>> = None;
    let mut friendly_name: Option<Vec<char>> = None;
    let mut i: usize = 0;
    while i < ls.len()
        invariant
            i <= ls@.len(),
            gl == lines(text@),
            ls@.len() == gl.len(),
            forall|k: int| 0 <= k < ls@.len() ==> #[trigger] ls@[k]@ == gl[k],
            config_scan(gl, 0, scan_start()) == config_scan(
                gl,
                i as int,
                ConfigScan {
                    in_receiver,
                    host: vview(host),
                    model: vview(model),
                    friendly_name: vview(friendly_name),
                },
            ),
        decreases ls@.len() - i,
    {
        let ghost st = ConfigScan {
            in_receiver,
            host: vview(host),
            model: vview(model),
            friendly_name: vview(friendly_name),
        };
        assert(ls@[i as int]@ == gl[i as int]);
        let line = trim_vec(&ls[i]);
        proof {
            reveal_strlit("receiver:");
        }
        let receiver_header = chars_of("receiver:");
        if line.len() == 0 || line[0] == '#' {
            i += 1;
            continue;
        }
        if eq_chars(&line, &receiver_header) {
            in_receiver = true;
            i += 1;
            continue;
        }
        if !in_receiver {
            return Err(ConfigError::Invalid(line_error(i, " is outside receiver")));
        }
        proof {
            lemma_first_index(line@, ':');
        }
        let colon = match index_of(&line, ':') {
            Some(c) => c,
            None => {
                return Err(ConfigError::Invalid(line_error(i, " is not key/value")));
            },
        };
        let key_raw = sub_vec(&line, 0, colon);
        assert(key_raw@ =~= line@.take(colon as int));
        let key = trim_vec(&key_raw);
        let value_raw = sub_vec(&line, colon + 1, line.len());
        assert(value_raw@ =~= line@.skip(colon + 1));
        let value_trimmed = trim_vec(&value_raw);
        let value_q = trim_matches_exec(&value_trimmed, '"');
        let value = trim_matches_exec(&value_q, '\'');
        if is_key(&key, "host") {
            host = Some(value);
        } else if is_key(&key, "model") {
            model = Some(value);
        } else if is_key(&key, "friendly_name") {
            friendly_name = Some(value);
        } else {
            let mut m: Vec<char> = Vec::new();
            push_str(&mut m, "unknown receiver field ");
            push_chars(&mut m, &key);
            return Err(ConfigError::Invalid(string_of(&m)));
        }
        i += 1;
    }
    let host = match host {
        Some(h) => if h.len() > 0 {
            h
        } else {
            return Err(ConfigError::Invalid(crate::text::owned("receiver.host is required")));
        },
        None => return Err(ConfigError::Invalid(crate::text::owned("receiver.host is required"))),
    };
    Ok(Config {
        receiver: ReceiverIdentity {
            host: string_of(&host),
            model: match model {
                Some(m) => Some(string_of(&m)),
                None => None,
            },
            friendly_name: match friendly_name {
                Some(m) => Some(string_of(&m)),
                None => None,
            },
        },
    })
}

/// The text `save` writes for a configuration.
pub open spec fn config_text(config: Config) -> Seq<char> {
    "receiver:\n  host: "@ + config.receiver.host@ + "\n"@ + match config.receiver.model {
        Some(m) => "  model: "@ + m@ + "\n"@,
        None => Seq::empty(),
    } + match config.receiver.friendly_name {
        Some(n) => "  friendly_name: "@ + n@ + "\n"@,
        None => Seq::empty(),
    }
}

pub fn render_config(config: &Config) -> (r: String)
    ensures
        r@ == config_text(*config),
{
    let mut v: Vec<char> = Vec::new();
    push_str(&mut v, "receiver:\n  host: ");
    push_str(&mut v, config.receiver.host.as_str());
    push_str(&mut v, "\n");
    let ghost a = v@;
    if let Some(model) = &config.receiver.model {
        push_str(&mut v, "  model: ");
        push_str(&mut v, model.as_str());
        push_str(&mut v, "\n");
    }
    let ghost b = v@;
    if let Some(name) = &config.receiver.friendly_name {
        push_str(&mut v, "  friendly_name: ");
        push_str(&mut v, name.as_str());
        push_str(&mut v, "\n");
    }
    assert(v@ =~= config_text(*config));
    string_of(&v)
}


/// A value that is written and read back unchanged: one line, no surrounding
/// whitespace, and no quote at either end.
pub open spec fn clean_value(v: Seq<char>) -> bool {
    &&& !has_char(v, '\n')
    &&& trim(v) == v
    &&& v.len() > 0 ==> v[0] != '"' && v[0] != '\'' && v.last() != '"' && v.last() != '\''
}

/// A configuration whose saved text loads back as itself.
pub open spec fn clean_config(c: Config) -> bool {
    &&& c.receiver.host@.len() > 0
    &&& clean_value(c.receiver.host@)
    &&& c.receiver.model matches Some(m) ==> clean_value(m@)
    &&& c.receiver.friendly_name matches Some(n) ==> clean_value(n@)
}

proof fn lemma_lines_cons(a: Seq<char>, rest: Seq<char>)
    requires
        !has_char(a, '\n'),
    ensures
        lines(a + seq!['\n'] + rest) == seq![line_body(a)] + lines(rest),
{
    let s = a + seq!['\n'] + rest;
    lemma_first_index(s, '\n');
    assert(s[a.len() as int] == '\n');
    let i = first_index(s, '\n');
    if i < a.len() {
        assert(s[i] == a[i]);
    }
    assert(i == a.len());
    assert(s.take(i) =~= a);
    assert(s.skip(i + 1) =~= rest);
}

proof fn lemma_trim_len(s: Seq<char>)
    ensures
        trim_start(s).len() <= s.len(),
        trim_end(s).len() <= s.len(),
        s.len() > 0 && is_ws(s[0]) ==> trim_start(s).len() < s.len(),
        s.len() > 0 && is_ws(s.last()) ==> trim_end(s).len() < s.len(),
    decreases s.len(),
{
    if s.len() > 0 {
        lemma_trim_len(s.drop_first());
        lemma_trim_len(s.drop_last());
    }
}

/// The ends of a trimmed value are not whitespace.
proof fn lemma_trimmed_ends(v: Seq<char>)
    requires
        trim(v) == v,
        v.len() > 0,
    ensures
        !is_ws(v[0]),
        !is_ws(v.last()),
{
    lemma_trim_len(v);
    lemma_trim_len(trim_start(v));
    if is_ws(v[0]) {
        assert(trim(v).len() < v.len());
    }
    if trim_start(v) == v && is_ws(v.last()) {
        assert(trim(v).len() < v.len());
    }
}


/// The result of reading a saved `key: value` line inside the receiver section.
pub open spec fn with_field(st: ConfigScan, key: Seq<char>, v: Seq<char>) -> ConfigScan {
    if key == "host"@ {
        ConfigScan { host: Some(v), ..st }
    } else if key == "model"@ {
        ConfigScan { model: Some(v), ..st }
    } else {
        ConfigScan { friendly_name: Some(v), ..st }
    }
}

proof fn lemma_plain_trim(s: Seq<char>)
    requires
        s.len() > 0,
        !is_ws(s[0]),
        !is_ws(s.last()),
    ensures
        trim(s) == s,
{
}

proof fn lemma_field_step(key: Seq<char>, v: Seq<char>, n: int, st: ConfigScan)
    requires
        key == "host"@ || key == "model"@ || key == "friendly_name"@,
        clean_value(v),
        st.in_receiver,
    ensures
        config_step("  "@ + key + ": "@ + v, n, st) == Ok::<ConfigScan, Seq<char>>(with_field(st, key, v)),
{
    reveal_strlit("host");
    reveal_strlit("model");
    reveal_strlit("friendly_name");
    reveal_strlit("receiver:");
    reveal_strlit("  ");
    reveal_strlit(": ");
    assert(key.len() > 0);
    assert(forall|j: int| 0 <= j < key.len() ==> key[j] != ':' && !is_ws(key[j]) && key[j] != '#');
    let l = "  "@ + key + ": "@ + v;
    assert(is_ws(l[0]) && is_ws(l[1]));
    lemma_trim_start_skip(l, 2);
    let u = l.skip(2);
    assert(u =~= key + ": "@ + v);
    assert(u[0] == key[0]);
    assert(trim_start(l) == u);
    let t = trim(l);
    if v.len() > 0 {
        lemma_trimmed_ends(v);
        assert(u.last() == v.last());
        assert(t == u);
    } else {
        assert(u.drop_last() =~= key + seq![':']);
        assert(trim_end(u) == trim_end(u.drop_last()));
        assert(t =~= key + seq![':']);
    }
    assert(t[0] == key[0]);
    assert(t[key.len() as int] == ':');
    assert(t != "receiver:"@) by {
        assert("receiver:"@[0] == 'r');
    }
    lemma_first_index(t, ':');
    let i = first_index(t, ':');
    if i < key.len() {
        assert(t[i] == key[i]);
    }
    assert(i == key.len());
    assert(t.take(i) =~= key);
    lemma_plain_trim(key);
    let rest = t.skip(i + 1);
    if v.len() > 0 {
        assert(rest =~= seq![' '] + v);
        lemma_trim_start_skip(rest, 1);
        assert(rest.skip(1) =~= v);
        assert(trim(rest) == trim(v));
    } else {
        assert(rest =~= Seq::<char>::empty());
    }
    assert(trim(rest) == v);
    assert(trim_matches(v, '"') == v);
    assert(trim_matches(v, '\'') == v);
}


proof fn lemma_field_text_step(key: Seq<char>, w: Seq<char>, n: int, st: ConfigScan)
    requires
        key == "host"@ || key == "model"@ || key == "friendly_name"@,
        trim(w) == w,
        st.in_receiver,
    ensures
        config_step("  "@ + key + ": "@ + w, n, st) == Ok::<ConfigScan, Seq<char>>(
            with_field(st, key, trim_matches(trim_matches(w, '"'), '\'')),
        ),
{
    reveal_strlit("host");
    reveal_strlit("model");
    reveal_strlit("friendly_name");
    reveal_strlit("receiver:");
    reveal_strlit("  ");
    reveal_strlit(": ");
    assert(key.len() > 0);
    assert(forall|j: int| 0 <= j < key.len() ==> key[j] != ':' && !is_ws(key[j]) && key[j] != '#');
    let l = "  "@ + key + ": "@ + w;
    assert(is_ws(l[0]) && is_ws(l[1]));
    lemma_trim_start_skip(l, 2);
    let u = l.skip(2);
    assert(u =~= key + ": "@ + w);
    assert(u[0] == key[0]);
    assert(trim_start(l) == u);
    let t = trim(l);
    if w.len() > 0 {
        lemma_trimmed_ends(w);
        assert(u.last() == w.last());
        assert(t == u);
    } else {
        assert(u.drop_last() =~= key + seq![':']);
        assert(trim_end(u) == trim_end(u.drop_last()));
        assert(t =~= key + seq![':']);
    }
    assert(t[0] == key[0]);
    assert(t[key.len() as int] == ':');
    assert(t != "receiver:"@) by {
        assert("receiver:"@[0] == 'r');
    }
    lemma_first_index(t, ':');
    let i = first_index(t, ':');
    if i < key.len() {
        assert(t[i] == key[i]);
    }
    assert(i == key.len());
    assert(t.take(i) =~= key);
    lemma_plain_trim(key);
    let rest = t.skip(i + 1);
    if w.len() > 0 {
        assert(rest =~= seq![' '] + w);
        lemma_trim_start_skip(rest, 1);
        assert(rest.skip(1) =~= w);
        assert(trim(rest) == trim(w));
    } else {
        assert(rest =~= Seq::<char>::empty());
    }
    assert(trim(rest) == w);
}

proof fn lemma_strip_quotes(v: Seq<char>, q: char, c: char)
    requires
        clean_value(v),
        q == '"' || q == '\'',
        c == '"' || c == '\'',
    ensures
        q == c ==> trim_matches(seq![q] + v + seq![q], c) == v,
        q != c ==> trim_matches(seq![q] + v + seq![q], c) == seq![q] + v + seq![q],
{
    let w = seq![q] + v + seq![q];
    if q == c {
        assert(w.drop_first() =~= v + seq![q]);
        let a = v + seq![q];
        if v.len() > 0 {
            assert(a[0] == v[0]);
            assert(strip_start_all(a, c) == a);
            assert(strip_start_all(w, c) == a);
            assert(a.drop_last() =~= v);
            assert(strip_end_all(a, c) == strip_end_all(v, c));
            assert(strip_end_all(v, c) == v);
        } else {
            assert(a =~= seq![q]);
            assert(a.drop_first() =~= Seq::<char>::empty());
            assert(strip_start_all(Seq::<char>::empty(), c) == Seq::<char>::empty());
            assert(a.len() > 0 && a[0] == c);
            assert(strip_start_all(a, c) == strip_start_all(a.drop_first(), c));
            assert(strip_start_all(a, c) == Seq::<char>::empty());
            assert(strip_start_all(w, c) == Seq::<char>::empty());
            assert(v =~= Seq::<char>::empty());
        }
    } else {
        assert(w[0] == q);
        assert(w.last() == q);
    }
}

/// A value in double or single quotes loads as the text between them: for
/// a clean value `v`, the line `  key: "v"` (or `  key: 'v'`) inside the
/// receiver section sets the field to `v`.
pub proof fn lemma_quoted_field_step(key: Seq<char>, v: Seq<char>, n: int, st: ConfigScan)
    requires
        key == "host"@ || key == "model"@ || key == "friendly_name"@,
        clean_value(v),
        st.in_receiver,
    ensures
        config_step("  "@ + key + ": \""@ + v + "\""@, n, st) == Ok::<ConfigScan, Seq<char>>(with_field(st, key, v)),
        config_step("  "@ + key + ": '"@ + v + "'"@, n, st) == Ok::<ConfigScan, Seq<char>>(with_field(st, key, v)),
{
    reveal_strlit(": \"");
    reveal_strlit("\"");
    reveal_strlit(": '");
    reveal_strlit("'");
    reveal_strlit(": ");
    let dq = seq!['"'] + v + seq!['"'];
    let sq = seq!['\''] + v + seq!['\''];
    assert("  "@ + key + ": \""@ + v + "\""@ =~= "  "@ + key + ": "@ + dq);
    assert("  "@ + key + ": '"@ + v + "'"@ =~= "  "@ + key + ": "@ + sq);
    assert(!is_ws('"') && !is_ws('\''));
    assert(dq[0] == '"' && dq.last() == '"');
    assert(sq[0] == '\'' && sq.last() == '\'');
    lemma_plain_trim(dq);
    lemma_plain_trim(sq);
    lemma_field_text_step(key, dq, n, st);
    lemma_field_text_step(key, sq, n, st);
    lemma_strip_quotes(v, '"', '"');
    lemma_strip_quotes(v, '\'', '"');
    lemma_strip_quotes(v, '\'', '\'');
    assert(trim_matches(v, '\'') == v);
}

proof fn lemma_scan_step(ls: Seq<Seq<char>>, i: int, st: ConfigScan, next: ConfigScan)
    requires
        0 <= i < ls.len(),
        config_step(ls[i], i, st) == Ok::<ConfigScan, Seq<char>>(next),
    ensures
        config_scan(ls, i, st) == config_scan(ls, i + 1, next),
{
}

/// The saved line of one field, as `save` writes it.
pub open spec fn field_line(key: Seq<char>, v: Seq<char>) -> Seq<char> {
    "  "@ + key + ": "@ + v
}

proof fn lemma_field_line_body(key: Seq<char>, v: Seq<char>)
    requires
        key == "host"@ || key == "model"@ || key == "friendly_name"@,
        clean_value(v),
    ensures
        line_body(field_line(key, v)) == field_line(key, v),
        !has_char(field_line(key, v), '\n'),
{
    reveal_strlit("host");
    reveal_strlit("model");
    reveal_strlit("friendly_name");
    reveal_strlit("  ");
    reveal_strlit(": ");
    let l = field_line(key, v);
    if v.len() > 0 {
        lemma_trimmed_ends(v);
        assert(l.last() == v.last());
    } else {
        assert(l.last() == ' ');
    }
    assert forall|j: int| 0 <= j < l.len() implies l[j] != '\n' by {
        if j >= l.len() - v.len() {
            assert(l[j] == v[j - (l.len() - v.len())]);
        }
    }
}

/// What `load` reads from the text `save` wrote: the same receiver, for every
/// configuration whose values are single trimmed lines without surrounding
/// quotes and whose host is not empty.
pub proof fn lemma_config_round_trip(c: Config)
    requires
        clean_config(c),
    ensures
        config_result(config_text(c)) matches Ok(st) && st.host == Some(c.receiver.host@)
            && st.model == opt_view(c.receiver.model) && st.friendly_name == opt_view(
            c.receiver.friendly_name),
{
    reveal_strlit("receiver:\n  host: ");
    reveal_strlit("receiver:");
    reveal_strlit("  host: ");
    reveal_strlit("  model: ");
    reveal_strlit("  friendly_name: ");
    reveal_strlit("\n");
    reveal_strlit("host");
    reveal_strlit("model");
    reveal_strlit("friendly_name");
    reveal_strlit("  ");
    reveal_strlit(": ");
    let h = c.receiver.host@;
    let text = config_text(c);
    let host_line = field_line("host"@, h);
    let mtail: Seq<char> = match c.receiver.model {
        Some(m) => "  model: "@ + m@ + "\n"@,
        None => Seq::empty(),
    };
    let ntail: Seq<char> = match c.receiver.friendly_name {
        Some(n) => "  friendly_name: "@ + n@ + "\n"@,
        None => Seq::empty(),
    };
    let rest = mtail + ntail;
    assert(text =~= "receiver:"@ + seq!['\n'] + (host_line + seq!['\n'] + rest));
    assert(!has_char("receiver:"@, '\n')) by {
        assert(forall|j: int| 0 <= j < "receiver:"@.len() ==> "receiver:"@[j] != '\n');
    }
    lemma_lines_cons("receiver:"@, host_line + seq!['\n'] + rest);
    lemma_field_line_body("host"@, h);
    lemma_lines_cons(host_line, rest);
    let ntl: Seq<Seq<char>> = match c.receiver.friendly_name {
        Some(n) => seq![field_line("friendly_name"@, n@)],
        None => Seq::empty(),
    };
    let mtl: Seq<Seq<char>> = match c.receiver.model {
        Some(m) => seq![field_line("model"@, m@)],
        None => Seq::empty(),
    };
    assert(lines(Seq::<char>::empty()) =~= Seq::<Seq<char>>::empty());
    match c.receiver.friendly_name {
        Some(n) => {
            lemma_field_line_body("friendly_name"@, n@);
            assert(ntail =~= field_line("friendly_name"@, n@) + seq!['\n'] + Seq::<char>::empty());
            lemma_lines_cons(field_line("friendly_name"@, n@), Seq::<char>::empty());
            assert(lines(ntail) =~= ntl);
        },
        None => {
            assert(lines(ntail) =~= ntl);
        },
    }
    match c.receiver.model {
        Some(m) => {
            lemma_field_line_body("model"@, m@);
            assert(rest =~= field_line("model"@, m@) + seq!['\n'] + ntail);
            lemma_lines_cons(field_line("model"@, m@), ntail);
            assert(lines(rest) =~= mtl + ntl);
        },
        None => {
            assert(rest =~= ntail);
            assert(lines(rest) =~= mtl + ntl);
        },
    }
    let ls = lines(text);
    assert(line_body("receiver:"@) == "receiver:"@);
    assert(ls =~= seq!["receiver:"@, host_line] + mtl + ntl);
    let st0 = scan_start();
    let st1 = ConfigScan { in_receiver: true, ..st0 };
    assert(trim("receiver:"@) == "receiver:"@) by {
        lemma_plain_trim("receiver:"@);
    }
    lemma_scan_step(ls, 0, st0, st1);
    let st2 = with_field(st1, "host"@, h);
    lemma_field_step("host"@, h, 1, st1);
    lemma_scan_step(ls, 1, st1, st2);
    let st3 = match c.receiver.model {
        Some(m) => with_field(st2, "model"@, m@),
        None => st2,
    };
    let k: int = 2 + mtl.len() as int;
    match c.receiver.model {
        Some(m) => {
            lemma_field_step("model"@, m@, 2, st2);
            lemma_scan_step(ls, 2, st2, st3);
        },
        None => {},
    }
    let st4 = match c.receiver.friendly_name {
        Some(n) => with_field(st3, "friendly_name"@, n@),
        None => st3,
    };
    match c.receiver.friendly_name {
        Some(n) => {
            lemma_field_step("friendly_name"@, n@, k, st3);
            lemma_scan_step(ls, k, st3, st4);
        },
        None => {},
    }
    assert(config_scan(ls, 0, st0) == Ok::<ConfigScan, Seq<char>>(st4));
}

} // verus!
