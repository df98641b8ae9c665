//! Where saved receivers live, and the shapes the TOML and the legacy YAML
//! files give them. Reading, writing and (de)serialising the files is the
//! caller's; this module decides paths and what the records mean.
use crate::domain::receiver::{
    opt_name, receivers_valid_outcome, receivers_view, ConfiguredReceivers, ReceiverIdentity,
};
use crate::session::{OperationError, OperationErrorKind};
use crate::text::{has_char, is_digit, lemma_decimal_digits, chars_of, decimal, decimal_exec, owned, push_chars, push_str, string_of, trim, trim_bounds};
use vstd::prelude::*;

verus! {

/// What `std::path::Path::with_extension` makes of `path` and `extension`.
pub uninterp spec fn with_extension_of(path: Seq<char>, extension: Seq<char>) -> Seq<char>;

/// An extension without a path separator, which `Path::with_extension` accepts.
pub open spec fn separator_free(s: Seq<char>) -> bool {
    !has_char(s, '/') && !has_char(s, '\\')
}

/// `Path::new(path).with_extension(extension)` as text. Both are UTF-8, so
/// the conversion back to a `String` loses nothing. `with_extension` panics on
/// an extension holding a path separator, which `requires` leaves out.
#[verifier::external_body]
fn path_with_extension(path: &str, extension: &str) -> (r: String)
    requires
        separator_free(extension@),
    ensures
        r@ == with_extension_of(path@, extension@),
{
    std::path::Path::new(path).with_extension(extension).to_string_lossy().into_owned()
}

/// The multi-receiver TOML configuration file.
#[derive(Debug, Clone, PartialEq, Eq)]
pub struct TomlConfigRepository {
    path: String,
}

impl TomlConfigRepository {
    pub closed spec fn path_view(&self) -> Seq<char> {
        self.path@
    }

    pub fn new(path: &str) -> (r: Self)
        ensures
            r.path_view() == path@,
    {
        TomlConfigRepository { path: owned(path) }
    }

    pub fn path(&self) -> (r: &str)
        ensures
            r@ == self.path_view(),
    {
        self.path.as_str()
    }
}

/// The file a new configuration is written to before it replaces the old one.
pub fn temporary_path(path: &str) -> (r: String)
    ensures
        r@ == with_extension_of(path@, "toml.tmp"@),
{
    proof {
        reveal_strlit("toml.tmp");
    }
    path_with_extension(path, "toml.tmp")
}

/// The legacy single-receiver YAML configuration file.
#[derive(Debug, Clone, PartialEq, Eq)]
pub struct YamlConfigRepository {
    path: String,
}

impl YamlConfigRepository {
    pub closed spec fn path_view(&self) -> Seq<char> {
        self.path@
    }

    pub fn new(path: &str) -> (r: Self)
        ensures
            r.path_view() == path@,
    {
        YamlConfigRepository { path: owned(path) }
    }

    pub fn path(&self) -> (r: &str)
        ensures
            r@ == self.path_view(),
    {
        self.path.as_str()
    }

    /// `config/denon-avr-remote.yaml`.
    pub fn default() -> (r: Self)
        ensures
            r.path_view() == "config/denon-avr-remote.yaml"@,
    {
        Self::new("config/denon-avr-remote.yaml")
    }
}

pub open spec fn unique_extension(suffix: Seq<char>, process: u32, counter: u64) -> Seq<char> {
    "yaml."@ + suffix + "."@ + decimal(process as nat) + "."@ + decimal(counter as nat)
}

/// `path` with the extension `yaml.{suffix}.{process}.{counter}`: a name no
/// other writer in this process, nor another process, uses.
pub fn create_unique_path(path: &str, suffix: &str, process: u32, counter: u64) -> (r: String)
    requires
        separator_free(suffix@),
    ensures
        r@ == with_extension_of(path@, unique_extension(suffix@, process, counter)),
{
    let mut extension = chars_of("yaml.");
    push_str(&mut extension, suffix);
    push_str(&mut extension, ".");
    push_chars(&mut extension, &decimal_exec(process as u64));
    push_str(&mut extension, ".");
    push_chars(&mut extension, &decimal_exec(counter));
    assert(extension@ =~= unique_extension(suffix@, process, counter));
    proof {
        reveal_strlit("yaml.");
        reveal_strlit(".");
        lemma_decimal_digits(process as nat);
        lemma_decimal_digits(counter as nat);
        let e = extension@;
        let a = "yaml."@ + suffix@ + "."@;
        let d1 = decimal(process as nat);
        let d2 = decimal(counter as nat);
        assert(e =~= a + d1 + "."@ + d2);
        assert forall|i: int| 0 <= i < e.len() implies e[i] != '/' && e[i] != '\\' by {
            if i < 5 {
            } else if i < 5 + suffix@.len() {
                assert(e[i] == suffix@[i - 5]);
            } else if i < a.len() {
            } else if i < a.len() + d1.len() {
                assert(e[i] == d1[i - a.len()]);
                assert(is_digit(d1[i - a.len()]));
            } else if i < a.len() + d1.len() + 1 {
            } else {
                assert(e[i] == d2[i - a.len() - d1.len() - 1]);
                assert(is_digit(d2[i - a.len() - d1.len() - 1]));
            }
        }
    }
    let text = string_of(&extension);
    path_with_extension(path, text.as_str())
}

/// The temporary file a YAML configuration is written to first.
pub fn create_temporary_path(path: &str, process: u32, counter: u64) -> (r: String)
    ensures
        r@ == with_extension_of(path@, unique_extension("tmp"@, process, counter)),
{
    proof {
        reveal_strlit("tmp");
    }
    create_unique_path(path, "tmp", process, counter)
}

/// Where the old YAML configuration is kept while the new one is installed.
pub fn backup_path(path: &str, process: u32, counter: u64) -> (r: String)
    ensures
        r@ == with_extension_of(path@, unique_extension("bak"@, process, counter)),
{
    proof {
        reveal_strlit("bak");
    }
    create_unique_path(path, "bak", process, counter)
}

pub open spec fn optional_text_of(value: Option<Seq<char>>) -> Option<Seq<char>> {
    match value {
        Some(text) => if trim(text).len() == 0 {
            None
        } else {
            Some(text)
        },
        None => None,
    }
}

/// A text that holds more than white space.
pub fn optional_text(value: Option<String>) -> (r: Option<String>)
    ensures
        opt_name(r) == optional_text_of(opt_name(value)),
{
    match value {
        Some(text) => {
            let v = chars_of(text.as_str());
            let (a, b) = trim_bounds(&v);
            if a == b {
                None
            } else {
                Some(text)
            }
        },
        None => None,
    }
}

/// The receiver record of the legacy YAML file.
#[derive(Debug, Clone, PartialEq, Eq)]
pub struct ReceiverRecord {
    pub host: String,
    pub model: Option<String>,
    pub friendly_name: Option<String>,
}

/// The one receiver of a legacy file, in use under its friendly name or `default`.
pub fn decode_config_file(record: ReceiverRecord) -> (r: ConfiguredReceivers)
    ensures
        r.receivers@.len() == 1,
        r.receivers@[0].1.host@ == record.host@,
        opt_name(r.receivers@[0].1.model) == optional_text_of(opt_name(record.model)),
        opt_name(r.receivers@[0].1.friendly_name) == optional_text_of(opt_name(record.friendly_name)),
        opt_name(r.current) == Some(r.receivers@[0].0@),
        r.receivers@[0].0@ == match optional_text_of(opt_name(record.friendly_name)) {
            Some(name) => name,
            None => "default"@,
        },
{
    let identity = ReceiverIdentity {
        host: record.host,
        model: optional_text(record.model),
        friendly_name: optional_text(record.friendly_name),
    };
    let name = match &identity.friendly_name {
        Some(n) => n.clone(),
        None => owned("default"),
    };
    let current = name.clone();
    ConfiguredReceivers { current: Some(current), receivers: vec![(name, identity)] }
}

/// An operation failure of kind `kind` in `context`.
pub fn create_operation_error(kind: OperationErrorKind, context: &str, error: &str) -> (r: OperationError)
    ensures
        r.kind == kind,
        r.context@ == context@,
        r.message@ == error@,
{
    OperationError::new(kind, context, error)
}

/// The record a legacy file keeps of a valid configuration with one receiver.
pub fn encode_config_file(config: &ConfiguredReceivers) -> (r: Result<ReceiverRecord, OperationError>)
    ensures
        receivers_valid_outcome(opt_name(config.current), receivers_view(config.receivers@)) matches Err(m)
            ==> (r matches Err(e) && e.kind == OperationErrorKind::Configuration && e.context@ == "validating configuration"@ && e.message@ == m),
        receivers_valid_outcome(opt_name(config.current), receivers_view(config.receivers@)) is Ok ==> ({
            &&& config.receivers@.len() > 1 ==> (r matches Err(e) && e.message@ == "legacy YAML supports exactly one receiver"@)
            &&& config.receivers@.len() == 0 ==> (r matches Err(e) && e.message@ == "at least one receiver is required"@)
            &&& config.receivers@.len() == 1 ==> (r matches Ok(record) && record.host@ == config.receivers@[0].1.host@
                && opt_name(record.model) == optional_text_of(opt_name(config.receivers@[0].1.model))
                && opt_name(record.friendly_name) == optional_text_of(opt_name(config.receivers@[0].1.friendly_name)))
        }),
{
    match config.validate() {
        Ok(()) => {},
        Err(e) => return Err(create_operation_error(OperationErrorKind::Configuration, "validating configuration", e.as_str())),
    }
    if config.receivers.len() > 1 {
        return Err(create_operation_error(OperationErrorKind::Configuration, "encoding configuration", "legacy YAML supports exactly one receiver"));
    }
    if config.receivers.len() == 0 {
        return Err(create_operation_error(OperationErrorKind::Configuration, "encoding configuration", "at least one receiver is required"));
    }
    let identity = &config.receivers[0].1;
    Ok(ReceiverRecord {
        host: identity.host.clone(),
        model: optional_text(identity.model.clone()),
        friendly_name: optional_text(identity.friendly_name.clone()),
    })
}


/// A receiver's fields by their text.
pub open spec fn identity_view(i: ReceiverIdentity) -> (Seq<char>, Option<Seq<char>>, Option<Seq<char>>) {
    (i.host@, opt_name(i.model), opt_name(i.friendly_name))
}

pub open spec fn record_view(r: ReceiverRecord) -> (Seq<char>, Option<Seq<char>>, Option<Seq<char>>) {
    (r.host@, opt_name(r.model), opt_name(r.friendly_name))
}

/// The saved receivers by name and fields.
pub open spec fn config_table(receivers: Seq<(String, ReceiverIdentity)>) -> Seq<(Seq<char>, (Seq<char>, Option<Seq<char>>, Option<Seq<char>>))> {
    receivers.map_values(|p: (String, ReceiverIdentity)| (p.0@, identity_view(p.1)))
}

/// The entries of a TOML file by name and fields.
pub open spec fn entries_view(entries: Seq<(String, ReceiverRecord)>) -> Seq<(Seq<char>, (Seq<char>, Option<Seq<char>>, Option<Seq<char>>))> {
    entries.map_values(|p: (String, ReceiverRecord)| (p.0@, record_view(p.1)))
}

/// The receiver a TOML record names.
pub open spec fn identity_of_record(r: ReceiverRecord) -> ReceiverIdentity {
    ReceiverIdentity { host: r.host, model: r.model, friendly_name: r.friendly_name }
}

pub open spec fn identity_entries(entries: Seq<(String, ReceiverRecord)>) -> Seq<(Seq<char>, ReceiverIdentity)> {
    entries.map_values(|p: (String, ReceiverRecord)| (p.0@, identity_of_record(p.1)))
}

/// The name-ordered table a file's entries make, as a map keyed by name
/// fills it: in order, a later entry replacing an earlier one of the same name.
pub open spec fn table_of<V>(entries: Seq<(Seq<char>, V)>) -> Seq<(Seq<char>, V)>
    decreases entries.len(),
{
    if entries.len() == 0 {
        seq![]
    } else {
        crate::table::sorted_insert(table_of(entries.drop_last()), entries.last().0, entries.last().1)
    }
}

/// Names strictly in order.
pub open spec fn names_ordered<V>(t: Seq<(Seq<char>, V)>) -> bool {
    forall|i: int, j: int| 0 <= i < j < t.len() ==> crate::text::text_lt(t[i].0, t[j].0)
}

fn configuration_error(context: &str, message: &str) -> (r: OperationError)
    ensures
        r.kind == OperationErrorKind::Configuration,
        r.context@ == context@,
        r.message@ == message@,
{
    create_operation_error(OperationErrorKind::Configuration, context, message)
}

/// The current name and the records the TOML file holds for a configuration,
/// which must be valid.
pub fn toml_entries(config: &ConfiguredReceivers) -> (r: Result<(Option<String>, Vec<(String, ReceiverRecord)>), OperationError>)
    ensures
        receivers_valid_outcome(opt_name(config.current), receivers_view(config.receivers@)) matches Err(m)
            ==> (r matches Err(e) && e.kind == OperationErrorKind::Configuration && e.context@ == "validating configuration"@ && e.message@ == m),
        receivers_valid_outcome(opt_name(config.current), receivers_view(config.receivers@)) is Ok
            ==> (r matches Ok((current, entries)) && opt_name(current) == opt_name(config.current)
            && entries_view(entries@) == config_table(config.receivers@)),
{
    match config.validate() {
        Ok(()) => {},
        Err(e) => return Err(configuration_error("validating configuration", e.as_str())),
    }
    let current = match &config.current {
        Some(c) => Some(owned(c.as_str())),
        None => None,
    };
    let mut entries: Vec<(String, ReceiverRecord)> = Vec::new();
    let mut i: usize = 0;
    while i < config.receivers.len()
        invariant
            i <= config.receivers@.len(),
            entries@.len() == i,
            entries_view(entries@) == config_table(config.receivers@.take(i as int)),
        decreases config.receivers@.len() - i,
    {
        let (name, identity) = (&config.receivers[i].0, &config.receivers[i].1);
        let record = ReceiverRecord {
            host: owned(identity.host.as_str()),
            model: match &identity.model {
                Some(m) => Some(owned(m.as_str())),
                None => None,
            },
            friendly_name: match &identity.friendly_name {
                Some(n) => Some(owned(n.as_str())),
                None => None,
            },
        };
        assert(record_view(record) == identity_view(config.receivers@[i as int].1));
        let ghost before = entries@;
        entries.push((owned(name.as_str()), record));
        assert(entries@ == before.push(entries@[i as int]));
        assert(config.receivers@.take(i + 1) =~= config.receivers@.take(i as int).push(config.receivers@[i as int]));
        assert(entries_view(entries@) =~= entries_view(before).push((config.receivers@[i as int].0@, identity_view(config.receivers@[i as int].1))));
        assert(entries_view(entries@) =~= config_table(config.receivers@.take(i + 1)));
        i += 1;
    }
    assert(config.receivers@.take(i as int) =~= config.receivers@);
    Ok((current, entries))
}

/// The configuration a TOML file's entries describe, if it is valid.
pub fn config_from_toml_entries(current: Option<String>, entries: Vec<(String, ReceiverRecord)>) -> (r: Result<ConfiguredReceivers, OperationError>)
    ensures
        ({
            let table = table_of(identity_entries(entries@));
            &&& receivers_valid_outcome(opt_name(current), table) matches Err(m) ==> (r matches Err(e)
                && e.kind == OperationErrorKind::Configuration && e.context@ == "validating configuration"@ && e.message@ == m)
            &&& receivers_valid_outcome(opt_name(current), table) is Ok ==> (r matches Ok(c)
                && receivers_view(c.receivers@) == table && opt_name(c.current) == opt_name(current))
        }),
{
    let ghost all = entries@;
    let mut table: Vec<(String, ReceiverIdentity)> = Vec::new();
    let mut rest = entries;
    let count = rest.len();
    assert(all.len() == count);
    let mut done: usize = 0;
    assert(all.take(0) =~= Seq::<(String, ReceiverRecord)>::empty());
    assert(identity_entries(all.take(0)) =~= Seq::<(Seq<char>, ReceiverIdentity)>::empty());
    while rest.len() > 0
        invariant
            done + rest@.len() == all.len(),
            all.len() <= usize::MAX,
            rest@ == all.skip(done as int),
            receivers_view(table@) == table_of(identity_entries(all.take(done as int))),
        decreases rest@.len(),
    {
        let (name, record) = rest.remove(0);
        proof {
            assert(all[done as int] == (name, record));
            assert(all.skip(done + 1) =~= all.skip(done as int).drop_first());
            assert(all.take(done + 1).drop_last() =~= all.take(done as int));
            assert(identity_entries(all.take(done + 1)).drop_last() =~= identity_entries(all.take(done as int)));
        }
        let ghost key = name@;
        let identity = ReceiverIdentity { host: record.host, model: record.model, friendly_name: record.friendly_name };
        crate::table::insert_by_key(&mut table, name, identity);
        proof {
            assert(receivers_view(table@) =~= crate::table::keyed_pairs(table@));
        }
        done += 1;
    }
    assert(all.take(done as int) =~= all);
    let config = ConfiguredReceivers { current, receivers: table };
    match config.validate() {
        Ok(()) => Ok(config),
        Err(e) => Err(configuration_error("validating configuration", e.as_str())),
    }
}

proof fn lemma_table_of_ordered<V>(t: Seq<(Seq<char>, V)>)
    requires
        names_ordered(t),
    ensures
        table_of(t) == t,
    decreases t.len(),
{
    if t.len() > 0 {
        let d = t.drop_last();
        assert(names_ordered(d));
        lemma_table_of_ordered(d);
        let n = d.len() as int;
        assert forall|j: int| 0 <= j < n implies crate::text::text_lt(#[trigger] d[j].0, t.last().0) by {
            assert(d[j] == t[j]);
        }
        crate::table::lemma_sorted_insert_at(d, t.last().0, t.last().1, n);
        assert(d.take(n) =~= d);
        assert(d.skip(n) =~= Seq::<(Seq<char>, V)>::empty());
        assert(d + seq![(t.last().0, t.last().1)] =~= t);
    }
}

/// What the TOML file gives back of what was saved: loading the entries a
/// configuration with names in order was saved as yields the same receivers,
/// name for name and field for field.
pub proof fn lemma_toml_round_trip(saved: Seq<(String, ReceiverIdentity)>, entries: Seq<(String, ReceiverRecord)>, loaded: Seq<(String, ReceiverIdentity)>)
    requires
        names_ordered(receivers_view(saved)),
        entries_view(entries) == config_table(saved),
        receivers_view(loaded) == table_of(identity_entries(entries)),
    ensures
        config_table(loaded) == config_table(saved),
{
    let ie = identity_entries(entries);
    assert(ie.len() == saved.len()) by {
        assert(entries_view(entries).len() == entries.len());
        assert(config_table(saved).len() == saved.len());
        assert(ie.len() == entries.len());
    }
    assert forall|i: int, j: int| 0 <= i < j < ie.len() implies crate::text::text_lt(ie[i].0, ie[j].0) by {
        assert(entries_view(entries)[i] == config_table(saved)[i]);
        assert(entries_view(entries)[j] == config_table(saved)[j]);
        assert(receivers_view(saved)[i].0 == saved[i].0@);
        assert(receivers_view(saved)[j].0 == saved[j].0@);
    }
    lemma_table_of_ordered(ie);
    assert(receivers_view(loaded) == ie);
    assert(loaded.len() == saved.len());
    assert forall|i: int| 0 <= i < loaded.len() implies config_table(loaded)[i] == config_table(saved)[i] by {
        assert(receivers_view(loaded)[i] == ie[i]);
        assert(entries_view(entries)[i] == config_table(saved)[i]);
    }
    assert(config_table(loaded) =~= config_table(saved));
}

} // verus!
