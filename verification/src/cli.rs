//! The command line of `denon-avr-remote`: its grammar, and the controls its
//! `set` values stand for.
use crate::domain::capabilities::{control_allowed, ModelCapabilities};
use crate::domain::{
    level_ok, token_ok, Input, MainZoneControl, MainZoneField, MainZoneValue, MuteState,
    PowerState, SurroundMode, VolumeLevel,
};
use crate::domain::receiver::{receivers_view, ConfiguredReceivers, DiscoveredReceiver, ReceiverIdentity};
use crate::table::entry_at;
use crate::text::{
    decimal, decimal_exec, push_chars, all_digits, chars_of, digits_upto, digits_value, eq_chars, first_index, index_of,
    lemma_first_index, owned, parse_unsigned, parse_unsigned_exec, push_str, str_eq, string_of,
    sub_vec, trim, trim_bounds,
};
use vstd::prelude::*;

verus! {

#[derive(Debug, Clone, Copy, PartialEq, Eq, Structural)]
pub enum Resource {
    Receivers,
    Capabilities,
    Status,
    Power,
    Input,
    Volume,
    Mute,
    Surround,
}

pub open spec fn quoted(prefix: Seq<char>, value: Seq<char>) -> Seq<char> {
    prefix + " '"@ + value + "'"@
}

pub open spec fn resource_of(v: Seq<char>) -> Result<Resource, Seq<char>> {
    if v == "receivers"@ {
        Ok(Resource::Receivers)
    } else if v == "capabilities"@ {
        Ok(Resource::Capabilities)
    } else if v == "status"@ {
        Ok(Resource::Status)
    } else if v == "power"@ {
        Ok(Resource::Power)
    } else if v == "input"@ {
        Ok(Resource::Input)
    } else if v == "volume"@ || v == "level"@ {
        Ok(Resource::Volume)
    } else if v == "mute"@ {
        Ok(Resource::Mute)
    } else if v == "surround"@ || v == "surround-mode"@ {
        Ok(Resource::Surround)
    } else {
        Err(quoted("unknown resource"@, v))
    }
}

fn quote(prefix: &str, value: &str) -> (r: String)
    ensures
        r@ == quoted(prefix@, value@),
{
    let mut v = chars_of(prefix);
    push_str(&mut v, " '");
    push_str(&mut v, value);
    push_str(&mut v, "'");
    string_of(&v)
}

impl Resource {
    pub fn parse(value: &str) -> (r: Result<Self, String>)
        ensures
            match resource_of(value@) {
                Ok(x) => r == Ok::<Resource, String>(x),
                Err(m) => r matches Err(e) && e@ == m,
            },
    {
        if str_eq(value, "receivers") {
            Ok(Resource::Receivers)
        } else if str_eq(value, "capabilities") {
            Ok(Resource::Capabilities)
        } else if str_eq(value, "status") {
            Ok(Resource::Status)
        } else if str_eq(value, "power") {
            Ok(Resource::Power)
        } else if str_eq(value, "input") {
            Ok(Resource::Input)
        } else if str_eq(value, "volume") || str_eq(value, "level") {
            Ok(Resource::Volume)
        } else if str_eq(value, "mute") {
            Ok(Resource::Mute)
        } else if str_eq(value, "surround") || str_eq(value, "surround-mode") {
            Ok(Resource::Surround)
        } else {
            Err(quote("unknown resource", value))
        }
    }
}

#[derive(Debug, Clone, Copy, PartialEq, Eq, Structural)]
pub enum Operation {
    Power,
    Input,
    Volume,
    Mute,
    Surround,
}

pub open spec fn operation_of(v: Seq<char>) -> Result<Operation, Seq<char>> {
    if v == "power"@ {
        Ok(Operation::Power)
    } else if v == "input"@ {
        Ok(Operation::Input)
    } else if v == "volume"@ || v == "level"@ {
        Ok(Operation::Volume)
    } else if v == "mute"@ {
        Ok(Operation::Mute)
    } else if v == "surround"@ || v == "surround-mode"@ {
        Ok(Operation::Surround)
    } else {
        Err(quoted("unknown set operation"@, v))
    }
}

impl Operation {
    pub fn parse(value: &str) -> (r: Result<Self, String>)
        ensures
            match operation_of(value@) {
                Ok(x) => r == Ok::<Operation, String>(x),
                Err(m) => r matches Err(e) && e@ == m,
            },
    {
        if str_eq(value, "power") {
            Ok(Operation::Power)
        } else if str_eq(value, "input") {
            Ok(Operation::Input)
        } else if str_eq(value, "volume") || str_eq(value, "level") {
            Ok(Operation::Volume)
        } else if str_eq(value, "mute") {
            Ok(Operation::Mute)
        } else if str_eq(value, "surround") || str_eq(value, "surround-mode") {
            Ok(Operation::Surround)
        } else {
            Err(quote("unknown set operation", value))
        }
    }
}

/// Which receiver a command addresses: a discovered one by zero-based index, or a host.
#[derive(Debug, Clone, PartialEq, Eq)]
pub struct Selection {
    pub receiver: Option<usize>,
    pub host: Option<String>,
}

pub struct SelectionView {
    pub receiver: Option<usize>,
    pub host: Option<Seq<char>>,
}

pub open spec fn opt_text(o: Option<String>) -> Option<Seq<char>> {
    match o {
        Some(s) => Some(s@),
        None => None,
    }
}

impl View for Selection {
    type V = SelectionView;

    open spec fn view(&self) -> SelectionView {
        SelectionView { receiver: self.receiver, host: opt_text(self.host) }
    }
}

impl Selection {
    pub fn default() -> (r: Self)
        ensures
            r.receiver is None,
            r.host is None,
    {
        Selection { receiver: None, host: None }
    }
}

pub open spec fn no_selection() -> SelectionView {
    SelectionView { receiver: None, host: None }
}

pub open spec fn combined_outcome(s: SelectionView) -> Result<SelectionView, Seq<char>> {
    if s.host is Some && s.receiver is Some {
        Err("--host and --receiver cannot be combined"@)
    } else {
        Ok(s)
    }
}

/// `--host` with `args[i]` as its value.
pub open spec fn host_outcome(args: Seq<Seq<char>>, i: int, s: SelectionView) -> Result<SelectionView, Seq<char>> {
    if s.host is Some {
        Err("--host may be specified only once"@)
    } else if i >= args.len() || trim(args[i]).len() == 0 {
        Err("--host requires a non-empty address"@)
    } else {
        combined_outcome(SelectionView { host: Some(args[i]), ..s })
    }
}

/// `--receiver` with `args[i]` as its value: a one-based number.
pub open spec fn receiver_outcome(args: Seq<Seq<char>>, i: int, s: SelectionView) -> Result<SelectionView, Seq<char>> {
    if s.receiver is Some {
        Err("--receiver may be specified only once"@)
    } else if i >= args.len() {
        Err("--receiver requires a positive number"@)
    } else {
        match parse_unsigned(args[i]) {
            Some(n) => if 0 < n <= usize::MAX {
                combined_outcome(SelectionView { receiver: Some((n - 1) as usize), ..s })
            } else {
                Err("--receiver requires a positive number"@)
            },
            None => Err("--receiver requires a positive number"@),
        }
    }
}

/// The selectors from `args[i]` on.
pub open spec fn selection_outcome(args: Seq<Seq<char>>, i: int, s: SelectionView) -> Result<SelectionView, Seq<char>>
    decreases args.len() - i,
{
    if i < 0 || i >= args.len() {
        Ok(s)
    } else if args[i] == "--host"@ {
        match host_outcome(args, i + 1, s) {
            Err(m) => Err(m),
            Ok(next) => selection_outcome(args, i + 2, next),
        }
    } else if args[i] == "--receiver"@ {
        match receiver_outcome(args, i + 1, s) {
            Err(m) => Err(m),
            Ok(next) => selection_outcome(args, i + 2, next),
        }
    } else {
        Err(quoted("unexpected argument"@, args[i]))
    }
}

pub fn reject_combined_selector(selection: &Selection) -> (r: Result<(), String>)
    ensures
        match combined_outcome(selection@) {
            Ok(_) => r is Ok,
            Err(m) => r matches Err(e) && e@ == m,
        },
{
    if selection.host.is_some() && selection.receiver.is_some() {
        Err(owned("--host and --receiver cannot be combined"))
    } else {
        Ok(())
    }
}

pub open spec fn strings_view(v: Seq<String>) -> Seq<Seq<char>> {
    v.map_values(|s: String| s@)
}

/// Reads `--host VALUE`, `*next` at the value.
pub fn parse_host(selection: &mut Selection, args: &[String], next: &mut usize) -> (r: Result<(), String>)
    requires
        *old(next) <= args@.len(),
    ensures
        match host_outcome(strings_view(args@), *old(next) as int, old(selection)@) {
            Ok(s) => r is Ok && final(selection)@ == s && *final(next) == *old(next) + 1,
            Err(m) => r matches Err(e) && e@ == m,
        },
{
    if selection.host.is_some() {
        return Err(owned("--host may be specified only once"));
    }
    if *next >= args.len() {
        return Err(owned("--host requires a non-empty address"));
    }
    let value = &args[*next];
    let v = chars_of(value.as_str());
    let (a, b) = trim_bounds(&v);
    if a == b {
        return Err(owned("--host requires a non-empty address"));
    }
    selection.host = Some(value.clone());
    *next = *next + 1;
    reject_combined_selector(selection)
}

/// Reads `--receiver N`, `*next` at the number.
pub fn parse_receiver(selection: &mut Selection, args: &[String], next: &mut usize) -> (r: Result<(), String>)
    requires
        *old(next) <= args@.len(),
    ensures
        match receiver_outcome(strings_view(args@), *old(next) as int, old(selection)@) {
            Ok(s) => r is Ok && final(selection)@ == s && *final(next) == *old(next) + 1,
            Err(m) => r matches Err(e) && e@ == m,
        },
{
    if selection.receiver.is_some() {
        return Err(owned("--receiver may be specified only once"));
    }
    if *next >= args.len() {
        return Err(owned("--receiver requires a positive number"));
    }
    let v = chars_of(args[*next].as_str());
    let index = match parse_unsigned_exec(&v, usize::MAX as u64) {
        Some(n) => n as usize,
        None => return Err(owned("--receiver requires a positive number")),
    };
    if index == 0 {
        return Err(owned("--receiver requires a positive number"));
    }
    selection.receiver = Some(index - 1);
    *next = *next + 1;
    reject_combined_selector(selection)
}

/// Reads the selectors from `args[start]` on.
pub fn parse_selection(args: &[String], start: usize) -> (r: Result<Selection, String>)
    requires
        start <= args@.len(),
    ensures
        match selection_outcome(strings_view(args@), start as int, no_selection()) {
            Ok(s) => r matches Ok(sel) && sel@ == s,
            Err(m) => r matches Err(e) && e@ == m,
        },
{
    let ghost a = strings_view(args@);
    let mut selection = Selection::default();
    let mut i = start;
    while i < args.len()
        invariant
            start <= i <= args@.len(),
            a == strings_view(args@),
            selection_outcome(a, start as int, no_selection()) == selection_outcome(a, i as int, selection@),
        decreases args@.len() - i,
    {
        let argument = args[i].as_str();
        assert(a[i as int] == argument@);
        let mut next = i + 1;
        if str_eq(argument, "--host") {
            match parse_host(&mut selection, args, &mut next) {
                Ok(()) => {},
                Err(e) => return Err(e),
            }
        } else if str_eq(argument, "--receiver") {
            match parse_receiver(&mut selection, args, &mut next) {
                Ok(()) => {},
                Err(e) => return Err(e),
            }
        } else {
            return Err(quote("unexpected argument", argument));
        }
        i = next;
    }
    Ok(selection)
}

#[derive(Debug, Clone, PartialEq, Eq)]
pub enum Command {
    Help,
    Version,
    Get(Resource, Selection),
    Change {
        operation: Operation,
        value: String,
        selection: Selection,
        resource_version: Option<u64>,
        dry_run: bool,
    },
}

pub enum CommandView {
    Help,
    Version,
    Get(Resource, SelectionView),
    Change {
        operation: Operation,
        value: Seq<char>,
        selection: SelectionView,
        resource_version: Option<u64>,
        dry_run: bool,
    },
}

impl View for Command {
    type V = CommandView;

    open spec fn view(&self) -> CommandView {
        match self {
            Command::Help => CommandView::Help,
            Command::Version => CommandView::Version,
            Command::Get(r, s) => CommandView::Get(*r, s@),
            Command::Change { operation, value, selection, resource_version, dry_run } => CommandView::Change {
                operation: *operation,
                value: value@,
                selection: selection@,
                resource_version: *resource_version,
                dry_run: *dry_run,
            },
        }
    }
}

/// `get RESOURCE [selectors]`, with `args[1]` the resource.
pub open spec fn get_outcome(args: Seq<Seq<char>>) -> Result<CommandView, Seq<char>> {
    if args.len() < 2 {
        Err("get requires a resource"@)
    } else {
        match resource_of(args[1]) {
            Err(m) => Err(m),
            Ok(resource) => match selection_outcome(args, 2, no_selection()) {
                Err(m) => Err(m),
                Ok(s) => if resource == Resource::Receivers && (s.receiver is Some || s.host is Some) {
                    Err("get receivers does not accept --host or --receiver"@)
                } else {
                    Ok(CommandView::Get(resource, s))
                },
            },
        }
    }
}

pub struct SetOptions {
    pub selection: SelectionView,
    pub resource_version: Option<u64>,
    pub dry_run: bool,
}

/// The options of `set` from `args[i]` on.
pub open spec fn set_options(args: Seq<Seq<char>>, i: int, o: SetOptions) -> Result<SetOptions, Seq<char>>
    decreases args.len() - i,
{
    if i < 0 || i >= args.len() {
        Ok(o)
    } else if args[i] == "--resource-version"@ {
        if o.resource_version is Some {
            Err("--resource-version may be specified only once"@)
        } else if i + 1 >= args.len() {
            Err("--resource-version requires a non-negative number"@)
        } else {
            match parse_unsigned(args[i + 1]) {
                Some(n) => if n <= u64::MAX {
                    set_options(args, i + 2, SetOptions { resource_version: Some(n as u64), ..o })
                } else {
                    Err("--resource-version requires a non-negative number"@)
                },
                None => Err("--resource-version requires a non-negative number"@),
            }
        }
    } else if args[i] == "--dry-run"@ {
        if o.dry_run {
            Err("--dry-run may be specified only once"@)
        } else {
            set_options(args, i + 1, SetOptions { dry_run: true, ..o })
        }
    } else if args[i] == "--host"@ {
        match host_outcome(args, i + 1, o.selection) {
            Err(m) => Err(m),
            Ok(s) => set_options(args, i + 2, SetOptions { selection: s, ..o }),
        }
    } else if args[i] == "--receiver"@ {
        match receiver_outcome(args, i + 1, o.selection) {
            Err(m) => Err(m),
            Ok(s) => set_options(args, i + 2, SetOptions { selection: s, ..o }),
        }
    } else {
        Err(quoted("unexpected argument"@, args[i]))
    }
}

/// `set OPERATION VALUE [options]`.
pub open spec fn set_outcome(args: Seq<Seq<char>>) -> Result<CommandView, Seq<char>> {
    if args.len() < 2 {
        Err("set requires an operation"@)
    } else {
        match operation_of(args[1]) {
            Err(m) => Err(m),
            Ok(operation) => if args.len() < 3 {
                Err("set requires a value"@)
            } else {
                match set_options(args, 3, SetOptions { selection: no_selection(), resource_version: None, dry_run: false }) {
                    Err(m) => Err(m),
                    Ok(o) => Ok(
                        CommandView::Change {
                            operation,
                            value: args[2],
                            selection: o.selection,
                            resource_version: o.resource_version,
                            dry_run: o.dry_run,
                        },
                    ),
                }
            },
        }
    }
}

/// The command the arguments (without the program name) ask for.
pub open spec fn command_outcome(args: Seq<Seq<char>>) -> Result<CommandView, Seq<char>> {
    if args.len() == 0 {
        Ok(CommandView::Help)
    } else if args[0] == "help"@ || args[0] == "--help"@ || args[0] == "-h"@ {
        if args.len() > 1 {
            Err("help does not accept arguments"@)
        } else {
            Ok(CommandView::Help)
        }
    } else if args[0] == "--version"@ || args[0] == "-V"@ || args[0] == "version"@ {
        if args.len() > 1 {
            Err("version does not accept arguments"@)
        } else {
            Ok(CommandView::Version)
        }
    } else if args[0] == "get"@ {
        get_outcome(args)
    } else if args[0] == "set"@ {
        set_outcome(args)
    } else {
        Err("unknown command '"@ + args[0] + "'; expected get or set"@)
    }
}

pub open spec fn command_view(r: Result<Command, String>) -> Result<CommandView, Seq<char>> {
    match r {
        Ok(c) => Ok(c@),
        Err(e) => Err(e@),
    }
}

/// Reads `get RESOURCE [selectors]`.
pub fn parse_get(args: &[String]) -> (r: Result<Command, String>)
    requires
        args@.len() >= 1,
    ensures
        command_view(r) == get_outcome(strings_view(args@)),
{
    if args.len() < 2 {
        return Err(owned("get requires a resource"));
    }
    let resource = match Resource::parse(args[1].as_str()) {
        Ok(r) => r,
        Err(e) => return Err(e),
    };
    let selection = match parse_selection(args, 2) {
        Ok(s) => s,
        Err(e) => return Err(e),
    };
    if resource == Resource::Receivers && (selection.receiver.is_some() || selection.host.is_some()) {
        return Err(owned("get receivers does not accept --host or --receiver"));
    }
    Ok(Command::Get(resource, selection))
}

/// Reads `set OPERATION VALUE [options]`.
pub fn parse_set(args: &[String]) -> (r: Result<Command, String>)
    requires
        args@.len() >= 1,
    ensures
        command_view(r) == set_outcome(strings_view(args@)),
{
    let ghost a = strings_view(args@);
    if args.len() < 2 {
        return Err(owned("set requires an operation"));
    }
    let operation = match Operation::parse(args[1].as_str()) {
        Ok(o) => o,
        Err(e) => return Err(e),
    };
    if args.len() < 3 {
        return Err(owned("set requires a value"));
    }
    let value = args[2].clone();
    let mut selection = Selection::default();
    let mut resource_version: Option<u64> = None;
    let mut dry_run = false;
    let ghost start = SetOptions { selection: no_selection(), resource_version: None, dry_run: false };
    let mut i: usize = 3;
    while i < args.len()
        invariant
            3 <= i <= args@.len(),
            a == strings_view(args@),
            set_options(a, 3, start) == set_options(a, i as int, SetOptions { selection: selection@, resource_version, dry_run }),
            start == (SetOptions { selection: no_selection(), resource_version: None, dry_run: false }),
            operation_of(a[1]) == Ok::<Operation, Seq<char>>(operation),
            a.len() >= 3,
            value@ == a[2],
        decreases args@.len() - i,
    {
        let argument = args[i].as_str();
        assert(a[i as int] == argument@);
        if str_eq(argument, "--resource-version") {
            if resource_version.is_some() {
                return Err(owned("--resource-version may be specified only once"));
            }
            if i + 1 >= args.len() {
                return Err(owned("--resource-version requires a non-negative number"));
            }
            assert(a[i + 1] == args@[i + 1]@);
            let raw = chars_of(args[i + 1].as_str());
            match parse_unsigned_exec(&raw, u64::MAX) {
                Some(n) => {
                    resource_version = Some(n);
                },
                None => return Err(owned("--resource-version requires a non-negative number")),
            }
            i = i + 2;
        } else if str_eq(argument, "--dry-run") {
            if dry_run {
                return Err(owned("--dry-run may be specified only once"));
            }
            dry_run = true;
            i = i + 1;
        } else if str_eq(argument, "--host") {
            let mut next = i + 1;
            match parse_host(&mut selection, args, &mut next) {
                Ok(()) => {},
                Err(e) => return Err(e),
            }
            i = next;
        } else if str_eq(argument, "--receiver") {
            let mut next = i + 1;
            match parse_receiver(&mut selection, args, &mut next) {
                Ok(()) => {},
                Err(e) => return Err(e),
            }
            i = next;
        } else {
            return Err(quote("unexpected argument", argument));
        }
    }
    assert(a[2] == value@);
    Ok(Command::Change { operation, value, selection, resource_version, dry_run })
}

/// Reads the arguments that follow the program name.
pub fn parse_args(args: &[String]) -> (r: Result<Command, String>)
    ensures
        command_view(r) == command_outcome(strings_view(args@)),
{
    if args.len() == 0 {
        return Ok(Command::Help);
    }
    let ghost a = strings_view(args@);
    let command = args[0].as_str();
    assert(a[0] == command@);
    if str_eq(command, "help") || str_eq(command, "--help") || str_eq(command, "-h") {
        if args.len() > 1 {
            return Err(owned("help does not accept arguments"));
        }
        return Ok(Command::Help);
    }
    if str_eq(command, "--version") || str_eq(command, "-V") || str_eq(command, "version") {
        if args.len() > 1 {
            return Err(owned("version does not accept arguments"));
        }
        return Ok(Command::Version);
    }
    if str_eq(command, "get") {
        parse_get(args)
    } else if str_eq(command, "set") {
        parse_set(args)
    } else {
        let mut v = chars_of("unknown command '");
        push_str(&mut v, command);
        push_str(&mut v, "'; expected get or set");
        Err(string_of(&v))
    }
}


/// The tenths a volume text such as `50` or `50.5` stands for: digits, then at
/// most one decimal digit, read as `u16` arithmetic that does not overflow.
pub open spec fn volume_tenths_of(v: Seq<char>) -> Option<int> {
    let dot = first_index(v, '.');
    let whole = if dot < 0 { v } else { v.take(dot) };
    let fraction = if dot < 0 { "0"@ } else { v.skip(dot + 1) };
    if whole.len() > 0 && all_digits(whole) && fraction.len() == 1 && all_digits(fraction)
        && digits_value(whole) * 10 + digits_value(fraction) <= 65535 {
        Some((digits_value(whole) * 10 + digits_value(fraction)) as int)
    } else {
        None
    }
}

pub open spec fn volume_level_outcome(v: Seq<char>) -> Option<int> {
    match volume_tenths_of(v) {
        Some(t) => if level_ok(t) {
            Some(t)
        } else {
            None
        },
        None => None,
    }
}

fn digits_only(v: &[char]) -> (r: bool)
    ensures
        r == all_digits(v@),
{
    let mut i: usize = 0;
    while i < v.len()
        invariant
            i <= v@.len(),
            forall|j: int| 0 <= j < i ==> crate::text::is_digit(v@[j]),
        decreases v@.len() - i,
    {
        if !('0' <= v[i] && v[i] <= '9') {
            return false;
        }
        i += 1;
    }
    true
}

/// A volume level from its text; every failure has the one message.
pub fn parse_volume_level(value: &str) -> (r: Result<VolumeLevel, String>)
    ensures
        match volume_level_outcome(value@) {
            Some(t) => r matches Ok(l) && l.tenths_spec() == t,
            None => r matches Err(e) && e@ == "volume level must be between 0.0 and 100.0 in 0.5 steps"@,
        },
{
    let v = chars_of(value);
    proof {
        lemma_first_index(v@, '.');
    }
    let (whole, fraction) = match index_of(&v, '.') {
        Some(dot) => (sub_vec(&v, 0, dot), sub_vec(&v, dot + 1, v.len())),
        None => (sub_vec(&v, 0, v.len()), chars_of("0")),
    };
    proof {
        reveal_strlit("0");
    }
    assert(whole@ =~= (if first_index(v@, '.') < 0 { v@ } else { v@.take(first_index(v@, '.')) }));
    assert(fraction@ =~= (if first_index(v@, '.') < 0 { "0"@ } else { v@.skip(first_index(v@, '.') + 1) }));
    if whole.len() == 0 || !digits_only(&whole) || fraction.len() != 1 || !digits_only(&fraction) {
        return Err(owned("volume level must be between 0.0 and 100.0 in 0.5 steps"));
    }
    let w = match digits_upto(&whole, 0, whole.len(), 6553) {
        Some(w) => w,
        None => {
            assert(whole@.subrange(0, whole@.len() as int) =~= whole@);
            return Err(owned("volume level must be between 0.0 and 100.0 in 0.5 steps"));
        },
    };
    assert(whole@.subrange(0, whole@.len() as int) =~= whole@);
    let f = (fraction[0] as u32 - '0' as u32) as u64;
    assert(fraction@.drop_last() =~= Seq::<char>::empty());
    assert(fraction@.last() == fraction@[0]);
    assert(digits_value(fraction@.drop_last()) == 0);
    assert(digits_value(fraction@) == f);
    let tenths = w * 10 + f;
    if tenths > 65535 {
        return Err(owned("volume level must be between 0.0 and 100.0 in 0.5 steps"));
    }
    match VolumeLevel::new(tenths as u16) {
        Ok(level) => Ok(level),
        Err(_) => Err(owned("volume level must be between 0.0 and 100.0 in 0.5 steps")),
    }
}

pub open spec fn operation_field_of(operation: Operation) -> MainZoneField {
    match operation {
        Operation::Power => MainZoneField::Power,
        Operation::Input => MainZoneField::Input,
        Operation::Volume => MainZoneField::Volume,
        Operation::Mute => MainZoneField::Mute,
        Operation::Surround => MainZoneField::SurroundMode,
    }
}

/// The field a `set` operation changes.
pub fn operation_field(operation: Operation) -> (r: MainZoneField)
    ensures
        r == operation_field_of(operation),
{
    match operation {
        Operation::Power => MainZoneField::Power,
        Operation::Input => MainZoneField::Input,
        Operation::Volume => MainZoneField::Volume,
        Operation::Mute => MainZoneField::Mute,
        Operation::Surround => MainZoneField::SurroundMode,
    }
}

/// The control a `set` asks for, when the value reads and the model allows it.
pub fn parse_control(operation: Operation, value: &str, capabilities: &ModelCapabilities) -> (r: Result<MainZoneControl, String>)
    ensures
        r matches Ok(c) ==> control_allowed(*capabilities, c),
        operation == Operation::Power ==> (value@ == "on"@ ==> (control_allowed(*capabilities, MainZoneControl::Power(PowerState::On)) <==> r == Ok::<MainZoneControl, String>(MainZoneControl::Power(PowerState::On)))),
        operation == Operation::Power ==> ((value@ == "off"@ || value@ == "standby"@) ==> (control_allowed(*capabilities, MainZoneControl::Power(PowerState::Standby)) <==> r == Ok::<MainZoneControl, String>(MainZoneControl::Power(PowerState::Standby)))),
        operation == Operation::Power && !(value@ == "on"@ || value@ == "off"@ || value@ == "standby"@) ==> (r matches Err(e) && e@ == "power must be on, off, or standby"@),
        operation == Operation::Mute ==> (value@ == "on"@ ==> (control_allowed(*capabilities, MainZoneControl::Mute(MuteState::On)) <==> r == Ok::<MainZoneControl, String>(MainZoneControl::Mute(MuteState::On)))),
        operation == Operation::Mute ==> (value@ == "off"@ ==> (control_allowed(*capabilities, MainZoneControl::Mute(MuteState::Off)) <==> r == Ok::<MainZoneControl, String>(MainZoneControl::Mute(MuteState::Off)))),
        operation == Operation::Mute && !(value@ == "on"@ || value@ == "off"@) ==> (r matches Err(e) && e@ == "mute must be on or off"@),
        operation == Operation::Volume ==> match volume_level_outcome(value@) {
            Some(t) => (r matches Ok(MainZoneControl::Volume(l)) && l.tenths_spec() == t) || (r matches Err(e) && e@ == "requested value is not in the validated capability allowlist"@),
            None => r matches Err(e) && e@ == "volume level must be between 0.0 and 100.0 in 0.5 steps"@,
        },
        operation == Operation::Input ==> (r matches Ok(c) ==> c matches MainZoneControl::Input(i) && i.text() == value@),
        operation == Operation::Surround ==> (r matches Ok(c) ==> c matches MainZoneControl::SurroundMode(m) && m.text() == value@),
{
    proof {
        reveal_strlit("on");
        reveal_strlit("off");
        reveal_strlit("standby");
    }
    let control = match operation {
        Operation::Power => {
            if str_eq(value, "on") {
                MainZoneControl::Power(PowerState::On)
            } else if str_eq(value, "off") || str_eq(value, "standby") {
                MainZoneControl::Power(PowerState::Standby)
            } else {
                return Err(owned("power must be on, off, or standby"));
            }
        },
        Operation::Input => match capabilities.input(value) {
            Ok(i) => MainZoneControl::Input(i),
            Err(m) => return Err(owned(m)),
        },
        Operation::Volume => match parse_volume_level(value) {
            Ok(l) => MainZoneControl::Volume(l),
            Err(e) => return Err(e),
        },
        Operation::Mute => {
            if str_eq(value, "on") {
                MainZoneControl::Mute(MuteState::On)
            } else if str_eq(value, "off") {
                MainZoneControl::Mute(MuteState::Off)
            } else {
                return Err(owned("mute must be on or off"));
            }
        },
        Operation::Surround => match capabilities.surround_mode(value) {
            Ok(m) => MainZoneControl::SurroundMode(m),
            Err(m) => return Err(owned(m)),
        },
    };
    if capabilities.supports_control(&control) {
        Ok(control)
    } else {
        Err(owned("requested value is not in the validated capability allowlist"))
    }
}

pub open spec fn control_matches_spec(control: MainZoneControl, value: MainZoneValue) -> bool {
    match (control, value) {
        (MainZoneControl::Power(a), MainZoneValue::Power(b)) => a == b,
        (MainZoneControl::Input(a), MainZoneValue::Input(b)) => a.text() == b.text(),
        (MainZoneControl::Volume(a), MainZoneValue::Volume(b)) => level_ok(b.db_tenths_spec() + 800)
            && a.tenths_spec() == b.db_tenths_spec() + 800,
        (MainZoneControl::Mute(a), MainZoneValue::Mute(b)) => a == b,
        (MainZoneControl::SurroundMode(a), MainZoneValue::SurroundMode(b)) => a.text() == b.text(),
        _ => false,
    }
}

/// A control matches a reported value exactly when both are of the same
/// field and the receiver reports the requested state: the same power or
/// mute state, the same input or surround-mode text, or a volume whose level
/// is the requested one.
pub proof fn lemma_control_matches_same_state(control: MainZoneControl, value: MainZoneValue)
    ensures
        forall|a: PowerState, b: PowerState| control == MainZoneControl::Power(a) && value == MainZoneValue::Power(b)
            ==> (control_matches_spec(control, value) <==> a == b),
        forall|a: MuteState, b: MuteState| control == MainZoneControl::Mute(a) && value == MainZoneValue::Mute(b)
            ==> (control_matches_spec(control, value) <==> a == b),
        control matches MainZoneControl::Input(a) ==> (control_matches_spec(control, value) <==> (value matches MainZoneValue::Input(b) && a.text() == b.text())),
        control matches MainZoneControl::SurroundMode(a) ==> (control_matches_spec(control, value) <==> (value matches MainZoneValue::SurroundMode(b) && a.text() == b.text())),
        control matches MainZoneControl::Volume(a) ==> (control_matches_spec(control, value) <==> (value matches MainZoneValue::Volume(b)
            && level_ok(b.db_tenths_spec() + 800) && a.tenths_spec() == b.db_tenths_spec() + 800)),
        control is Power ==> (control_matches_spec(control, value) ==> value is Power),
        control is Mute ==> (control_matches_spec(control, value) ==> value is Mute),
{
}

/// Whether the receiver already reports what a control asks for.
pub fn control_matches(control: &MainZoneControl, value: &MainZoneValue) -> (r: bool)
    ensures
        r == control_matches_spec(*control, *value),
{
    match (control, value) {
        (MainZoneControl::Power(a), MainZoneValue::Power(b)) => *a == *b,
        (MainZoneControl::Input(a), MainZoneValue::Input(b)) => str_eq(a.as_str(), b.as_str()),
        (MainZoneControl::Volume(a), MainZoneValue::Volume(b)) => match b.level() {
            Ok(level) => level.tenths() == a.tenths(),
            Err(_) => false,
        },
        (MainZoneControl::Mute(a), MainZoneValue::Mute(b)) => *a == *b,
        (MainZoneControl::SurroundMode(a), MainZoneValue::SurroundMode(b)) => str_eq(a.as_str(), b.as_str()),
        _ => false,
    }
}

/// What `set` does once the receiver's state and version are known.
#[derive(Debug, Clone, PartialEq, Eq)]
pub enum SetDecision {
    /// The caller named a version the receiver no longer has.
    Stale { expected: u64, current: u64 },
    /// The receiver already reports the requested value: nothing is sent.
    AlreadySet,
    /// Send the control once; the version it was checked against is `version`.
    Proceed { version: u64 },
}

/// The decision of `set`: a named version must be the current one, and a
/// control the receiver already reports is not sent again.
pub fn set_decision(expected: Option<u64>, current_version: u64, control: &MainZoneControl, current: Option<&MainZoneValue>) -> (r: SetDecision)
    ensures
        expected matches Some(v) && v != current_version ==> (r matches SetDecision::Stale {
            expected: e, current: c } && Some(e) == expected && c == current_version),
        !(expected matches Some(v) && v != current_version) ==> (match current {
            Some(value) => if control_matches_spec(*control, *value) {
                r == SetDecision::AlreadySet
            } else {
                r == (SetDecision::Proceed { version: current_version })
            },
            None => r == (SetDecision::Proceed { version: current_version }),
        }),
{
    if let Some(v) = expected {
        if v != current_version {
            return SetDecision::Stale { expected: v, current: current_version };
        }
    }
    match current {
        Some(value) => if control_matches(control, value) {
            SetDecision::AlreadySet
        } else {
            SetDecision::Proceed { version: current_version }
        },
        None => SetDecision::Proceed { version: current_version },
    }
}

/// The message of a stale `set`.
pub fn stale_version_message(expected: u64, current: u64) -> (r: String)
    ensures
        r@ == "stale resource version: expected "@ + decimal(expected as nat) + ", current "@ + decimal(
            current as nat) + "; run get status"@,
{
    let mut v = chars_of("stale resource version: expected ");
    push_chars(&mut v, &decimal_exec(expected));
    push_str(&mut v, ", current ");
    push_chars(&mut v, &decimal_exec(current));
    push_str(&mut v, "; run get status");
    string_of(&v)
}

/// Which receiver a `set` writes to.
#[derive(Debug, Clone, PartialEq, Eq)]
pub enum WriteTarget {
    /// The host given with `--host`.
    Host(String),
    /// Discovered receiver number `index`, counted from zero.
    Discovered(usize),
    /// The saved receiver in use.
    Saved,
}

/// `--host` wins, then `--receiver`, then the saved receiver.
pub fn write_target(selection: &Selection) -> (r: WriteTarget)
    ensures
        selection.host matches Some(h) ==> (r matches WriteTarget::Host(x) && x@ == h@),
        selection.host is None ==> (selection.receiver matches Some(i) ==> r == WriteTarget::Discovered(i)),
        selection.host is None && selection.receiver is None ==> r == WriteTarget::Saved,
{
    match &selection.host {
        Some(h) => WriteTarget::Host(h.clone()),
        None => match selection.receiver {
            Some(i) => WriteTarget::Discovered(i),
            None => WriteTarget::Saved,
        },
    }
}

/// The saved receiver a `set` without selector writes to.
pub fn saved_write_identity(config: &ConfiguredReceivers) -> (r: Result<(String, ReceiverIdentity), String>)
    ensures
        match self_current(config) {
            Some((name, identity)) => r matches Ok((n, i)) && n@ == name && i.host@ == identity.host@
                && i.model == identity.model && i.friendly_name == identity.friendly_name,
            None => r matches Err(m) && m@ == "set requires a saved receiver or an explicit selector"@,
        },
{
    match config.current() {
        Some((name, identity)) => Ok((owned(name), ReceiverIdentity {
            host: identity.host.clone(),
            model: identity.model.clone(),
            friendly_name: identity.friendly_name.clone(),
        })),
        None => Err(owned("set requires a saved receiver or an explicit selector")),
    }
}

/// The saved receiver in use, by name, when there is one.
pub open spec fn self_current(config: &ConfiguredReceivers) -> Option<(Seq<char>, ReceiverIdentity)> {
    match config.current {
        None => None,
        Some(name) => match entry_at(receivers_view(config.receivers@), name@) {
            Some(identity) => Some((name@, identity)),
            None => None,
        },
    }
}

/// The field a `get` of one resource shows, if it shows one field.
pub fn resource_field(resource: Resource) -> (r: Option<MainZoneField>)
    ensures
        r == match resource {
            Resource::Power => Some(MainZoneField::Power),
            Resource::Input => Some(MainZoneField::Input),
            Resource::Volume => Some(MainZoneField::Volume),
            Resource::Mute => Some(MainZoneField::Mute),
            Resource::Surround => Some(MainZoneField::SurroundMode),
            _ => None::<MainZoneField>,
        },
{
    match resource {
        Resource::Power => Some(MainZoneField::Power),
        Resource::Input => Some(MainZoneField::Input),
        Resource::Volume => Some(MainZoneField::Volume),
        Resource::Mute => Some(MainZoneField::Mute),
        Resource::Surround => Some(MainZoneField::SurroundMode),
        _ => None,
    }
}

/// The two lines naming the receiver a command talks to and its resource version.
pub fn target_text(identity: &ReceiverIdentity, version: u64) -> (r: String)
    ensures
        r@ == "Receiver: "@ + match identity.friendly_name {
            Some(n) => n@,
            None => match identity.model {
                Some(m) => m@,
                None => "receiver"@,
            },
        } + " ("@ + identity.host@ + ")\nResource version: "@ + decimal(version as nat),
{
    let mut v = chars_of("Receiver: ");
    match &identity.friendly_name {
        Some(n) => push_str(&mut v, n.as_str()),
        None => match &identity.model {
            Some(m) => push_str(&mut v, m.as_str()),
            None => push_str(&mut v, "receiver"),
        },
    }
    push_str(&mut v, " (");
    push_str(&mut v, identity.host.as_str());
    push_str(&mut v, ")\nResource version: ");
    push_chars(&mut v, &decimal_exec(version));
    string_of(&v)
}

/// The name a discovered receiver is listed under.
pub open spec fn listed_name(receiver: DiscoveredReceiver) -> Seq<char> {
    match receiver.model {
        Some(m) => m@,
        None => match receiver.server {
            Some(s) => s@,
            None => "Denon receiver"@,
        },
    }
}

/// One line of the receiver list, numbered from one.
pub open spec fn listed_line(index: int, receiver: DiscoveredReceiver) -> Seq<char> {
    decimal((index + 1) as nat) + ". "@ + listed_name(receiver) + " ("@ + receiver.address.host@ + ")"@
}

/// The lines listing discovered receivers, numbered from one.
pub fn receiver_lines(receivers: &[DiscoveredReceiver]) -> (r: Vec<String>)
    requires
        receivers@.len() < u64::MAX,
    ensures
        r@.len() == receivers@.len(),
        forall|i: int| 0 <= i < r@.len() ==> #[trigger] r@[i]@ == listed_line(i, receivers@[i]),
{
    let mut out: Vec<String> = Vec::new();
    let mut i: usize = 0;
    while i < receivers.len()
        invariant
            i <= receivers@.len() < u64::MAX,
            out@.len() == i,
            forall|k: int| 0 <= k < i ==> #[trigger] out@[k]@ == listed_line(k, receivers@[k]),
        decreases receivers@.len() - i,
    {
        let receiver = &receivers[i];
        let mut v = decimal_exec((i as u64) + 1);
        push_str(&mut v, ". ");
        match &receiver.model {
            Some(m) => push_str(&mut v, m.as_str()),
            None => match &receiver.server {
                Some(s) => push_str(&mut v, s.as_str()),
                None => push_str(&mut v, "Denon receiver"),
            },
        }
        push_str(&mut v, " (");
        push_str(&mut v, receiver.address.host.as_str());
        push_str(&mut v, ")");
        out.push(string_of(&v));
        i += 1;
    }
    out
}

/// The usage text.
pub fn usage() -> (r: &'static str)
    ensures
        r@ == USAGE@,
{
    USAGE
}

pub const USAGE: &'static str = "Usage:\n  denon-avr-remote get <resource> [selector]\n  denon-avr-remote set <operation> <value> [options] [selector]\n\nCommands:\n  get receivers\n  get capabilities [selector]\n  get status [selector]\n  get power|input|volume|level|mute|surround [selector]\n  set power|input|volume|level|mute|surround <value> [options] [selector]\n\nSelectors:\n  --host HOST           Query or control a receiver directly\n  --receiver N          Use discovered receiver N (one-based)\n\nSet options:\n  --resource-version N  Optional expected snapshot version; current version is used when omitted\n  --dry-run             Validate and show the planned action without dispatching\n\nGlobal options:\n  -h, --help            Show this help\n  -V, --version         Show the package version\n\nVolume values use 0.0–100.0 in 0.5 steps. 'level' aliases 'volume';\n'surround-mode' aliases 'surround'; 'off' aliases power 'standby'.";

} // verus!
