//! Application-facing receiver operations: which receiver to talk to, what to
//! remember, and how a main-zone status is assembled and shown.
use crate::config::{self, config_result, opt_view, Config, ConfigError, ReceiverIdentity};
use crate::domain::receiver::DiscoveredReceiver;
use crate::response::{self, mute_result, power_result, prefixed_result, result_view, volume_result};
use crate::session::TransportError;
use crate::status::{self, added_exchanges, commands_of, extends, render_text, replies_of, status_commands, status_from_replies, AvrTransport, MainZoneStatus};
use crate::text::{chars_of, owned, parse_unsigned, parse_unsigned_exec, trim, trim_vec};
use vstd::prelude::*;

verus! {

/// Connect timeout a new service starts with, in milliseconds.
pub const DEFAULT_CONNECT_TIMEOUT_MILLIS: u64 = 2000;
/// Read timeout a new service starts with, in milliseconds.
pub const DEFAULT_READ_TIMEOUT_MILLIS: u64 = 1000;

/// Where the configuration lives and how long network operations may take.
pub struct ApplicationService {
    config_path: String,
    connect_timeout_millis: u64,
    read_timeout_millis: u64,
}

impl ApplicationService {
    pub closed spec fn path(&self) -> Seq<char> {
        self.config_path@
    }

    pub closed spec fn connect_millis(&self) -> u64 {
        self.connect_timeout_millis
    }

    pub closed spec fn read_millis(&self) -> u64 {
        self.read_timeout_millis
    }

    /// A service for the configuration at `config_path`, with the default timeouts.
    pub fn new(config_path: &str) -> (s: Self)
        ensures
            s.path() == config_path@,
            s.connect_millis() == DEFAULT_CONNECT_TIMEOUT_MILLIS,
            s.read_millis() == DEFAULT_READ_TIMEOUT_MILLIS,
    {
        ApplicationService {
            config_path: owned(config_path),
            connect_timeout_millis: DEFAULT_CONNECT_TIMEOUT_MILLIS,
            read_timeout_millis: DEFAULT_READ_TIMEOUT_MILLIS,
        }
    }

    /// The same service with other timeouts.
    pub fn with_timeouts(self, connect_millis: u64, read_millis: u64) -> (s: Self)
        ensures
            s.path() == self.path(),
            s.connect_millis() == connect_millis,
            s.read_millis() == read_millis,
    {
        ApplicationService { config_path: self.config_path, connect_timeout_millis: connect_millis, read_timeout_millis: read_millis }
    }

    pub fn config_path(&self) -> (r: &str)
        ensures
            r@ == self.path(),
    {
        self.config_path.as_str()
    }

    pub fn connect_timeout_millis(&self) -> (r: u64)
        ensures
            r == self.connect_millis(),
    {
        self.connect_timeout_millis
    }

    pub fn read_timeout_millis(&self) -> (r: u64)
        ensures
            r == self.read_millis(),
    {
        self.read_timeout_millis
    }

    /// The saved configuration, given the text of the file at the
    /// configuration path (`None` when there is no such file): no file means
    /// nothing saved; otherwise the text is parsed.
    pub fn load_saved(&self, file_text: Option<&str>) -> (r: Result<Option<Config>, ConfigError>)
        ensures
            file_text is None ==> r matches Ok(None),
            file_text matches Some(t) ==> (config_result(t@) matches Err(e) ==> (r matches Err(
                ConfigError::Invalid(m)) && m@ == e)),
            file_text matches Some(t) ==> (config_result(t@) matches Ok(st) ==> (r matches Ok(
                Some(c)) && Some(c.receiver.host@) == st.host && opt_view(c.receiver.model)
                == st.model && opt_view(c.receiver.friendly_name) == st.friendly_name)),
    {
        match file_text {
            None => Ok(None),
            Some(t) => match config::parse(t) {
                Ok(c) => Ok(Some(c)),
                Err(e) => Err(e),
            },
        }
    }

    /// The receiver to use: the one at `index`, or the only one when no
    /// index is given.
    pub fn select_receiver<'a>(&self, receivers: &'a [DiscoveredReceiver], index: Option<usize>) -> (r: Result<&'a DiscoveredReceiver, String>)
        ensures
            receivers@.len() == 0 ==> (r matches Err(m) && m@ == "no receivers discovered"@),
            receivers@.len() > 0 ==> (match index {
                Some(i) => if i < receivers@.len() {
                    r matches Ok(x) && *x == receivers@[i as int]
                } else {
                    r matches Err(m) && m@ == "receiver selection is out of range"@
                },
                None => if receivers@.len() == 1 {
                    r matches Ok(x) && *x == receivers@[0]
                } else {
                    r matches Err(m) && m@ == "receiver selection is required when multiple receivers are discovered"@
                },
            }),
    {
        if receivers.len() == 0 {
            return Err(owned("no receivers discovered"));
        }
        match index {
            Some(i) => if i < receivers.len() {
                Ok(&receivers[i])
            } else {
                Err(owned("receiver selection is out of range"))
            },
            None => if receivers.len() == 1 {
                Ok(&receivers[0])
            } else {
                Err(owned("receiver selection is required when multiple receivers are discovered"))
            },
        }
    }

    /// The identity remembered for a discovered receiver: its host and model, no name.
    pub fn identity_from_discovery(receiver: &DiscoveredReceiver) -> (r: ReceiverIdentity)
        ensures
            r.host@ == receiver.address.host@,
            r.model == receiver.model,
            r.friendly_name is None,
    {
        ReceiverIdentity { host: receiver.address.host.clone(), model: receiver.model.clone(), friendly_name: None }
    }

    /// Queries the main zone of the receiver behind `transport` and hands back
    /// the identity with the status and the configuration text to save for it.
    pub fn query_identity<T: AvrTransport>(&self, transport: &mut T, identity: ReceiverIdentity) -> (r: (ReceiverIdentity, MainZoneStatus, String))
        ensures
            r.0 == identity,
            extends(final(transport).exchanges(), old(transport).exchanges()),
            commands_of(added_exchanges(old(transport).exchanges(), final(transport).exchanges())) == status_commands(),
            r.1.fields() == status_from_replies(
                replies_of(added_exchanges(old(transport).exchanges(), final(transport).exchanges())),
            ),
            r.2@ == config::config_text(Config { receiver: identity }),
    {
        let status = status::query_main_zone(transport);
        let copy = ReceiverIdentity {
            host: identity.host.clone(),
            model: identity.model.clone(),
            friendly_name: identity.friendly_name.clone(),
        };
        let saved = Config { receiver: copy };
        let text = config::render_config(&saved);
        (identity, status, text)
    }

    /// The main-zone status of the receiver behind `transport`.
    pub fn query_main_zone<T: AvrTransport>(&self, transport: &mut T) -> (status: MainZoneStatus)
        ensures
            extends(final(transport).exchanges(), old(transport).exchanges()),
            commands_of(added_exchanges(old(transport).exchanges(), final(transport).exchanges())) == status_commands(),
            status.fields() == status_from_replies(
                replies_of(added_exchanges(old(transport).exchanges(), final(transport).exchanges())),
            ),
    {
        status::query_main_zone(transport)
    }

    /// The first receiver a status query tries: a host given by hand, else the
    /// saved receiver when no discovery index was asked for, else discovery.
    pub fn status_target(requested: Option<usize>, manual_host: Option<String>, saved: Option<Config>) -> (r: StatusTarget)
        ensures
            manual_host matches Some(h) ==> (r matches StatusTarget::Manual(i) && i.host@ == h@
                && i.model is None && i.friendly_name is None),
            manual_host is None && requested is None ==> (saved matches Some(c) ==> r
                == StatusTarget::Saved(c.receiver)),
            manual_host is None ==> (!(saved is Some && requested is None) ==> r
                == StatusTarget::Discover),
    {
        match manual_host {
            Some(host) => StatusTarget::Manual(ReceiverIdentity { host, model: None, friendly_name: None }),
            None => match saved {
                Some(c) => if requested.is_none() {
                    StatusTarget::Saved(c.receiver)
                } else {
                    StatusTarget::Discover
                },
                None => StatusTarget::Discover,
            },
        }
    }

    /// One step of a status query: the next phase and what to do. A host
    /// given by hand is queried and its result is final; otherwise the saved
    /// receiver is tried when no discovery index was asked for, and when there
    /// is none, it cannot be read or its query fails, receivers are
    /// discovered, one is selected and its result is final.
    pub fn query_status_step<R>(&self, phase: StatusQueryPhase, event: StatusQueryEvent<R>) -> (r: (StatusQueryPhase, StatusQueryAction<R>))
        ensures
            match (phase, event) {
                (StatusQueryPhase::Start, StatusQueryEvent::Begin { requested, manual_host }) => match manual_host {
                    Some(h) => r.0 == StatusQueryPhase::Querying && (r.1 matches StatusQueryAction::Query(i)
                        && i.host@ == h@ && i.model is None && i.friendly_name is None),
                    None => r.0 == StatusQueryPhase::LoadingSaved { requested } && r.1 is LoadSaved,
                },
                (StatusQueryPhase::LoadingSaved { requested }, StatusQueryEvent::SavedLoaded(saved)) =>
                    if (saved matches Ok(Some(_))) && requested is None {
                        r.0 == StatusQueryPhase::TryingSaved { requested }
                            && r.1 == StatusQueryAction::<R>::Query(saved->Ok_0->Some_0.receiver)
                    } else {
                        r.0 == StatusQueryPhase::Discovering { requested } && r.1 is Discover
                    },
                (StatusQueryPhase::TryingSaved { requested }, StatusQueryEvent::Queried(q)) => match q {
                    Ok(x) => r.0 == StatusQueryPhase::Done && r.1 == StatusQueryAction::Finish(Ok::<R, String>(x)),
                    Err(_) => r.0 == StatusQueryPhase::Discovering { requested } && r.1 is Discover,
                },
                (StatusQueryPhase::Discovering { requested }, StatusQueryEvent::Discovered(d)) => match d {
                    Err(e) => r.0 == StatusQueryPhase::Done && r.1 == StatusQueryAction::Finish(Err::<R, String>(e)),
                    Ok(list) => match selected_index(list@.len(), requested) {
                        Ok(i) => r.0 == StatusQueryPhase::Querying && (r.1 matches StatusQueryAction::Query(id)
                            && id.host@ == list@[i].address.host@ && id.model == list@[i].model
                            && id.friendly_name is None),
                        Err(m) => r.0 == StatusQueryPhase::Done && (r.1 matches StatusQueryAction::Finish(Err(e)) && e@ == m),
                    },
                },
                (StatusQueryPhase::Querying, StatusQueryEvent::Queried(q)) => r.0 == StatusQueryPhase::Done
                    && r.1 == StatusQueryAction::Finish(q),
                _ => r.0 == phase && r.1 is Ignore,
            },
    {
        match (phase, event) {
            (StatusQueryPhase::Start, StatusQueryEvent::Begin { requested, manual_host }) => match manual_host {
                Some(host) => (StatusQueryPhase::Querying, StatusQueryAction::Query(ReceiverIdentity { host, model: None, friendly_name: None })),
                None => (StatusQueryPhase::LoadingSaved { requested }, StatusQueryAction::LoadSaved),
            },
            (StatusQueryPhase::LoadingSaved { requested }, StatusQueryEvent::SavedLoaded(saved)) => match saved {
                Ok(Some(config)) => if requested.is_none() {
                    (StatusQueryPhase::TryingSaved { requested }, StatusQueryAction::Query(config.receiver))
                } else {
                    (StatusQueryPhase::Discovering { requested }, StatusQueryAction::Discover)
                },
                _ => (StatusQueryPhase::Discovering { requested }, StatusQueryAction::Discover),
            },
            (StatusQueryPhase::TryingSaved { requested }, StatusQueryEvent::Queried(q)) => match q {
                Ok(x) => (StatusQueryPhase::Done, StatusQueryAction::Finish(Ok(x))),
                Err(_) => (StatusQueryPhase::Discovering { requested }, StatusQueryAction::Discover),
            },
            (StatusQueryPhase::Discovering { requested }, StatusQueryEvent::Discovered(d)) => match d {
                Err(e) => (StatusQueryPhase::Done, StatusQueryAction::Finish(Err(e))),
                Ok(list) => match self.select_receiver(list.as_slice(), requested) {
                    Ok(receiver) => (StatusQueryPhase::Querying, StatusQueryAction::Query(Self::identity_from_discovery(receiver))),
                    Err(m) => (StatusQueryPhase::Done, StatusQueryAction::Finish(Err(m))),
                },
            },
            (StatusQueryPhase::Querying, StatusQueryEvent::Queried(q)) => (StatusQueryPhase::Done, StatusQueryAction::Finish(q)),
            (phase, _) => (phase, StatusQueryAction::Ignore),
        }
    }

    /// The status as the lines shown to the user.
    pub fn render_status(&self, status: &MainZoneStatus) -> (r: String)
        ensures
            r@ == render_text(*status),
    {
        status::render(status)
    }
}

impl Default for ApplicationService {
    fn default() -> (s: Self)
        ensures
            s.path() == "config/denon-avr-remote.yaml"@,
            s.connect_millis() == DEFAULT_CONNECT_TIMEOUT_MILLIS,
            s.read_millis() == DEFAULT_READ_TIMEOUT_MILLIS,
    {
        let path = config::default_path();
        ApplicationService::new(path.as_str())
    }
}

/// The receiver a user typed, numbered from one, as an index from zero; zero
/// stays zero. Anything but a number is refused.
pub fn parse_receiver_choice(input: &str) -> (r: Result<usize, String>)
    ensures
        match parse_unsigned(trim(input@)) {
            Some(n) => if n <= usize::MAX {
                r == Ok::<usize, String>((if n == 0 { 0 } else { n - 1 }) as usize)
            } else {
                r matches Err(m) && m@ == "receiver selection must be a number"@
            },
            None => r matches Err(m) && m@ == "receiver selection must be a number"@,
        },
{
    let text = trim_vec(&chars_of(input));
    match parse_unsigned_exec(&text, usize::MAX as u64) {
        Some(n) => {
            let n = n as usize;
            Ok(if n == 0 { 0 } else { n - 1 })
        },
        None => Err(owned("receiver selection must be a number")),
    }
}

/// Which of `len` discovered receivers a query uses: the one at `index`, or
/// the only one when no index is given; otherwise why none.
pub open spec fn selected_index(len: nat, index: Option<usize>) -> Result<int, Seq<char>> {
    if len == 0 {
        Err("no receivers discovered"@)
    } else {
        match index {
            Some(i) => if i < len { Ok(i as int) } else { Err("receiver selection is out of range"@) },
            None => if len == 1 { Ok(0int) } else { Err("receiver selection is required when multiple receivers are discovered"@) },
        }
    }
}

/// Where a status query stands.
#[derive(Debug, Clone, Copy, PartialEq, Eq)]
pub enum StatusQueryPhase {
    Start,
    /// Waiting for the saved configuration.
    LoadingSaved { requested: Option<usize> },
    /// Waiting for the saved receiver's status; discovery follows a failure.
    TryingSaved { requested: Option<usize> },
    /// Waiting for discovery.
    Discovering { requested: Option<usize> },
    /// Waiting for the status whose result is final.
    Querying,
    Done,
}

/// What a status query learns.
pub enum StatusQueryEvent<R> {
    /// The query begins: the discovery index asked for and the host given by hand.
    Begin { requested: Option<usize>, manual_host: Option<String> },
    /// The saved configuration was read.
    SavedLoaded(Result<Option<Config>, ConfigError>),
    /// A receiver was queried.
    Queried(Result<R, String>),
    /// Discovery ended.
    Discovered(Result<Vec<DiscoveredReceiver>, String>),
}

/// What a status query does next.
#[derive(Debug, PartialEq, Eq)]
pub enum StatusQueryAction<R> {
    /// Read the saved configuration.
    LoadSaved,
    /// Query this receiver.
    Query(ReceiverIdentity),
    /// Discover receivers.
    Discover,
    /// The query is over with this result.
    Finish(Result<R, String>),
    /// The event does not belong to this phase: nothing to do.
    Ignore,
}

/// Where a status query starts.
#[derive(Debug, Clone, PartialEq, Eq)]
pub enum StatusTarget {
    /// The host given on the command line; its failure is final.
    Manual(ReceiverIdentity),
    /// The saved receiver; when it fails, discovery follows.
    Saved(ReceiverIdentity),
    /// Discover receivers and select one.
    Discover,
}

/// The main-zone fields an asynchronous status query asks for, in order.
#[derive(Debug, Clone, Copy, PartialEq, Eq)]
pub enum ZoneField {
    Power,
    Input,
    Volume,
    Mute,
    Surround,
}

/// The command that asks for a field.
pub open spec fn field_command(field: ZoneField) -> Seq<char> {
    match field {
        ZoneField::Power => "PW?"@,
        ZoneField::Input => "SI?"@,
        ZoneField::Volume => "MV?"@,
        ZoneField::Mute => "MU?"@,
        ZoneField::Surround => "MS?"@,
    }
}

/// How a reply to a field's command reads.
pub open spec fn field_reading(field: ZoneField, reply: Seq<char>) -> Result<Seq<char>, Seq<char>> {
    match field {
        ZoneField::Power => power_result(reply),
        ZoneField::Input => prefixed_result(reply, "SI"@, "input"@),
        ZoneField::Volume => volume_result(reply),
        ZoneField::Mute => mute_result(reply),
        ZoneField::Surround => prefixed_result(reply, "MS"@, "surround"@),
    }
}

pub fn field_command_text(field: ZoneField) -> (r: &'static str)
    ensures
        r@ == field_command(field),
{
    proof {
        reveal_strlit("PW?");
        reveal_strlit("SI?");
        reveal_strlit("MV?");
        reveal_strlit("MU?");
        reveal_strlit("MS?");
    }
    match field {
        ZoneField::Power => "PW?",
        ZoneField::Input => "SI?",
        ZoneField::Volume => "MV?",
        ZoneField::Mute => "MU?",
        ZoneField::Surround => "MS?",
    }
}

/// A transport's answer to a field's command, read: a reply that does not
/// parse becomes an unexpected-response failure with the parser's message,
/// a transport failure stays as it is.
pub fn read_field_reply(field: ZoneField, reply: Result<String, TransportError>) -> (r: Result<String, TransportError>)
    ensures
        reply matches Err(e) ==> (r matches Err(x) && x == e),
        reply matches Ok(v) ==> (match field_reading(field, v@) {
            Ok(x) => r matches Ok(y) && y@ == x,
            Err(m) => r matches Err(TransportError::Unexpected(y)) && y@ == m,
        }),
{
    match reply {
        Err(e) => Err(e),
        Ok(v) => {
            let parsed = match field {
                ZoneField::Power => response::parse_power(v.as_str()),
                ZoneField::Input => response::parse_input(v.as_str()),
                ZoneField::Volume => response::parse_volume(v.as_str()),
                ZoneField::Mute => response::parse_mute(v.as_str()),
                ZoneField::Surround => response::parse_surround(v.as_str()),
            };
            proof {
                assert(result_view(parsed) == field_reading(field, v@));
            }
            match parsed {
                Ok(x) => Ok(x),
                Err(m) => Err(TransportError::Unexpected(m)),
            }
        },
    }
}

} // verus!
