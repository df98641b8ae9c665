//! What the desktop client decides apart from its widgets: which controller
//! results are current, which receiver a manual setup names, and the texts
//! it announces.
use crate::domain::receiver::ReceiverIdentity;
use crate::domain::eq_status::EqStatus;
use crate::domain::quick_select::{QuickSelectPreset, QuickSelectSlot, QuickSelectSnapshot};
use crate::domain::{Freshness, MainZoneControl, MuteState, PowerState, SurroundMode, token_error, token_ok};
use crate::session::Lifecycle;
use crate::text::{chars_of, decimal, decimal_exec, push_chars, push_str, string_of, trim, trim_vec};
use vstd::prelude::*;

verus! {

/// The client's pages.
#[derive(Debug, Clone, Copy, PartialEq, Eq, Structural)]
pub enum Route {
    Dashboard,
    Receivers,
    Settings,
    Diagnostics,
}

/// How wide the window is laid out.
#[derive(Debug, Clone, Copy, PartialEq, Eq, Structural)]
pub enum WindowClass {
    Wide,
    Compact,
}

/// A controller event as the client receives it: the request it answers and
/// the connection generation it belongs to (zero when it names none).
#[derive(Debug, Clone, PartialEq, Eq)]
pub struct BridgeEvent<E> {
    pub request_id: u64,
    pub generation: u64,
    pub event: E,
}

/// The connection generation a lifecycle names, zero for the others.
pub fn lifecycle_generation(lifecycle: Lifecycle) -> (r: u64)
    ensures
        r == match lifecycle {
            Lifecycle::Connected { generation } => generation,
            Lifecycle::Reconnecting { generation } => generation,
            _ => 0u64,
        },
{
    match lifecycle {
        Lifecycle::Connected { generation } => generation,
        Lifecycle::Reconnecting { generation } => generation,
        _ => 0,
    }
}

/// An event is current unless it answers an older request, or both it and
/// the client name a generation and its generation is older.
pub open spec fn event_is_current(request_id: u64, generation: u64, event_request: u64, event_generation: u64) -> bool {
    !(event_request < request_id || (event_generation != 0 && generation != 0 && event_generation < generation))
}

/// The client's request and generation after an event: a stale event changes
/// nothing; a current one sets the request and raises the generation.
pub fn accept_bridge_event(request_id: u64, generation: u64, event_request: u64, event_generation: u64) -> (r: Option<(u64, u64)>)
    ensures
        !event_is_current(request_id, generation, event_request, event_generation) ==> r is None,
        event_is_current(request_id, generation, event_request, event_generation) ==> r == Some(
            (event_request, if event_generation > generation { event_generation } else { generation })),
{
    if event_request < request_id || (event_generation != 0 && generation != 0 && event_generation < generation) {
        return None;
    }
    Some((event_request, if event_generation > generation { event_generation } else { generation }))
}

/// The client never goes back: an event it takes answers its latest request
/// or a later one, and leaves the generation where it was or higher.
pub proof fn lemma_accepted_events_move_forward(request_id: u64, generation: u64, event_request: u64, event_generation: u64)
    requires
        event_is_current(request_id, generation, event_request, event_generation),
    ensures
        event_request >= request_id,
        (if event_generation > generation { event_generation } else { generation }) >= generation,
{
}

/// The lifecycles whose arrival forgets the Quick Select and EQ observations.
pub open spec fn forgets_observations(lifecycle: Lifecycle) -> bool {
    lifecycle is Selected || lifecycle is Reconnecting || lifecycle is Disconnected
}

/// Reaching a selection, a reconnect or a disconnect forgets the Quick Select
/// and EQ observations.
pub fn lifecycle_forgets_observations(lifecycle: Lifecycle) -> (r: bool)
    ensures
        r == forgets_observations(lifecycle),
{
    match lifecycle {
        Lifecycle::Selected | Lifecycle::Reconnecting { .. } | Lifecycle::Disconnected => true,
        _ => false,
    }
}

/// The receiver a manual setup names: the trimmed address, and the trimmed
/// name when there is one; an empty address is refused.
pub fn manual_identity(address: &str, name: &str) -> (r: Result<ReceiverIdentity, String>)
    ensures
        trim(address@).len() == 0 ==> (r matches Err(m) && m@ == "Enter a receiver address first."@),
        trim(address@).len() > 0 ==> (r matches Ok(i) && i.host@ == trim(address@) && i.model is None
            && (if trim(name@).len() == 0 { i.friendly_name is None } else { i.friendly_name matches Some(n) && n@ == trim(name@) })),
{
    let host = trim_vec(&chars_of(address));
    if host.len() == 0 {
        return Err(crate::text::owned("Enter a receiver address first."));
    }
    let label = trim_vec(&chars_of(name));
    let friendly_name = if label.len() == 0 { None } else { Some(string_of(&label)) };
    Ok(ReceiverIdentity { host: string_of(&host), model: None, friendly_name })
}

/// What the client announces after a discovery that found `count` receivers.
pub fn discovery_announcement(count: usize) -> (r: String)
    ensures
        r@ == "Found "@ + decimal(count as nat) + " receiver(s)."@,
{
    let mut v = chars_of("Found ");
    push_chars(&mut v, &decimal_exec(count as u64));
    push_str(&mut v, " receiver(s).");
    string_of(&v)
}

/// What the client announces while it recalls Quick Select slot `number`.
pub fn recall_announcement(number: u8) -> (r: String)
    ensures
        r@ == "Recalling Main Zone Quick Select "@ + decimal(number as nat) + "…"@,
{
    let mut v = chars_of("Recalling Main Zone Quick Select ");
    push_chars(&mut v, &decimal_exec(number as u64));
    push_str(&mut v, "…");
    string_of(&v)
}

/// What the client announces when a field could not be read.
pub fn field_error_announcement(field_name: &str, message: &str) -> (r: String)
    ensures
        r@ == field_name@ + " unavailable: "@ + message@,
{
    let mut v = chars_of(field_name);
    push_str(&mut v, " unavailable: ");
    push_str(&mut v, message);
    string_of(&v)
}

/// The receiver the client works with.
#[derive(Debug, Clone, PartialEq, Eq)]
pub enum ReceiverSelection {
    Saved { name: String, identity: ReceiverIdentity },
    ExplicitHost(ReceiverIdentity),
}

/// What the controller reports, as far as the client keeps it.
#[derive(Debug, Clone, PartialEq, Eq)]
pub enum GuiEvent {
    Lifecycle(Lifecycle),
    /// A field could not be read: its name and why.
    FieldError { field_name: String, message: String },
    /// A new main-zone snapshot, by its resource version.
    Snapshot(u64),
    QuickSelect(QuickSelectSnapshot),
    EqStatus(EqStatus),
    /// The outcome of a control, as the controller describes it.
    Control(String),
    /// The outcome of a Quick Select recall, as the controller describes it.
    QuickSelectRecall(String),
    /// A diagnostic, as the controller describes it.
    Diagnostic(String),
    Other,
}

/// What the user or a finished task asks of the client.
pub enum GuiMessage {
    /// The saved configuration: its current receiver, if any, or why it could not be read.
    ConfigLoaded(Result<Option<(String, ReceiverIdentity)>, String>),
    CommandFinished(Result<(), String>),
    Navigate(Route),
    AddressChanged(String),
    NameChanged(String),
    Discover,
    /// A discovery ended: how many receivers it found, or why it failed.
    DiscoveryFinished(Result<usize, String>),
    ManualSetup,
    Select(ReceiverSelection),
    Connect,
    Refresh,
    Disconnect,
    PowerOn,
    PowerOff,
    Mute,
    Unmute,
    SelectSurroundMode(String),
    RefreshPhase8,
    RecallQuickSelect(QuickSelectSlot),
    Shutdown,
    Bridge(BridgeEvent<GuiEvent>),
}

/// What the client asks of the controller; each request carries its number.
#[derive(Debug, Clone, PartialEq, Eq)]
pub enum GuiCommand {
    Select(u64, ReceiverSelection),
    Connect(u64),
    Refresh(u64),
    Disconnect(u64),
    /// A control, with the main-zone resource version it expects.
    Control(u64, MainZoneControl, u64),
    RefreshPhase8(u64),
    /// A recall, with the Quick Select resource version it expects.
    RecallQuickSelect(u64, QuickSelectSlot, u64),
    Shutdown(u64),
    /// Search the network for receivers.
    Discover,
}

/// The desktop client's state apart from its widgets.
pub struct GuiState {
    pub route: Route,
    pub announcement: String,
    pub address: String,
    pub name: String,
    pub selection: Option<ReceiverSelection>,
    pub lifecycle: Lifecycle,
    pub request_id: u64,
    pub generation: u64,
    /// The resource version of the last main-zone snapshot.
    pub snapshot_version: u64,
    pub quick_select: QuickSelectSnapshot,
    pub eq_status: EqStatus,
}

fn copy_identity(identity: &ReceiverIdentity) -> (r: ReceiverIdentity)
    ensures
        r == *identity,
{
    let model = match &identity.model {
        Some(m) => Some(m.clone()),
        None => None,
    };
    let friendly_name = match &identity.friendly_name {
        Some(n) => Some(n.clone()),
        None => None,
    };
    ReceiverIdentity { host: identity.host.clone(), model, friendly_name }
}

fn copy_selection(selection: &ReceiverSelection) -> (r: ReceiverSelection)
    ensures
        r == *selection,
{
    match selection {
        ReceiverSelection::Saved { name, identity } => ReceiverSelection::Saved { name: name.clone(), identity: copy_identity(identity) },
        ReceiverSelection::ExplicitHost(identity) => ReceiverSelection::ExplicitHost(copy_identity(identity)),
    }
}

/// The announcement after a current controller event: the event's own text
/// where it has one, the earlier announcement otherwise.
pub open spec fn announcement_after(before: Seq<char>, event: GuiEvent) -> Seq<char> {
    match event {
        GuiEvent::FieldError { field_name, message } => field_name@ + " unavailable: "@ + message@,
        GuiEvent::Control(text) => "Control outcome: "@ + text@,
        GuiEvent::QuickSelectRecall(text) => "Quick Select: "@ + text@,
        GuiEvent::Diagnostic(text) => "Diagnostic: "@ + text@,
        _ => before,
    }
}

/// What a current controller event does to the client, apart from its
/// request and generation: the event's own field takes the reported value, a
/// lifecycle that forgets observations invalidates Quick Select and clears
/// EQ, and everything else stays.
pub open spec fn observed(after: GuiState, before: GuiState, event: GuiEvent) -> bool {
    &&& after.route == before.route
    &&& after.address == before.address
    &&& after.name == before.name
    &&& after.selection == before.selection
    &&& after.announcement@ == announcement_after(before.announcement@, event)
    &&& after.lifecycle == match event {
        GuiEvent::Lifecycle(l) => l,
        _ => before.lifecycle,
    }
    &&& after.snapshot_version == match event {
        GuiEvent::Snapshot(version) => version,
        _ => before.snapshot_version,
    }
    &&& match event {
        GuiEvent::QuickSelect(q) => after.quick_select == q,
        GuiEvent::Lifecycle(l) => if forgets_observations(l) {
            after.quick_select.is_invalidation_of(before.quick_select)
        } else {
            after.quick_select == before.quick_select
        },
        _ => after.quick_select == before.quick_select,
    }
    &&& match event {
        GuiEvent::EqStatus(e) => after.eq_status == e,
        GuiEvent::Lifecycle(l) => if forgets_observations(l) {
            after.eq_status.is_cleared()
        } else {
            after.eq_status == before.eq_status
        },
        _ => after.eq_status == before.eq_status,
    }
}

/// Only the announcement differs.
pub open spec fn only_announces(after: GuiState, before: GuiState) -> bool {
    after == (GuiState { announcement: after.announcement, ..before })
}

/// Only the request number differs: it is the next one.
pub open spec fn only_requests(after: GuiState, before: GuiState) -> bool {
    after == (GuiState { request_id: (before.request_id + 1) as u64, ..before })
}

/// Only the request number, now the next one, and the announcement differ.
pub open spec fn requests_and_announces(after: GuiState, before: GuiState) -> bool {
    after == (GuiState { request_id: (before.request_id + 1) as u64, announcement: after.announcement, ..before })
}

/// A control's request: the next request number, and the announcement that
/// it waits for the receiver's confirmation.
pub open spec fn control_requested(after: GuiState, before: GuiState) -> bool {
    requests_and_announces(after, before) && after.announcement@ == "Command pending; waiting for receiver confirmation…"@
}

/// The command that a control sends with request `id`.
pub open spec fn pending_control(s: GuiState, id: u64, control: MainZoneControl) -> Option<GuiCommand> {
    Some(GuiCommand::Control(id, control, s.snapshot_version))
}

fn text_of(prefix: &str, detail: &str) -> (r: String)
    ensures
        r@ == prefix@ + detail@,
{
    let mut v = chars_of(prefix);
    push_str(&mut v, detail);
    string_of(&v)
}

impl GuiState {
    /// Nothing selected, nothing observed, the configuration still loading.
    pub fn new() -> (r: Self)
        ensures
            r.route == Route::Dashboard,
            r.announcement@ == "Loading configuration…"@,
            r.address@.len() == 0 && r.name@.len() == 0,
            r.selection is None,
            r.lifecycle == Lifecycle::NoReceiver,
            r.request_id == 0 && r.generation == 0 && r.snapshot_version == 0,
            r.quick_select.version() == 0 && r.quick_select.fresh() == Freshness::Unknown,
            r.quick_select.slots() == seq![None::<QuickSelectPreset>, None, None, None],
            r.eq_status.freshness == Freshness::Unknown && r.eq_status.evidence@.len() == 0,
    {
        GuiState {
            route: Route::Dashboard,
            announcement: crate::text::owned("Loading configuration…"),
            address: String::new(),
            name: String::new(),
            selection: None,
            lifecycle: Lifecycle::NoReceiver,
            request_id: 0,
            generation: 0,
            snapshot_version: 0,
            quick_select: QuickSelectSnapshot::default(),
            eq_status: EqStatus::default(),
        }
    }

    fn next_request(&mut self) -> (id: u64)
        requires
            old(self).request_id < u64::MAX,
        ensures
            id == old(self).request_id + 1,
            *final(self) == (GuiState { request_id: id, ..*old(self) }),
    {
        self.request_id = self.request_id + 1;
        self.request_id
    }

    fn control(&mut self, control: MainZoneControl) -> (r: Option<GuiCommand>)
        requires
            old(self).request_id < u64::MAX,
        ensures
            control_requested(*final(self), *old(self)),
            r == Some(GuiCommand::Control((old(self).request_id + 1) as u64, control, old(self).snapshot_version)),
    {
        let id = self.next_request();
        self.announcement = crate::text::owned("Command pending; waiting for receiver confirmation…");
        Some(GuiCommand::Control(id, control, self.snapshot_version))
    }

    /// One message: the client's next state, and what it asks of the controller.
    pub fn update(&mut self, message: GuiMessage) -> (r: Option<GuiCommand>)
        requires
            old(self).request_id < u64::MAX,
        ensures
            match message {
                GuiMessage::ConfigLoaded(Ok(Some((name, identity)))) => {
                    &&& final(self).selection == Some(ReceiverSelection::Saved { name, identity })
                    &&& final(self).announcement@ == "Saved receiver selected; connecting…"@
                    &&& final(self).request_id == old(self).request_id + 1
                    &&& r == Some(GuiCommand::Select(final(self).request_id, ReceiverSelection::Saved { name, identity }))
                    &&& *final(self) == (GuiState { selection: final(self).selection, announcement: final(self).announcement,
                        request_id: final(self).request_id, ..*old(self) })
                },
                GuiMessage::ConfigLoaded(Ok(None)) => {
                    &&& final(self).announcement@ == "Connect a receiver to see its status."@
                    &&& final(self).selection == old(self).selection
                    &&& r == match old(self).selection {
                        Some(sel) => Some(GuiCommand::Select(final(self).request_id, sel)),
                        None => None,
                    }
                    &&& final(self).request_id == old(self).request_id + if old(self).selection is Some { 1int } else { 0int }
                    &&& *final(self) == (GuiState { announcement: final(self).announcement, request_id: final(self).request_id, ..*old(self) })
                },
                GuiMessage::ConfigLoaded(Err(e)) => final(self).announcement@ == "Configuration unavailable: "@ + e@ && r is None
                    && only_announces(*final(self), *old(self)),
                GuiMessage::CommandFinished(Err(e)) => final(self).announcement@ == "Operation failed: "@ + e@ && r is None
                    && only_announces(*final(self), *old(self)),
                GuiMessage::CommandFinished(Ok(())) => *final(self) == *old(self) && r is None,
                GuiMessage::Navigate(route) => *final(self) == (GuiState { route, ..*old(self) }) && r is None,
                GuiMessage::AddressChanged(v) => *final(self) == (GuiState { address: v, ..*old(self) }) && r is None,
                GuiMessage::NameChanged(v) => *final(self) == (GuiState { name: v, ..*old(self) }) && r is None,
                GuiMessage::Discover => final(self).announcement@ == "Searching for receivers…"@ && r == Some(GuiCommand::Discover)
                    && only_announces(*final(self), *old(self)),
                GuiMessage::DiscoveryFinished(Ok(count)) => final(self).announcement@ == "Found "@ + decimal(count as nat) + " receiver(s)."@
                    && r is None && only_announces(*final(self), *old(self)),
                GuiMessage::DiscoveryFinished(Err(e)) => final(self).announcement@ == "Discovery failed: "@ + e@ && r is None
                    && only_announces(*final(self), *old(self)),
                GuiMessage::ManualSetup => if trim(old(self).address@).len() == 0 {
                    final(self).announcement@ == "Enter a receiver address first."@ && r is None
                        && only_announces(*final(self), *old(self))
                } else {
                    &&& final(self).request_id == old(self).request_id + 1
                    &&& final(self).selection matches Some(ReceiverSelection::ExplicitHost(i))
                    &&& i.host@ == trim(old(self).address@) && i.model is None
                    &&& r == Some(GuiCommand::Select(final(self).request_id, final(self).selection->Some_0))
                    &&& *final(self) == (GuiState { selection: final(self).selection, request_id: final(self).request_id, ..*old(self) })
                },
                GuiMessage::Select(sel) => {
                    &&& final(self).selection == Some(sel)
                    &&& final(self).quick_select.is_invalidation_of(old(self).quick_select)
                    &&& final(self).eq_status.is_cleared()
                    &&& final(self).request_id == old(self).request_id + 1
                    &&& r == Some(GuiCommand::Select(final(self).request_id, sel))
                    &&& *final(self) == (GuiState { selection: final(self).selection, quick_select: final(self).quick_select,
                        eq_status: final(self).eq_status, request_id: final(self).request_id, ..*old(self) })
                },
                GuiMessage::Connect => r == Some(GuiCommand::Connect((old(self).request_id + 1) as u64))
                    && only_requests(*final(self), *old(self)),
                GuiMessage::Refresh => r == Some(GuiCommand::Refresh((old(self).request_id + 1) as u64))
                    && only_requests(*final(self), *old(self)),
                GuiMessage::Disconnect => r == Some(GuiCommand::Disconnect((old(self).request_id + 1) as u64))
                    && only_requests(*final(self), *old(self)),
                GuiMessage::Shutdown => r == Some(GuiCommand::Shutdown((old(self).request_id + 1) as u64))
                    && only_requests(*final(self), *old(self)),
                GuiMessage::PowerOn => r == Some(GuiCommand::Control((old(self).request_id + 1) as u64, MainZoneControl::Power(PowerState::On), old(self).snapshot_version))
                    && control_requested(*final(self), *old(self)),
                GuiMessage::PowerOff => r == Some(GuiCommand::Control((old(self).request_id + 1) as u64, MainZoneControl::Power(PowerState::Standby), old(self).snapshot_version))
                    && control_requested(*final(self), *old(self)),
                GuiMessage::Mute => r == Some(GuiCommand::Control((old(self).request_id + 1) as u64, MainZoneControl::Mute(MuteState::On), old(self).snapshot_version))
                    && control_requested(*final(self), *old(self)),
                GuiMessage::Unmute => r == Some(GuiCommand::Control((old(self).request_id + 1) as u64, MainZoneControl::Mute(MuteState::Off), old(self).snapshot_version))
                    && control_requested(*final(self), *old(self)),
                GuiMessage::SelectSurroundMode(v) => if token_ok(v@) {
                    (r matches Some(GuiCommand::Control(id, MainZoneControl::SurroundMode(m), version))
                        && id == old(self).request_id + 1 && m.text() == v@ && version == old(self).snapshot_version)
                        && control_requested(*final(self), *old(self))
                } else {
                    r is None && final(self).announcement@ == token_error(v@, "surround mode must not be empty"@, "surround mode must not contain control characters"@)
                        && only_announces(*final(self), *old(self))
                },
                GuiMessage::RefreshPhase8 => final(self).announcement@ == "Refreshing Quick Select and EQ status…"@
                    && r == Some(GuiCommand::RefreshPhase8((old(self).request_id + 1) as u64))
                    && requests_and_announces(*final(self), *old(self)),
                GuiMessage::RecallQuickSelect(slot) => final(self).announcement@ == "Recalling Main Zone Quick Select "@
                    + decimal(slot.number_spec() as nat) + "…"@
                    && r == Some(GuiCommand::RecallQuickSelect((old(self).request_id + 1) as u64, slot, old(self).quick_select.version()))
                    && requests_and_announces(*final(self), *old(self)),
                GuiMessage::Bridge(event) => r is None && if !event_is_current(old(self).request_id, old(self).generation, event.request_id, event.generation) {
                    *final(self) == *old(self)
                } else {
                    &&& final(self).request_id == event.request_id
                    &&& final(self).generation == if event.generation > old(self).generation { event.generation } else { old(self).generation }
                    &&& observed(*final(self), *old(self), event.event)
                },
            },
    {
        match message {
            GuiMessage::ConfigLoaded(Ok(Some((name, identity)))) => {
                let selection = ReceiverSelection::Saved { name, identity };
                self.selection = Some(copy_selection(&selection));
                self.announcement = crate::text::owned("Saved receiver selected; connecting…");
                let id = self.next_request();
                Some(GuiCommand::Select(id, selection))
            },
            GuiMessage::ConfigLoaded(Ok(None)) => {
                self.announcement = crate::text::owned("Connect a receiver to see its status.");
                match &self.selection {
                    Some(sel) => {
                        let sel = copy_selection(sel);
                        let id = self.next_request();
                        Some(GuiCommand::Select(id, sel))
                    },
                    None => None,
                }
            },
            GuiMessage::ConfigLoaded(Err(e)) => {
                self.announcement = text_of("Configuration unavailable: ", e.as_str());
                None
            },
            GuiMessage::CommandFinished(Err(e)) => {
                self.announcement = text_of("Operation failed: ", e.as_str());
                None
            },
            GuiMessage::CommandFinished(Ok(())) => None,
            GuiMessage::Navigate(route) => {
                self.route = route;
                None
            },
            GuiMessage::AddressChanged(v) => {
                self.address = v;
                None
            },
            GuiMessage::NameChanged(v) => {
                self.name = v;
                None
            },
            GuiMessage::Discover => {
                self.announcement = crate::text::owned("Searching for receivers…");
                Some(GuiCommand::Discover)
            },
            GuiMessage::DiscoveryFinished(Ok(count)) => {
                self.announcement = discovery_announcement(count);
                None
            },
            GuiMessage::DiscoveryFinished(Err(e)) => {
                self.announcement = text_of("Discovery failed: ", e.as_str());
                None
            },
            GuiMessage::ManualSetup => match manual_identity(self.address.as_str(), self.name.as_str()) {
                Err(m) => {
                    self.announcement = m;
                    None
                },
                Ok(identity) => {
                    let selection = ReceiverSelection::ExplicitHost(identity);
                    self.selection = Some(copy_selection(&selection));
                    let id = self.next_request();
                    Some(GuiCommand::Select(id, selection))
                },
            },
            GuiMessage::Select(sel) => {
                self.selection = Some(copy_selection(&sel));
                self.quick_select.invalidate();
                self.eq_status.invalidate();
                let id = self.next_request();
                Some(GuiCommand::Select(id, sel))
            },
            GuiMessage::Connect => {
                let id = self.next_request();
                Some(GuiCommand::Connect(id))
            },
            GuiMessage::Refresh => {
                let id = self.next_request();
                Some(GuiCommand::Refresh(id))
            },
            GuiMessage::Disconnect => {
                let id = self.next_request();
                Some(GuiCommand::Disconnect(id))
            },
            GuiMessage::Shutdown => {
                let id = self.next_request();
                Some(GuiCommand::Shutdown(id))
            },
            GuiMessage::PowerOn => self.control(MainZoneControl::Power(PowerState::On)),
            GuiMessage::PowerOff => self.control(MainZoneControl::Power(PowerState::Standby)),
            GuiMessage::Mute => self.control(MainZoneControl::Mute(MuteState::On)),
            GuiMessage::Unmute => self.control(MainZoneControl::Mute(MuteState::Off)),
            GuiMessage::SelectSurroundMode(v) => match SurroundMode::new(v.as_str()) {
                Ok(mode) => self.control(MainZoneControl::SurroundMode(mode)),
                Err(m) => {
                    self.announcement = crate::text::owned(m);
                    None
                },
            },
            GuiMessage::RefreshPhase8 => {
                let id = self.next_request();
                self.announcement = crate::text::owned("Refreshing Quick Select and EQ status…");
                Some(GuiCommand::RefreshPhase8(id))
            },
            GuiMessage::RecallQuickSelect(slot) => {
                let id = self.next_request();
                self.announcement = recall_announcement(slot.number());
                Some(GuiCommand::RecallQuickSelect(id, slot, self.quick_select.resource_version()))
            },
            GuiMessage::Bridge(event) => {
                match accept_bridge_event(self.request_id, self.generation, event.request_id, event.generation) {
                    None => None,
                    Some((request_id, generation)) => {
                        self.request_id = request_id;
                        self.generation = generation;
                        match event.event {
                            GuiEvent::Lifecycle(l) => {
                                if lifecycle_forgets_observations(l) {
                                    self.quick_select.invalidate();
                                    self.eq_status.invalidate();
                                }
                                self.lifecycle = l;
                            },
                            GuiEvent::FieldError { field_name, message } => {
                                self.announcement = field_error_announcement(field_name.as_str(), message.as_str());
                            },
                            GuiEvent::Snapshot(version) => {
                                self.snapshot_version = version;
                            },
                            GuiEvent::QuickSelect(q) => {
                                self.quick_select = q;
                            },
                            GuiEvent::EqStatus(e) => {
                                self.eq_status = e;
                            },
                            GuiEvent::Control(text) => {
                                self.announcement = text_of("Control outcome: ", text.as_str());
                            },
                            GuiEvent::QuickSelectRecall(text) => {
                                self.announcement = text_of("Quick Select: ", text.as_str());
                            },
                            GuiEvent::Diagnostic(text) => {
                                self.announcement = text_of("Diagnostic: ", text.as_str());
                            },
                            GuiEvent::Other => {},
                        }
                        None
                    },
                }
            },
        }
    }
}

} // verus!
