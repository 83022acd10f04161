//! The life of a module as a state machine: from subscription over the
//! announcement to serving calls. The machine decides; whoever runs it
//! performs the actions it returns and hands back what happened.

use crate::codegen::{check_slot, first_bad_slot, first_error, metadata_blob, metadata_value};
use crate::dispatch::{
    argument_error, command_topic, first_bad, generate_topics, handle_mqtt_message, handled,
    result_envelope, result_of, slot_topics, Invocation, InvocationView,
};
use crate::envelope::{decoded, encoded, CallDataView, EnvelopeView, ResultDataView};
use crate::error::{Error, ErrorView};
use crate::json::{Json, JsonView};
use crate::schema::interface::{
    interface_well_formed, Interface, InterfaceView, VariableView,
};
use crate::schema::manifest::{manifest_well_formed, Manifest, ProvidesEntryView};
use crate::table::{lookup, named_views};
use crate::text::{str_eq, texts};
use vstd::prelude::*;
use vstd::string::StringExecFns;

verus! {

/// The quality of service of an MQTT request.
#[derive(Clone, Copy, Debug, PartialEq, Eq, Structural)]
pub enum QoS {
    AtMostOnce,
    AtLeastOnce,
    ExactlyOnce,
}

/// What a module publishes.
#[derive(Clone, Copy, Debug, PartialEq, Eq, Structural)]
pub enum PublicationKind {
    /// The metadata blob, once at startup.
    Metadata,
    /// The readiness flag, once after the metadata.
    Ready,
    /// The result of a call.
    Result,
}

/// A message to publish.
#[derive(Debug)]
pub struct Publication {
    pub kind: PublicationKind,
    pub topic: String,
    pub payload: String,
    pub qos: QoS,
    pub retain: bool,
}

/// The mathematical value of a [`Publication`].
pub struct PublicationView {
    pub kind: PublicationKind,
    pub topic: Seq<char>,
    pub payload: Seq<char>,
    pub qos: QoS,
    pub retain: bool,
}

impl View for Publication {
    type V = PublicationView;

    open spec fn view(&self) -> PublicationView {
        PublicationView {
            kind: self.kind,
            topic: self.topic@,
            payload: self.payload@,
            qos: self.qos,
            retain: self.retain,
        }
    }
}

/// Builds the messages that a module publishes on topics of its own.
#[derive(Debug)]
pub struct Publisher {
    /// The name under which the module runs.
    pub module: String,
}

impl Publisher {
    /// Builds the message that the module publishes on a topic of its own.
    pub fn publish(&self, kind: PublicationKind, topic: &str, value: String) -> (r: Publication)
        ensures
            r@ == publication(self.module@, kind, topic@, value@),
    {
        let mut full = String::from_str("everest/");
        full.append(self.module.as_str());
        full.append("/");
        full.append(topic);
        Publication { kind, topic: full, payload: value, qos: QoS::ExactlyOnce, retain: false }
    }
}

/// What the machine asks of whoever runs it.
#[derive(Debug)]
pub enum Action {
    /// Subscribe to a topic.
    Subscribe { topic: String, qos: QoS },
    /// Publish a message.
    Publish(Publication),
    /// Call the service implementation of a slot.
    Invoke { slot: String, invocation: Invocation },
    /// Stop: the module has failed.
    Stop(Error),
}

/// The mathematical value of an [`Action`].
pub enum ActionView {
    Subscribe { topic: Seq<char>, qos: QoS },
    Publish(PublicationView),
    Invoke { slot: Seq<char>, invocation: InvocationView },
    Stop(ErrorView),
}

impl View for Action {
    type V = ActionView;

    open spec fn view(&self) -> ActionView {
        match self {
            Action::Subscribe { topic, qos } => ActionView::Subscribe { topic: topic@, qos: *qos },
            Action::Publish(publication) => ActionView::Publish(publication@),
            Action::Invoke { slot, invocation } => ActionView::Invoke {
                slot: slot@,
                invocation: invocation@,
            },
            Action::Stop(error) => ActionView::Stop(error@),
        }
    }
}

/// The values of a list of actions, one by one.
pub open spec fn action_views(actions: Seq<Action>) -> Seq<ActionView> {
    Seq::new(actions.len(), |i: int| actions[i]@)
}

/// What happened outside the machine.
#[derive(Debug)]
pub enum Event {
    /// The action that the machine called for last was performed.
    Done,
    /// A message came in.
    Message { topic: String, payload: Vec<u8> },
    /// Any other event of the broker.
    Other,
    /// The service implementation returned a value.
    Returned(Json),
    /// The transport or the service implementation failed.
    Failed(Error),
}

/// The mathematical value of an [`Event`].
pub enum EventView {
    Done,
    Message { topic: Seq<char>, payload: Seq<u8> },
    Other,
    Returned(JsonView),
    Failed(ErrorView),
}

impl View for Event {
    type V = EventView;

    open spec fn view(&self) -> EventView {
        match self {
            Event::Done => EventView::Done,
            Event::Message { topic, payload } => EventView::Message {
                topic: topic@,
                payload: payload@,
            },
            Event::Other => EventView::Other,
            Event::Returned(retval) => EventView::Returned(retval@),
            Event::Failed(error) => EventView::Failed(error@),
        }
    }
}

/// The values of a list of events, one by one.
pub open spec fn event_views(events: Seq<Event>) -> Seq<EventView> {
    Seq::new(events.len(), |i: int| events[i]@)
}

/// Where a module stands. In each phase but the last two the machine has
/// called for at most one action and waits to hear what came of it.
#[derive(Debug)]
pub enum Phase {
    /// The subscription with this index is asked for.
    Subscribing { pending: usize },
    /// The metadata is handed out for publication.
    AnnouncingMetadata,
    /// The metadata is published; the readiness flag is handed out.
    AnnouncingReady,
    /// Waiting for the next message.
    Serving,
    /// The service implementation of a slot is at work on a call.
    Dispatching { slot: String, invocation: Invocation },
    /// The result of a call is handed out for publication.
    Publishing,
    /// Failed, for good.
    Failed,
}

/// The mathematical value of a [`Phase`].
pub enum PhaseView {
    Subscribing { pending: usize },
    AnnouncingMetadata,
    AnnouncingReady,
    Serving,
    Dispatching { slot: Seq<char>, invocation: InvocationView },
    Publishing,
    Failed,
}

impl View for Phase {
    type V = PhaseView;

    open spec fn view(&self) -> PhaseView {
        match self {
            Phase::Subscribing { pending } => PhaseView::Subscribing { pending: *pending },
            Phase::AnnouncingMetadata => PhaseView::AnnouncingMetadata,
            Phase::AnnouncingReady => PhaseView::AnnouncingReady,
            Phase::Serving => PhaseView::Serving,
            Phase::Dispatching { slot, invocation } => PhaseView::Dispatching {
                slot: slot@,
                invocation: invocation@,
            },
            Phase::Publishing => PhaseView::Publishing,
            Phase::Failed => PhaseView::Failed,
        }
    }
}

/// One provided slot at run time: its name, its interface, and the topics on
/// which it receives calls.
#[derive(Debug)]
pub struct Slot<'a> {
    pub name: String,
    pub interface: &'a Interface,
    pub topics: Vec<String>,
}

/// The mathematical value of a [`Slot`].
pub struct SlotView {
    pub name: Seq<char>,
    pub interface: InterfaceView,
    pub topics: Seq<Seq<char>>,
}

impl<'a> View for Slot<'a> {
    type V = SlotView;

    open spec fn view(&self) -> SlotView {
        SlotView { name: self.name@, interface: self.interface@, topics: texts(self.topics@) }
    }
}

/// The values of a list of slots, one by one.
pub open spec fn slot_views(slots: Seq<Slot>) -> Seq<SlotView> {
    Seq::new(slots.len(), |i: int| slots[i]@)
}

/// A module at run time.
#[derive(Debug)]
pub struct Module<'a> {
    module_name: String,
    metadata: String,
    slots: Vec<Slot<'a>>,
    subscriptions: Vec<String>,
    phase: Phase,
}

/// The mathematical value of a [`Module`]: its name, its metadata blob,
/// its slots, the topics to subscribe to, and its phase.
pub struct ModuleView {
    pub module_name: Seq<char>,
    pub metadata: Seq<char>,
    pub slots: Seq<SlotView>,
    pub subscriptions: Seq<Seq<char>>,
    pub phase: PhaseView,
}

impl<'a> View for Module<'a> {
    type V = ModuleView;

    closed spec fn view(&self) -> ModuleView {
        ModuleView {
            module_name: self.module_name@,
            metadata: self.metadata@,
            slots: slot_views(self.slots@),
            subscriptions: texts(self.subscriptions@),
            phase: self.phase@,
        }
    }
}

/// The message that a module publishes on a topic of its own: the topic is
/// prefixed with `everest/` and the module's name, the delivery is exactly
/// once, and the message is not retained.
pub open spec fn publication(
    module_name: Seq<char>,
    kind: PublicationKind,
    topic: Seq<char>,
    payload: Seq<char>,
) -> PublicationView {
    PublicationView {
        kind,
        topic: "everest/"@ + module_name + "/"@ + topic,
        payload,
        qos: QoS::ExactlyOnce,
        retain: false,
    }
}

/// The message that publishes the metadata of a module.
pub open spec fn metadata_publication(m: ModuleView) -> ActionView {
    ActionView::Publish(
        publication(m.module_name, PublicationKind::Metadata, "metadata"@, m.metadata),
    )
}

/// The message that publishes the readiness flag of a module.
pub open spec fn ready_publication(m: ModuleView) -> ActionView {
    ActionView::Publish(publication(m.module_name, PublicationKind::Ready, "ready"@, "true"@))
}

/// The request for the subscription with an index, with delivery exactly once.
pub open spec fn subscription(m: ModuleView, index: int) -> ActionView {
    ActionView::Subscribe { topic: m.subscriptions[index], qos: QoS::ExactlyOnce }
}

/// The message that answers a call on a slot.
pub open spec fn result_publication(
    module_name: Seq<char>,
    slot: Seq<char>,
    invocation: InvocationView,
    retval: JsonView,
) -> PublicationView {
    publication(
        module_name,
        PublicationKind::Result,
        slot + "/cmd"@,
        encoded(result_of(module_name, invocation, retval)),
    )
}

/// The index of the first slot, from `from` on, among whose topics `topic`
/// is, or the number of slots.
pub open spec fn matching_slot(slots: Seq<SlotView>, topic: Seq<char>, from: int) -> int
    decreases slots.len() - from,
{
    if from < 0 || from >= slots.len() {
        slots.len() as int
    } else if slots[from].topics.contains(topic) {
        from
    } else {
        matching_slot(slots, topic, from + 1)
    }
}

/// The module in another phase.
pub open spec fn in_phase(m: ModuleView, phase: PhaseView) -> ModuleView {
    ModuleView { phase, ..m }
}

/// What a failure does: the module fails for good and says so.
pub open spec fn fail(m: ModuleView, error: ErrorView) -> (ModuleView, Seq<ActionView>) {
    (in_phase(m, PhaseView::Failed), seq![ActionView::Stop(error)])
}

/// What comes after the subscription with an index is in place: the next
/// subscription, or, after the last, the publication of the metadata.
pub open spec fn after_subscription(m: ModuleView, index: int) -> (ModuleView, Seq<ActionView>) {
    if index + 1 < m.subscriptions.len() {
        (
            in_phase(m, PhaseView::Subscribing { pending: (index + 1) as usize }),
            seq![subscription(m, index + 1)],
        )
    } else {
        (in_phase(m, PhaseView::AnnouncingMetadata), seq![metadata_publication(m)])
    }
}

/// What a message does to a serving module. One on a topic of no slot is
/// ignored. One on a topic of a slot is dispatched against that slot's
/// interface: it is ignored, or leads to a call, or fails the module.
pub open spec fn on_message(m: ModuleView, topic: Seq<char>, payload: Seq<u8>) -> (
    ModuleView,
    Seq<ActionView>,
) {
    let i = matching_slot(m.slots, topic, 0);
    if i >= m.slots.len() {
        (m, seq![])
    } else {
        match handled(m.slots[i].interface, payload) {
            Ok(None) => (m, seq![]),
            Ok(Some(invocation)) => (
                in_phase(m, PhaseView::Dispatching { slot: m.slots[i].name, invocation }),
                seq![ActionView::Invoke { slot: m.slots[i].name, invocation }],
            ),
            Err(error) => fail(m, error),
        }
    }
}

/// One step of the machine: the module after an event, and the action that
/// the event calls for, if any. A failure fails the module in every phase
/// but the last, where nothing happens any more. What the machine called
/// for being done, it goes on: to the next subscription, from the last
/// subscription to the metadata, from the metadata to the readiness flag,
/// from there to serving, and from the publication of a result back to
/// serving. An event that the phase does not wait for changes nothing.
pub open spec fn step(m: ModuleView, event: EventView) -> (ModuleView, Seq<ActionView>) {
    match (m.phase, event) {
        (PhaseView::Failed, _) => (m, seq![]),
        (_, EventView::Failed(error)) => fail(m, error),
        (PhaseView::Subscribing { pending }, EventView::Done) => after_subscription(
            m,
            pending as int,
        ),
        (PhaseView::AnnouncingMetadata, EventView::Done) => (
            in_phase(m, PhaseView::AnnouncingReady),
            seq![ready_publication(m)],
        ),
        (PhaseView::AnnouncingReady, EventView::Done) => (in_phase(m, PhaseView::Serving), seq![]),
        (PhaseView::Serving, EventView::Message { topic, payload }) => on_message(
            m,
            topic,
            payload,
        ),
        (PhaseView::Dispatching { slot, invocation }, EventView::Returned(retval)) => (
            in_phase(m, PhaseView::Publishing),
            seq![
                ActionView::Publish(result_publication(m.module_name, slot, invocation, retval)),
            ],
        ),
        (PhaseView::Publishing, EventView::Done) => (in_phase(m, PhaseView::Serving), seq![]),
        _ => (m, seq![]),
    }
}

/// The machine run over a list of events: the module at the end, and all the
/// actions in the order in which they were called for.
pub open spec fn run(m: ModuleView, events: Seq<EventView>) -> (ModuleView, Seq<ActionView>)
    decreases events.len(),
{
    if events.len() == 0 {
        (m, seq![])
    } else {
        let (before, actions) = run(m, events.drop_last());
        let (after, more) = step(before, events.last());
        (after, actions + more)
    }
}

/// The slots of a module, in the order of the manifest.
pub open spec fn built_slots(
    module_name: Seq<char>,
    provides: Seq<(Seq<char>, ProvidesEntryView)>,
    interfaces: Seq<(Seq<char>, InterfaceView)>,
) -> Seq<SlotView> {
    Seq::new(
        provides.len(),
        |i: int|
            {
                let interface = lookup(interfaces, provides[i].1.interface).unwrap();
                SlotView {
                    name: provides[i].0,
                    interface,
                    topics: slot_topics(module_name, provides[i].0, interface),
                }
            },
    )
}

/// The topics of a list of slots: each topic of each slot, in order.
pub open spec fn all_topics(slots: Seq<SlotView>) -> Seq<Seq<char>>
    decreases slots.len(),
{
    if slots.len() == 0 {
        seq![]
    } else {
        all_topics(slots.drop_last()) + slots.last().topics
    }
}

/// Whether a module is well formed: the topics and the interface of each
/// slot are as its name and a well-formed interface give them, and the
/// topics to subscribe to are those of the slots.
pub open spec fn module_well_formed(m: ModuleView) -> bool {
    &&& m.subscriptions == all_topics(m.slots)
    &&& forall|i: int|
        0 <= i < m.slots.len() ==> interface_well_formed((#[trigger] m.slots[i]).interface)
            && m.slots[i].topics == slot_topics(
            m.module_name,
            m.slots[i].name,
            m.slots[i].interface,
        )
}

/// A module at its start, and the first action: the first subscription, or
/// the publication of the metadata where there is nothing to subscribe to.
pub open spec fn start(module_name: Seq<char>, metadata: Seq<char>, slots: Seq<SlotView>) -> (
    ModuleView,
    Seq<ActionView>,
) {
    let m = ModuleView {
        module_name,
        metadata,
        slots,
        subscriptions: all_topics(slots),
        phase: PhaseView::Subscribing { pending: 0 },
    };
    if m.subscriptions.len() > 0 {
        (m, seq![subscription(m, 0)])
    } else {
        (in_phase(m, PhaseView::AnnouncingMetadata), seq![metadata_publication(m)])
    }
}

/// Whether `topic` is among `topics`.
fn has_topic(topics: &Vec<String>, topic: &str) -> (r: bool)
    ensures
        r == texts(topics@).contains(topic@),
{
    let mut i: usize = 0;
    while i < topics.len()
        invariant
            i <= topics.len(),
            forall|k: int| 0 <= k < i ==> texts(topics@)[k] != topic@,
        decreases topics.len() - i,
    {
        if str_eq(topics[i].as_str(), topic) {
            assert(texts(topics@)[i as int] == topic@);
            return true;
        }
        i += 1;
    }
    false
}

/// One action, as a list.
fn one(action: Action) -> (actions: Vec<Action>)
    ensures
        action_views(actions@) == seq![action@],
{
    let mut actions: Vec<Action> = Vec::new();
    actions.push(action);
    assert(action_views(actions@) =~= seq![action@]);
    actions
}

/// No action, as a list.
fn none() -> (actions: Vec<Action>)
    ensures
        action_views(actions@) == Seq::<ActionView>::empty(),
{
    let actions: Vec<Action> = Vec::new();
    assert(action_views(actions@) =~= seq![]);
    actions
}

impl<'a> Module<'a> {
    /// Sets a module up under its name and calls for its first action.
    /// Each slot of the manifest takes its interface, by name, from
    /// `interfaces`; the metadata blob is that of the name and the manifest.
    /// A manifest that is not well formed is an error, and so is the first
    /// slot, in the order of their names, with which something is wrong.
    pub fn init(
        module_name: &str,
        manifest: &Manifest,
        interfaces: &'a Vec<(String, Interface)>,
    ) -> (r: Result<(Module<'a>, Vec<Action>), Error>)
        ensures
            match first_error(manifest@, named_views(interfaces@)) {
                Some(e) => r is Err && r->Err_0@ == e.error,
                None => r is Ok && (r->Ok_0.0@, action_views(r->Ok_0.1@)) == start(
                    module_name@,
                    metadata_blob(module_name@, manifest@.provides),
                    built_slots(module_name@, manifest@.provides, named_views(interfaces@)),
                ) && module_well_formed(r->Ok_0.0@),
            },
    {
        if !manifest.is_well_formed() {
            return Err(Error::SchemaViolation(String::from_str("the manifest is not well formed")));
        }
        let ghost provides = manifest@.provides;
        let ghost given = named_views(interfaces@);
        let mut slots: Vec<Slot<'a>> = Vec::new();
        let mut subscriptions: Vec<String> = Vec::new();
        let mut k: usize = 0;
        assert(texts(subscriptions@) =~= all_topics(slot_views(slots@)));
        while k < manifest.provides.len()
            invariant
                k <= manifest.provides.len(),
                manifest_well_formed(manifest@),
                provides == manifest@.provides,
                provides == named_views(manifest.provides@),
                given == named_views(interfaces@),
                first_bad_slot(provides, given, 0) == first_bad_slot(provides, given, k as int),
                slots.len() == k,
                forall|j: int|
                    0 <= j < k ==> (#[trigger] slots@[j])@ == built_slots(
                        module_name@,
                        provides,
                        given,
                    )[j] && interface_well_formed(slots@[j]@.interface),
                texts(subscriptions@) == all_topics(slot_views(slots@)),
            decreases manifest.provides.len() - k,
        {
            let entry = &manifest.provides[k];
            assert(provides[k as int] == (entry.0@, entry.1@));
            let interface = match check_slot(&entry.1, interfaces) {
                Ok(interface) => interface,
                Err(e) => {
                    return Err(e);
                },
            };
            let topics = generate_topics(module_name, entry.0.as_str(), interface);
            let ghost before = slot_views(slots@);
            let ghost so_far = texts(subscriptions@);
            let mut t: usize = 0;
            assert(texts(subscriptions@) =~= so_far + texts(topics@).take(0));
            while t < topics.len()
                invariant
                    t <= topics.len(),
                    texts(subscriptions@) == so_far + texts(topics@).take(t as int),
                decreases topics.len() - t,
            {
                let ghost prev = texts(subscriptions@);
                subscriptions.push(topics[t].clone());
                t += 1;
                proof {
                    assert(texts(subscriptions@) =~= prev.push(topics@[t - 1]@));
                    assert(texts(topics@).take(t as int) =~= texts(topics@).take(t - 1).push(
                        topics@[t - 1]@,
                    ));
                }
            }
            assert(texts(topics@).take(t as int) =~= texts(topics@));
            slots.push(Slot { name: entry.0.clone(), interface, topics });
            k += 1;
            proof {
                let now = slot_views(slots@);
                assert(now.drop_last() =~= before);
                assert(now.last().topics == texts(topics@));
            }
        }
        let metadata = metadata_value(module_name, &manifest.provides).to_text();
        let mut module = Module {
            module_name: String::from_str(module_name),
            metadata,
            slots,
            subscriptions,
            phase: Phase::Subscribing { pending: 0 },
        };
        assert(module@.slots =~= built_slots(module_name@, provides, given));
        if module.subscriptions.len() > 0 {
            let first = Action::Subscribe {
                topic: module.subscriptions[0].clone(),
                qos: QoS::ExactlyOnce,
            };
            Ok((module, one(first)))
        } else {
            let metadata = module.metadata.clone();
            let first = Action::Publish(
                module.publish(PublicationKind::Metadata, "metadata", metadata),
            );
            module.phase = Phase::AnnouncingMetadata;
            Ok((module, one(first)))
        }
    }

    /// The name under which the module runs.
    pub fn module_name(&self) -> (name: &str)
        ensures
            name@ == self@.module_name,
    {
        self.module_name.as_str()
    }

    /// Builds the message that the module publishes on a topic of its own.
    pub fn publish(&self, kind: PublicationKind, topic: &str, value: String) -> (r: Publication)
        ensures
            r@ == publication(self@.module_name, kind, topic@, value@),
    {
        let publisher = Publisher { module: self.module_name.clone() };
        publisher.publish(kind, topic, value)
    }

    /// Whether the module has failed.
    pub fn has_failed(&self) -> (r: bool)
        ensures
            r == (self@.phase is Failed),
    {
        match self.phase {
            Phase::Failed => true,
            _ => false,
        }
    }

    /// Whether the module is waiting for the next message.
    pub fn is_serving(&self) -> (r: bool)
        ensures
            r == (self@.phase is Serving),
    {
        match self.phase {
            Phase::Serving => true,
            _ => false,
        }
    }

    /// Fails the module.
    fn stop(&mut self, error: Error) -> (actions: Vec<Action>)
        ensures
            (final(self)@, action_views(actions@)) == fail(old(self)@, error@),
    {
        self.phase = Phase::Failed;
        one(Action::Stop(error))
    }

    /// The first slot among whose topics `topic` is.
    fn find_slot(&self, topic: &str) -> (i: usize)
        ensures
            i == matching_slot(self@.slots, topic@, 0),
    {
        let mut i: usize = 0;
        while i < self.slots.len()
            invariant
                i <= self.slots.len(),
                matching_slot(self@.slots, topic@, 0) == matching_slot(self@.slots, topic@, i as int),
            decreases self.slots.len() - i,
        {
            if has_topic(&self.slots[i].topics, topic) {
                return i;
            }
            i += 1;
        }
        i
    }

    /// Takes a message in, while serving.
    fn receive(&mut self, topic: &str, payload: &[u8]) -> (actions: Vec<Action>)
        requires
            old(self)@.phase is Serving,
        ensures
            (final(self)@, action_views(actions@)) == on_message(old(self)@, topic@, payload@),
    {
        let i = self.find_slot(topic);
        if i >= self.slots.len() {
            return none();
        }
        match handle_mqtt_message(self.slots[i].interface, payload) {
            Ok(None) => none(),
            Ok(Some(invocation)) => {
                let slot = self.slots[i].name.clone();
                let actions = one(
                    Action::Invoke { slot: slot.clone(), invocation: invocation.clone() },
                );
                self.phase = Phase::Dispatching { slot, invocation };
                actions
            },
            Err(error) => self.stop(error),
        }
    }

    /// Goes on after the action that was called for last is done.
    fn proceed(&mut self) -> (actions: Vec<Action>)
        requires
            !(old(self)@.phase is Failed),
        ensures
            (final(self)@, action_views(actions@)) == step(old(self)@, EventView::Done),
    {
        match &self.phase {
            Phase::Subscribing { pending } => {
                let index = *pending;
                self.subscribe_after(index)
            },
            Phase::AnnouncingMetadata => {
                let next = Action::Publish(
                    self.publish(PublicationKind::Ready, "ready", String::from_str("true")),
                );
                self.phase = Phase::AnnouncingReady;
                one(next)
            },
            Phase::AnnouncingReady => {
                self.phase = Phase::Serving;
                none()
            },
            Phase::Publishing => {
                self.phase = Phase::Serving;
                none()
            },
            _ => none(),
        }
    }

    /// Goes on after the subscription with an index is in place.
    fn subscribe_after(&mut self, index: usize) -> (actions: Vec<Action>)
        requires
            old(self)@.phase == (PhaseView::Subscribing { pending: index }),
        ensures
            (final(self)@, action_views(actions@)) == after_subscription(old(self)@, index as int),
    {
        assert(self@.subscriptions.len() == self.subscriptions.len());
        if index < usize::MAX && index + 1 < self.subscriptions.len() {
            assert(self@.subscriptions[index + 1] == self.subscriptions@[index + 1]@);
            let next = Action::Subscribe {
                topic: self.subscriptions[index + 1].clone(),
                qos: QoS::ExactlyOnce,
            };
            assert(next@ == subscription(old(self)@, index + 1));
            self.phase = Phase::Subscribing { pending: index + 1 };
            assert(self@ == in_phase(
                old(self)@,
                PhaseView::Subscribing { pending: (index + 1) as usize },
            ));
            one(next)
        } else {
            let metadata = self.metadata.clone();
            let next = Action::Publish(
                self.publish(PublicationKind::Metadata, "metadata", metadata),
            );
            self.phase = Phase::AnnouncingMetadata;
            one(next)
        }
    }

    /// One step of the machine: takes an event in and returns the action
    /// that it calls for, if any.
    pub fn step(&mut self, event: &Event) -> (actions: Vec<Action>)
        ensures
            (final(self)@, action_views(actions@)) == step(old(self)@, event@),
    {
        if self.has_failed() {
            return none();
        }
        match event {
            Event::Failed(error) => self.stop(error.clone()),
            Event::Done => self.proceed(),
            Event::Message { topic, payload } => {
                if self.is_serving() {
                    self.receive(topic.as_str(), payload.as_slice())
                } else {
                    none()
                }
            },
            Event::Other => none(),
            Event::Returned(retval) => {
                if let Phase::Dispatching { slot, invocation } = &self.phase {
                    let envelope = result_envelope(
                        self.module_name.as_str(),
                        invocation,
                        retval.clone(),
                    );
                    let mut topic = slot.clone();
                    topic.append("/cmd");
                    let publication = self.publish(
                        PublicationKind::Result,
                        topic.as_str(),
                        envelope.encode(),
                    );
                    self.phase = Phase::Publishing;
                    one(Action::Publish(publication))
                } else {
                    none()
                }
            },
        }
    }

    /// Drives the machine over the events given, in order, and returns all
    /// the actions that they call for.
    pub fn loop_forever(&mut self, events: &Vec<Event>) -> (actions: Vec<Action>)
        ensures
            (final(self)@, action_views(actions@)) == run(old(self)@, event_views(events@)),
    {
        let mut actions: Vec<Action> = Vec::new();
        let ghost all = event_views(events@);
        let mut done: usize = 0;
        assert(action_views(actions@) =~= seq![]);
        assert(all.take(0) =~= seq![]);
        while done < events.len()
            invariant
                done <= events.len(),
                all == event_views(events@),
                (self@, action_views(actions@)) == run(old(self)@, all.take(done as int)),
            decreases events.len() - done,
        {
            let ghost before = action_views(actions@);
            let ghost prefix = all.take(done + 1);
            assert(prefix.drop_last() =~= all.take(done as int));
            assert(prefix.last() == events@[done as int]@);
            let mut more = self.step(&events[done]);
            let ghost added = action_views(more@);
            actions.append(&mut more);
            assert(action_views(actions@) =~= before + added);
            done += 1;
        }
        assert(all.take(done as int) =~= all);
        actions
    }
}

/// A step leaves a well-formed module well formed.
pub proof fn lemma_step_keeps_well_formed(m: ModuleView, event: EventView)
    requires
        module_well_formed(m),
    ensures
        module_well_formed(step(m, event).0),
{
    let after = step(m, event).0;
    assert(after.slots == m.slots && after.module_name == m.module_name && after.subscriptions
        == m.subscriptions);
}

/// [`matching_slot`] is the least index, from `from` on, of a slot among
/// whose topics `topic` is.
pub proof fn lemma_matching_slot(slots: Seq<SlotView>, topic: Seq<char>, from: int)
    requires
        0 <= from <= slots.len(),
    ensures
        from <= matching_slot(slots, topic, from) <= slots.len(),
        matching_slot(slots, topic, from) < slots.len() ==> slots[matching_slot(
            slots,
            topic,
            from,
        )].topics.contains(topic),
        forall|k: int|
            from <= k < matching_slot(slots, topic, from) ==> !(#[trigger] slots[k]).topics.contains(
                topic,
            ),
    decreases slots.len() - from,
{
    if from < slots.len() && !slots[from].topics.contains(topic) {
        lemma_matching_slot(slots, topic, from + 1);
    }
}

/// A message on a topic that is among the topics of no slot is ignored, in
/// every phase: no action is called for, so nothing is published, and the
/// module stays as it is.
pub proof fn lemma_unknown_topic_is_ignored(m: ModuleView, topic: Seq<char>, payload: Seq<u8>)
    requires
        forall|i: int| 0 <= i < m.slots.len() ==> !(#[trigger] m.slots[i]).topics.contains(topic),
    ensures
        step(m, EventView::Message { topic, payload }) == (m, Seq::<ActionView>::empty()),
{
    lemma_matching_slot(m.slots, topic, 0);
}

/// Whether every declared argument is given with a value that fits its type.
pub open spec fn well_typed(
    command: Seq<char>,
    declared: Seq<(Seq<char>, VariableView)>,
    given: Seq<(Seq<char>, JsonView)>,
) -> bool {
    forall|k: int|
        0 <= k < declared.len() ==> argument_error(
            command,
            (#[trigger] declared[k]).0,
            declared[k].1,
            given,
        ) is None
}

/// With every declared argument well typed, nothing is wrong with any.
pub proof fn lemma_well_typed(
    command: Seq<char>,
    declared: Seq<(Seq<char>, VariableView)>,
    given: Seq<(Seq<char>, JsonView)>,
    from: int,
)
    requires
        0 <= from <= declared.len(),
        well_typed(command, declared, given),
    ensures
        first_bad(command, declared, given, from) == declared.len(),
    decreases declared.len() - from,
{
    if from < declared.len() {
        assert(argument_error(command, declared[from].0, declared[from].1, given) is None);
        lemma_well_typed(command, declared, given, from + 1);
    }
}

/// A call of a declared command, with every declared argument given and
/// well typed, that comes in on a topic of a slot while a well-formed
/// module serves, is answered exactly once. The message calls for one
/// action, the call of the service implementation with the name and the id
/// of the call. The value that the implementation returns calls for one
/// action again: the publication, on the topic on which the call came, of a
/// result with the name and the id of the call, the module's name as its
/// origin, and that value. Once that is done, the module serves again, and
/// nothing more was called for.
pub proof fn lemma_call_is_answered_once(
    m: ModuleView,
    topic: Seq<char>,
    payload: Seq<u8>,
    name: Seq<char>,
    data: CallDataView,
    retval: JsonView,
)
    requires
        m.phase is Serving,
        module_well_formed(m),
        matching_slot(m.slots, topic, 0) < m.slots.len(),
        decoded(payload) == Some(EnvelopeView::Call { name, data }),
        ({
            let slot = m.slots[matching_slot(m.slots, topic, 0)];
            &&& lookup(slot.interface.cmds, name) is Some
            &&& well_typed(name, lookup(slot.interface.cmds, name).unwrap().arguments, data.args)
        }),
    ensures
        ({
            let slot = m.slots[matching_slot(m.slots, topic, 0)];
            let (called, first) = step(m, EventView::Message { topic, payload });
            let (answered, second) = step(called, EventView::Returned(retval));
            let (served, third) = step(answered, EventView::Done);
            &&& first.len() == 1
            &&& first[0] is Invoke
            &&& first[0]->Invoke_slot == slot.name
            &&& first[0]->Invoke_invocation.name == name
            &&& first[0]->Invoke_invocation.id == data.id
            &&& second.len() == 1
            &&& second[0] is Publish
            &&& second[0]->Publish_0.kind == PublicationKind::Result
            &&& second[0]->Publish_0.topic == command_topic(m.module_name, slot.name)
            &&& second[0]->Publish_0.topic == topic
            &&& second[0]->Publish_0.payload == encoded(
                EnvelopeView::Result {
                    name,
                    data: ResultDataView { id: data.id, origin: m.module_name, retval },
                },
            )
            &&& second[0]->Publish_0.qos == QoS::ExactlyOnce
            &&& !second[0]->Publish_0.retain
            &&& third.len() == 0
            &&& served == m
        }),
{
    lemma_matching_slot(m.slots, topic, 0);
    let slot = m.slots[matching_slot(m.slots, topic, 0)];
    let command = lookup(slot.interface.cmds, name).unwrap();
    lemma_well_typed(name, command.arguments, data.args, 0);
    let (called, first) = step(m, EventView::Message { topic, payload });
    let (answered, second) = step(called, EventView::Returned(retval));
    assert(second[0]->Publish_0.topic =~= command_topic(m.module_name, slot.name));
    let topics = slot_topics(m.module_name, slot.name, slot.interface);
    assert(topics.contains(topic));
    let at = choose|at: int| 0 <= at < topics.len() && topics[at] == topic;
    assert(topics[at] == topic);
}

/// Whether an action publishes a message of a kind.
pub open spec fn publishes(action: ActionView, kind: PublicationKind) -> bool {
    action is Publish && action->Publish_0.kind == kind
}

/// Whether the metadata is among the actions.
pub open spec fn heralded(actions: Seq<ActionView>) -> bool {
    exists|i: int|
        0 <= i < actions.len() && publishes(#[trigger] actions[i], PublicationKind::Metadata)
}

/// Whether the metadata, and after it the readiness flag, are among the
/// actions.
pub open spec fn announced(actions: Seq<ActionView>) -> bool {
    exists|i: int, j: int|
        0 <= i < j < actions.len() && publishes(#[trigger] actions[i], PublicationKind::Metadata)
            && publishes(#[trigger] actions[j], PublicationKind::Ready)
}

/// Whether the publications stand in order: the metadata is published before
/// each readiness flag, and both before each result.
pub open spec fn in_order(actions: Seq<ActionView>) -> bool {
    &&& forall|k: int|
        0 <= k < actions.len() && publishes(#[trigger] actions[k], PublicationKind::Ready)
            ==> heralded(actions.take(k))
    &&& forall|k: int|
        0 <= k < actions.len() && publishes(#[trigger] actions[k], PublicationKind::Result)
            ==> announced(actions.take(k))
}

/// What the phase of a module says of the actions so far: once the
/// metadata is handed out it is among them, and once the readiness flag is
/// handed out both are, in this order.
pub open spec fn phase_fits(m: ModuleView, so_far: Seq<ActionView>) -> bool {
    &&& m.phase is AnnouncingMetadata ==> heralded(so_far)
    &&& m.phase is AnnouncingReady || m.phase is Serving || m.phase is Dispatching
        || m.phase is Publishing ==> announced(so_far)
}

/// More actions leave the metadata in place.
pub proof fn lemma_heralded_extends(so_far: Seq<ActionView>, more: Seq<ActionView>)
    requires
        heralded(so_far),
    ensures
        heralded(so_far + more),
{
    let all = so_far + more;
    let i = choose|i: int|
        0 <= i < so_far.len() && publishes(#[trigger] so_far[i], PublicationKind::Metadata);
    assert(publishes(all[i], PublicationKind::Metadata));
}

/// More actions leave an announcement in place.
pub proof fn lemma_announced_extends(so_far: Seq<ActionView>, more: Seq<ActionView>)
    requires
        announced(so_far),
    ensures
        announced(so_far + more),
{
    let all = so_far + more;
    let (i, j) = choose|i: int, j: int|
        0 <= i < j < so_far.len() && publishes(#[trigger] so_far[i], PublicationKind::Metadata)
            && publishes(#[trigger] so_far[j], PublicationKind::Ready);
    assert(publishes(all[i], PublicationKind::Metadata));
    assert(publishes(all[j], PublicationKind::Ready));
}

/// One more action keeps the publications in order, where it is no
/// readiness flag before the metadata and no result before both.
pub proof fn lemma_order_extends(so_far: Seq<ActionView>, action: ActionView)
    requires
        in_order(so_far),
        publishes(action, PublicationKind::Ready) ==> heralded(so_far),
        publishes(action, PublicationKind::Result) ==> announced(so_far),
    ensures
        in_order(so_far + seq![action]),
{
    let all = so_far + seq![action];
    let n = so_far.len() as int;
    assert(all.take(n) =~= so_far);
    assert forall|k: int|
        0 <= k < all.len() && publishes(
            #[trigger] all[k],
            PublicationKind::Ready,
        ) implies heralded(all.take(k)) by {
        if k < n {
            assert(all[k] == so_far[k]);
            assert(all.take(k) =~= so_far.take(k));
        }
    }
    assert forall|k: int|
        0 <= k < all.len() && publishes(
            #[trigger] all[k],
            PublicationKind::Result,
        ) implies announced(all.take(k)) by {
        if k < n {
            assert(all[k] == so_far[k]);
            assert(all.take(k) =~= so_far.take(k));
        }
    }
}

/// One step keeps the publications in order.
pub proof fn lemma_step_keeps_order(m: ModuleView, so_far: Seq<ActionView>, event: EventView)
    requires
        in_order(so_far),
        phase_fits(m, so_far),
    ensures
        in_order(so_far + step(m, event).1),
        phase_fits(step(m, event).0, so_far + step(m, event).1),
{
    let (after, more) = step(m, event);
    if more.len() == 0 {
        assert(so_far + more =~= so_far);
    } else {
        assert(more =~= seq![more[0]]);
        lemma_order_extends(so_far, more[0]);
        let all = so_far + more;
        let n = so_far.len() as int;
        if heralded(so_far) {
            lemma_heralded_extends(so_far, more);
        }
        if announced(so_far) {
            lemma_announced_extends(so_far, more);
        }
        if after.phase is AnnouncingMetadata {
            assert(publishes(all[n], PublicationKind::Metadata));
        }
        if after.phase is AnnouncingReady {
            let i = choose|i: int|
                0 <= i < so_far.len() && publishes(#[trigger] so_far[i], PublicationKind::Metadata);
            assert(publishes(all[i], PublicationKind::Metadata));
            assert(publishes(all[n], PublicationKind::Ready));
        }
    }
}

/// A run keeps the publications in order.
pub proof fn lemma_run_keeps_order(m: ModuleView, so_far: Seq<ActionView>, events: Seq<EventView>)
    requires
        in_order(so_far),
        phase_fits(m, so_far),
    ensures
        in_order(so_far + run(m, events).1),
        phase_fits(run(m, events).0, so_far + run(m, events).1),
    decreases events.len(),
{
    if events.len() > 0 {
        lemma_run_keeps_order(m, so_far, events.drop_last());
        let (before, actions) = run(m, events.drop_last());
        lemma_step_keeps_order(before, so_far + actions, events.last());
        assert(so_far + actions + step(before, events.last()).1 =~= so_far + run(m, events).1);
    } else {
        assert(so_far + run(m, events).1 =~= so_far);
    }
}

/// From its start on, whatever happens, a module publishes its metadata
/// before its readiness flag, and both before any result.
pub proof fn lemma_announcement_comes_first(
    module_name: Seq<char>,
    metadata: Seq<char>,
    slots: Seq<SlotView>,
    events: Seq<EventView>,
)
    ensures
        ({
            let (m, first) = start(module_name, metadata, slots);
            in_order(first + run(m, events).1)
        }),
{
    let (m, first) = start(module_name, metadata, slots);
    assert(in_order(first)) by {
        assert(first.len() == 1);
        assert(!publishes(first[0], PublicationKind::Ready));
        assert(!publishes(first[0], PublicationKind::Result));
    }
    if m.phase is AnnouncingMetadata {
        assert(publishes(first[0], PublicationKind::Metadata));
    }
    lemma_run_keeps_order(m, first, events);
}

/// The machine run over an event and then more events.
pub proof fn lemma_run_from_first(m: ModuleView, event: EventView, events: Seq<EventView>)
    ensures
        run(m, seq![event] + events) == ({
            let (next, first) = step(m, event);
            let (last, more) = run(next, events);
            (last, first + more)
        }),
    decreases events.len(),
{
    let all = seq![event] + events;
    let (next, first) = step(m, event);
    if events.len() == 0 {
        assert(all.drop_last() =~= seq![]);
        assert(run(m, all.drop_last()) == (m, Seq::<ActionView>::empty()));
        assert(seq![] + first =~= first + seq![]);
    } else {
        assert(all.drop_last() =~= seq![event] + events.drop_last());
        lemma_run_from_first(m, event, events.drop_last());
        let (before, actions) = run(next, events.drop_last());
        let (after, more) = step(before, events.last());
        assert(first + actions + more =~= first + (actions + more));
    }
}

/// After a failure nothing is called for any more.
pub proof fn lemma_nothing_follows_a_failure(m: ModuleView, events: Seq<EventView>)
    requires
        m.phase is Failed,
    ensures
        run(m, events) == (m, Seq::<ActionView>::empty()),
    decreases events.len(),
{
    if events.len() > 0 {
        lemma_nothing_follows_a_failure(m, events.drop_last());
        assert(seq![] + step(m, events.last()).1 =~= Seq::<ActionView>::empty());
    }
}

/// Where an action that was called for fails, the module stops, and
/// whatever happens then, nothing follows: after a failed subscription no
/// further subscription is asked for and nothing is published, and after a
/// failed publication of the metadata the readiness flag is not published.
pub proof fn lemma_failure_withholds_the_rest(m: ModuleView, error: ErrorView, events: Seq<EventView>)
    requires
        !(m.phase is Failed),
    ensures
        run(m, seq![EventView::Failed(error)] + events).1 == seq![ActionView::Stop(error)],
{
    lemma_run_from_first(m, EventView::Failed(error), events);
    let (failed, first) = step(m, EventView::Failed(error));
    lemma_nothing_follows_a_failure(failed, events);
    assert(first + Seq::<ActionView>::empty() =~= first);
}

} // verus!
