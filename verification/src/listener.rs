//! What the advertisement listener does about each thing that happens.
use crate::ble;
use crate::ble::{build_advertisement, AdvertisementModel, BleAdvertisement};
use crate::properties;
use crate::text::same_text;
use crate::variant;
use std::collections::HashMap;
use vstd::prelude::*;
use zbus::zvariant::OwnedValue;

verus! {

/// What a stream of D-Bus signals gave when it was asked for the next one.
pub enum Polled<T> {
    /// Nothing: the stream has ended.
    Closed,
    /// An error in place of a message.
    Failed,
    /// A message whose body is not of the expected form.
    Unreadable,
    /// A message.
    Message(T),
}

/// Properties of an object have changed.
pub struct AdapterChange {
    pub interface: String,
    pub changed: HashMap<String, OwnedValue>,
}

/// Interfaces have been added to an object.
pub struct AddedInterfaces {
    pub path: String,
    pub interfaces: HashMap<String, HashMap<String, OwnedValue>>,
}

/// What BlueZ answered to the request to start discovery.
pub enum DiscoveryReply {
    /// Discovery has been started.
    Accepted,
    /// The request was answered with an error of this name.
    Refused(String),
    /// The request got no answer.
    Failed,
}

/// What the answer means.
#[derive(Debug, Clone, Copy, PartialEq, Eq)]
pub enum DiscoveryOutcome {
    /// Discovery runs from now on.
    Started,
    /// Discovery was running already.
    AlreadyRunning,
    /// Discovery does not run.
    NotStarted,
}

/// Whether discovery runs after an answer of BlueZ.
pub open spec fn outcome(reply: DiscoveryReply) -> DiscoveryOutcome {
    match reply {
        DiscoveryReply::Accepted => DiscoveryOutcome::Started,
        DiscoveryReply::Refused(name) => if name@ == "org.bluez.Error.InProgress"@ {
            DiscoveryOutcome::AlreadyRunning
        } else {
            DiscoveryOutcome::NotStarted
        },
        DiscoveryReply::Failed => DiscoveryOutcome::NotStarted,
    }
}

/// Decides whether discovery runs after an answer of BlueZ.
pub fn discovery_outcome(reply: &DiscoveryReply) -> (result: DiscoveryOutcome)
    ensures
        result == outcome(*reply),
{
    match reply {
        DiscoveryReply::Accepted => DiscoveryOutcome::Started,
        DiscoveryReply::Refused(name) => if same_text(
            name.as_str(),
            "org.bluez.Error.InProgress",
        ) {
            DiscoveryOutcome::AlreadyRunning
        } else {
            DiscoveryOutcome::NotStarted
        },
        DiscoveryReply::Failed => DiscoveryOutcome::NotStarted,
    }
}

/// Something that the listener has to react to.
pub enum ListenerEvent {
    /// The stream of changes to adapters.
    Adapter(Polled<AdapterChange>),
    /// The stream of changes to devices: the path of the device, where the
    /// message has one.
    Device(Polled<Option<String>>),
    /// The stream of new interfaces.
    Interfaces(Polled<AddedInterfaces>),
    /// The answer to the request to start discovery.
    Discovery(DiscoveryReply),
    /// The properties of a device that were asked for, where they could be had.
    Fetched { path: String, props: Option<HashMap<String, OwnedValue>> },
}

/// What the listener does next.
pub enum ListenerAction {
    /// Wait for the next event.
    Listen,
    /// Stop, with the error that the event came with.
    Stop,
    /// Ask for discovery to be started again.
    StartDiscovery,
    /// Ask for the properties of the device at this path.
    Fetch(String),
    /// Hand the advertisement to the subscribers, then wait.
    Publish(BleAdvertisement),
    /// Note that no advertisement can be made of the device at this path.
    NoAdvertisement(String),
    /// Note that the properties of the device at this path could not be had.
    NoProperties(String),
    /// Note that what is new at this path is no device.
    NotADevice(String),
}

/// What a `ListenerAction` stands for.
pub enum ActionModel {
    Listen,
    Stop,
    StartDiscovery,
    Fetch(Seq<char>),
    Publish(AdvertisementModel),
    NoAdvertisement(Seq<char>),
    NoProperties(Seq<char>),
    NotADevice(Seq<char>),
}

impl View for ListenerAction {
    type V = ActionModel;

    open spec fn view(&self) -> ActionModel {
        match self {
            ListenerAction::Listen => ActionModel::Listen,
            ListenerAction::Stop => ActionModel::Stop,
            ListenerAction::StartDiscovery => ActionModel::StartDiscovery,
            ListenerAction::Fetch(path) => ActionModel::Fetch(path@),
            ListenerAction::Publish(made) => ActionModel::Publish(made@),
            ListenerAction::NoAdvertisement(path) => ActionModel::NoAdvertisement(path@),
            ListenerAction::NoProperties(path) => ActionModel::NoProperties(path@),
            ListenerAction::NotADevice(path) => ActionModel::NotADevice(path@),
        }
    }
}

/// Whether a change says that an adapter has stopped discovering.
pub open spec fn discovery_ended(
    interface: Seq<char>,
    changed: Map<String, OwnedValue>,
) -> bool {
    &&& interface == "org.bluez.Adapter1"@
    &&& match properties::property(changed, "Discovering"@) {
        Some(value) => value.flag() == Some(false),
        None => false,
    }
}

/// What is to be done about the properties of the device at `path`.
pub open spec fn publication(path: Seq<char>, props: Map<String, OwnedValue>) -> ActionModel {
    match ble::device_advertisement(properties::device(props)) {
        Some(made) => ActionModel::Publish(made),
        None => ActionModel::NoAdvertisement(path),
    }
}

/// What the listener does about an event.
///
/// A stream that has ended is left alone. So is an error in the stream of
/// changes to adapters; an error in another stream ends the listener, as does a
/// message that cannot be read and an answer after which discovery does not run.
pub open spec fn reaction(event: ListenerEvent) -> ActionModel {
    match event {
        ListenerEvent::Adapter(Polled::Closed) => ActionModel::Listen,
        ListenerEvent::Adapter(Polled::Failed) => ActionModel::Listen,
        ListenerEvent::Adapter(Polled::Unreadable) => ActionModel::Stop,
        ListenerEvent::Adapter(Polled::Message(change)) => if discovery_ended(
            change.interface@,
            change.changed@,
        ) {
            ActionModel::StartDiscovery
        } else {
            ActionModel::Listen
        },
        ListenerEvent::Device(Polled::Closed) => ActionModel::Listen,
        ListenerEvent::Device(Polled::Failed) => ActionModel::Stop,
        ListenerEvent::Device(Polled::Unreadable) => ActionModel::Stop,
        ListenerEvent::Device(Polled::Message(Some(path))) => ActionModel::Fetch(path@),
        ListenerEvent::Device(Polled::Message(None)) => ActionModel::Listen,
        ListenerEvent::Interfaces(Polled::Closed) => ActionModel::Listen,
        ListenerEvent::Interfaces(Polled::Failed) => ActionModel::Stop,
        ListenerEvent::Interfaces(Polled::Unreadable) => ActionModel::Stop,
        ListenerEvent::Interfaces(Polled::Message(added)) => match variant::entry(
            added.interfaces@,
            "org.bluez.Device1"@,
        ) {
            Some(props) => publication(added.path@, props@),
            None => ActionModel::NotADevice(added.path@),
        },
        ListenerEvent::Discovery(reply) => match outcome(reply) {
            DiscoveryOutcome::Started => ActionModel::Listen,
            DiscoveryOutcome::AlreadyRunning => ActionModel::Listen,
            DiscoveryOutcome::NotStarted => ActionModel::Stop,
        },
        ListenerEvent::Fetched { path, props: Some(props) } => publication(path@, props@),
        ListenerEvent::Fetched { path, props: None } => ActionModel::NoProperties(path@),
    }
}

/// Tells whether a change says that an adapter has stopped discovering.
fn has_discovery_ended(change: &AdapterChange) -> (ended: bool)
    ensures
        ended == discovery_ended(change.interface@, change.changed@),
{
    if !same_text(change.interface.as_str(), "org.bluez.Adapter1") {
        return false;
    }
    match variant::find(&change.changed, "Discovering") {
        Some(value) => match variant::flag(variant::borrowed(value)) {
            Some(discovering) => !discovering,
            None => false,
        },
        None => false,
    }
}

/// Makes an advertisement of the properties of the device at `path`.
fn publish(path: String, props: &HashMap<String, OwnedValue>) -> (action: ListenerAction)
    ensures
        action@ == publication(path@, props@),
{
    match build_advertisement(props) {
        Some(made) => ListenerAction::Publish(made),
        None => ListenerAction::NoAdvertisement(path),
    }
}

/// Decides what the listener does about an event.
pub fn react(event: ListenerEvent) -> (action: ListenerAction)
    ensures
        action@ == reaction(event),
{
    match event {
        ListenerEvent::Adapter(polled) => match polled {
            Polled::Closed => ListenerAction::Listen,
            Polled::Failed => ListenerAction::Listen,
            Polled::Unreadable => ListenerAction::Stop,
            Polled::Message(change) => if has_discovery_ended(&change) {
                ListenerAction::StartDiscovery
            } else {
                ListenerAction::Listen
            },
        },
        ListenerEvent::Device(polled) => match polled {
            Polled::Closed => ListenerAction::Listen,
            Polled::Failed => ListenerAction::Stop,
            Polled::Unreadable => ListenerAction::Stop,
            Polled::Message(path) => match path {
                Some(path) => ListenerAction::Fetch(path),
                None => ListenerAction::Listen,
            },
        },
        ListenerEvent::Interfaces(polled) => match polled {
            Polled::Closed => ListenerAction::Listen,
            Polled::Failed => ListenerAction::Stop,
            Polled::Unreadable => ListenerAction::Stop,
            Polled::Message(added) => match variant::find(&added.interfaces, "org.bluez.Device1") {
                Some(props) => publish(added.path, props),
                None => ListenerAction::NotADevice(added.path),
            },
        },
        ListenerEvent::Discovery(reply) => match discovery_outcome(&reply) {
            DiscoveryOutcome::Started => ListenerAction::Listen,
            DiscoveryOutcome::AlreadyRunning => ListenerAction::Listen,
            DiscoveryOutcome::NotStarted => ListenerAction::Stop,
        },
        ListenerEvent::Fetched { path, props } => match props {
            Some(props) => publish(path, &props),
            None => ListenerAction::NoProperties(path),
        },
    }
}

/// Whether an event is an error that the listener cannot go on after.
pub open spec fn fatal(event: ListenerEvent) -> bool {
    match event {
        ListenerEvent::Adapter(polled) => polled is Unreadable,
        ListenerEvent::Device(polled) => polled is Failed || polled is Unreadable,
        ListenerEvent::Interfaces(polled) => polled is Failed || polled is Unreadable,
        ListenerEvent::Discovery(reply) => outcome(reply) is NotStarted,
        ListenerEvent::Fetched { .. } => false,
    }
}

/// Errors of the bus end the listener, and nothing else does: no device, neither
/// one whose properties cannot be had nor one that no advertisement can be made
/// of, no message that can be read, and no stream that ends.
pub proof fn law_only_errors_stop_the_listener(event: ListenerEvent)
    ensures
        reaction(event) is Stop <==> fatal(event),
{
}

/// An advertisement is handed on exactly for a device with an address, whether
/// the device is new or has changed, and it is the same one for both.
pub proof fn law_new_and_changed_devices_are_published_alike(
    path: String,
    props: HashMap<String, OwnedValue>,
    interfaces: HashMap<String, HashMap<String, OwnedValue>>,
)
    requires
        variant::entry(interfaces@, "org.bluez.Device1"@) == Some(props),
    ensures
        ({
            let new = reaction(
                ListenerEvent::Interfaces(Polled::Message(AddedInterfaces { path, interfaces })),
            );
            let changed = reaction(ListenerEvent::Fetched { path, props: Some(props) });
            &&& new == changed
            &&& new is Publish <==> properties::device(props@).address is Some
        }),
{
}

/// When adapters stop discovering, discovery is asked for again; when it turns
/// out to be running already, the listener goes on.
pub proof fn law_discovery_is_kept_up(change: AdapterChange, name: String)
    ensures
        reaction(ListenerEvent::Adapter(Polled::Message(change))) is StartDiscovery
            <==> discovery_ended(change.interface@, change.changed@),
        name@ == "org.bluez.Error.InProgress"@ ==> reaction(
            ListenerEvent::Discovery(DiscoveryReply::Refused(name)),
        ) is Listen,
{
}

/// An action stands for itself, with the characters of its path or with its
/// advertisement.
pub proof fn law_action_model(action: ListenerAction)
    ensures
        action is Listen <==> action@ is Listen,
        action is Stop <==> action@ is Stop,
        action is StartDiscovery <==> action@ is StartDiscovery,
        action matches ListenerAction::Fetch(path) ==> action@ == ActionModel::Fetch(path@),
        action matches ListenerAction::Publish(made) ==> action@ == ActionModel::Publish(made@),
        action matches ListenerAction::NoAdvertisement(path) ==> action@
            == ActionModel::NoAdvertisement(path@),
        action matches ListenerAction::NoProperties(path) ==> action@ == ActionModel::NoProperties(
            path@,
        ),
        action matches ListenerAction::NotADevice(path) ==> action@ == ActionModel::NotADevice(
            path@,
        ),
{
}

/// Every change of a device leads to a request for its properties, at the very
/// path of the message. Nothing else does.
pub proof fn law_changed_devices_are_fetched(event: ListenerEvent, path: String)
    ensures
        reaction(ListenerEvent::Device(Polled::Message(Some(path)))) == ActionModel::Fetch(path@),
        reaction(event) is Fetch ==> (event matches ListenerEvent::Device(Polled::Message(from))
            && from is Some),
{
}

/// Properties that were asked for are published where an advertisement can be
/// made of them; else what went wrong is noted, with the path of the device.
pub proof fn law_fetched_properties_are_published(
    path: String,
    props: HashMap<String, OwnedValue>,
)
    ensures
        ({
            let action = reaction(ListenerEvent::Fetched { path, props: Some(props) });
            let device = properties::device(props@);
            &&& device.address is None ==> action == ActionModel::NoAdvertisement(path@)
            &&& device.address is Some ==> (action matches ActionModel::Publish(made)
                && ble::device_advertisement(device) == Some(made))
        }),
        reaction(ListenerEvent::Fetched { path, props: None }) == ActionModel::NoProperties(path@),
{
}

/// What is new and no device is noted, with its path.
pub proof fn law_other_objects_are_noted(added: AddedInterfaces)
    requires
        variant::entry(added.interfaces@, "org.bluez.Device1"@) is None,
    ensures
        reaction(ListenerEvent::Interfaces(Polled::Message(added))) == ActionModel::NotADevice(
            added.path@,
        ),
{
}

/// An advertisement is handed on only for a device that is new or whose
/// properties came.
pub proof fn law_only_devices_are_published(event: ListenerEvent)
    requires
        reaction(event) is Publish,
    ensures
        (event matches ListenerEvent::Fetched { path: _, props } && props is Some) || (
        event matches ListenerEvent::Interfaces(Polled::Message(added)) && variant::entry(
            added.interfaces@,
            "org.bluez.Device1"@,
        ) is Some),
{
}

/// The listener just goes on when a stream ends, when the stream of changes to
/// adapters fails, when a device does not tell its path, when an adapter changes
/// otherwise than by ending discovery, and when discovery runs.
pub proof fn law_listener_goes_on(change: AdapterChange, reply: DiscoveryReply)
    ensures
        reaction(ListenerEvent::Adapter(Polled::Closed)) is Listen,
        reaction(ListenerEvent::Adapter(Polled::Failed)) is Listen,
        reaction(ListenerEvent::Device(Polled::Closed)) is Listen,
        reaction(ListenerEvent::Device(Polled::Message(None))) is Listen,
        reaction(ListenerEvent::Interfaces(Polled::Closed)) is Listen,
        !discovery_ended(change.interface@, change.changed@) ==> reaction(
            ListenerEvent::Adapter(Polled::Message(change)),
        ) is Listen,
        outcome(reply) !is NotStarted ==> reaction(ListenerEvent::Discovery(reply)) is Listen,
{
}

/// Discovery has ended exactly where the properties of an adapter have changed,
/// and the one named `Discovering` holds false.
pub proof fn law_discovery_ended(interface: Seq<char>, changed: Map<String, OwnedValue>)
    ensures
        discovery_ended(interface, changed) <==> {
            &&& interface == "org.bluez.Adapter1"@
            &&& variant::entry(changed, "Discovering"@) matches Some(value)
            &&& variant::owned_content(value).flag() == Some(false)
        },
{
}

/// Discovery runs after it was started, and after BlueZ answered that it is in
/// progress; after no other answer.
pub proof fn law_discovery_outcome(reply: DiscoveryReply)
    ensures
        outcome(reply) is Started <==> reply is Accepted,
        outcome(reply) is AlreadyRunning <==> (reply matches DiscoveryReply::Refused(name) && name@
            == "org.bluez.Error.InProgress"@),
{
}

} // verus!
