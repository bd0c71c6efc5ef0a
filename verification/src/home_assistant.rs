//! The registry of entities announced to the hub, and the messages that the
//! bridge publishes about them.

use vstd::prelude::*;
use vstd::hash_set::StringHashSet;
use vstd::string::StringExecFns;
use crate::discovery::{
    optional_text, payload_json, Device, DeviceView, PayloadView,
    SingleComponentDiscoveryPayload,
};
use crate::error::{
    DiscoveryError, DiscoveryErrorView, PublishError, RegistrationErrorView,
    SerializationError, ValidationError, ValidationErrorView,
};
use crate::stats::{
    distinct_keys, inserted, lemma_inserted, state_json, value_of, MetricView, Stats,
};
use crate::text::{chars_of, slice, string_of};

verus! {

/// Whether `c` may stand in an entity identifier: a lower-case ASCII letter,
/// an ASCII digit, `_` or `-`.
pub open spec fn is_entity_id_char(c: char) -> bool {
    ('a' <= c && c <= 'z') || ('0' <= c && c <= '9') || c == '_' || c == '-'
}

/// Whether `id` is an entity identifier: not empty, and made of the allowed
/// characters only.
pub open spec fn is_entity_id(id: Seq<char>) -> bool {
    &&& id.len() > 0
    &&& forall|i: int| 0 <= i < id.len() ==> is_entity_id_char(#[trigger] id[i])
}

fn entity_id_char(c: char) -> (allowed: bool)
    ensures
        allowed == is_entity_id_char(c),
{
    (c >= 'a' && c <= 'z') || (c >= '0' && c <= '9') || c == '_' || c == '-'
}

/// Why `id` cannot name an entity, if it cannot: it is empty, or it holds a
/// character that is not allowed.
pub open spec fn refusal(id: Seq<char>) -> Option<ValidationErrorView> {
    if id.len() == 0 {
        Some(ValidationErrorView::Empty)
    } else if !is_entity_id(id) {
        Some(ValidationErrorView::InvalidCharacters(id))
    } else {
        None
    }
}

/// Checks that `entity_id` can name an entity.
pub fn validate_entity_id(entity_id: &str) -> (result: Result<(), ValidationError>)
    ensures
        result is Ok <==> is_entity_id(entity_id@),
        match result {
            Ok(()) => refusal(entity_id@) is None,
            Err(error) => refusal(entity_id@) == Some(error@),
        },
{
    if entity_id.is_empty() {
        return Err(ValidationError::Empty);
    }
    let mut allowed = true;
    for c in it: entity_id.chars()
        invariant
            it.seq() == entity_id@,
            allowed == (forall|i: int|
                0 <= i < it.index() ==> is_entity_id_char(#[trigger] entity_id@[i])),
    {
        if !entity_id_char(c) {
            allowed = false;
        }
    }
    if allowed {
        Ok(())
    } else {
        Err(ValidationError::InvalidCharacters(entity_id.to_owned()))
    }
}

/// What is asked of the registry for one entity.
#[derive(Clone, Copy, Debug)]
pub struct EntityRegistrationBuilder<'a> {
    platform: &'a str,
    device_class: Option<&'a str>,
    state_class: Option<&'a str>,
    entity_id: &'a str,
    unit_of_measurement: Option<&'a str>,
    icon: Option<&'a str>,
}

/// An entity descriptor, as plain text.
pub struct EntityView {
    pub platform: Seq<char>,
    pub entity_id: Seq<char>,
    pub device_class: Option<Seq<char>>,
    pub state_class: Option<Seq<char>>,
    pub unit_of_measurement: Option<Seq<char>>,
    pub icon: Option<Seq<char>>,
}

/// The text of an optional string slice.
pub open spec fn optional_str(s: Option<&str>) -> Option<Seq<char>> {
    match s {
        Some(inner) => Some(inner@),
        None => None,
    }
}

impl<'a> View for EntityRegistrationBuilder<'a> {
    type V = EntityView;

    closed spec fn view(&self) -> EntityView {
        EntityView {
            platform: self.platform@,
            entity_id: self.entity_id@,
            device_class: optional_str(self.device_class),
            state_class: optional_str(self.state_class),
            unit_of_measurement: optional_str(self.unit_of_measurement),
            icon: optional_str(self.icon),
        }
    }
}

impl<'a> EntityRegistrationBuilder<'a> {
    /// A descriptor of the entity `entity_id` on the platform `platform`,
    /// with no other metadata.
    pub fn new(platform: &'a str, entity_id: &'a str) -> (builder: Self)
        ensures
            builder@ == (EntityView {
                platform: platform@,
                entity_id: entity_id@,
                device_class: None,
                state_class: None,
                unit_of_measurement: None,
                icon: None,
            }),
    {
        Self {
            platform,
            device_class: None,
            state_class: None,
            entity_id,
            unit_of_measurement: None,
            icon: None,
        }
    }

    /// Sets the device class, which tells the hub what kind of quantity the
    /// entity reports.
    pub fn device_class(self, device_class: &'a str) -> (builder: Self)
        ensures
            builder@ == (EntityView { device_class: Some(device_class@), ..self@ }),
    {
        let mut builder = self;
        builder.device_class = Some(device_class);
        builder
    }

    /// Sets the state class, which tells the hub how to read the values.
    pub fn state_class(self, state_class: &'a str) -> (builder: Self)
        ensures
            builder@ == (EntityView { state_class: Some(state_class@), ..self@ }),
    {
        let mut builder = self;
        builder.state_class = Some(state_class);
        builder
    }

    /// Sets the unit in which the values are given.
    pub fn unit_of_measurement(self, unit: &'a str) -> (builder: Self)
        ensures
            builder@ == (EntityView { unit_of_measurement: Some(unit@), ..self@ }),
    {
        let mut builder = self;
        builder.unit_of_measurement = Some(unit);
        builder
    }

    /// Sets the icon that the hub shows for the entity.
    pub fn icon(self, icon: &'a str) -> (builder: Self)
        ensures
            builder@ == (EntityView { icon: Some(icon@), ..self@ }),
    {
        let mut builder = self;
        builder.icon = Some(icon);
        builder
    }
}

/// How hard the broker tries to deliver a message.
#[derive(Clone, Copy, Debug, PartialEq, Eq, Structural)]
pub enum QoS {
    AtMostOnce,
    AtLeastOnce,
    ExactlyOnce,
}

/// One message for the broker.
#[derive(Debug)]
pub struct Publication {
    pub topic: String,
    pub qos: QoS,
    pub retain: bool,
    pub payload: String,
}

/// A `Publication`, as plain values.
pub struct PublicationView {
    pub topic: Seq<char>,
    pub qos: QoS,
    pub retain: bool,
    pub payload: Seq<char>,
}

impl View for Publication {
    type V = PublicationView;

    open spec fn view(&self) -> PublicationView {
        PublicationView {
            topic: self.topic@,
            qos: self.qos,
            retain: self.retain,
            payload: self.payload@,
        }
    }
}

/// The topic `system-mqtt/{device_id}/{name}`.
pub open spec fn device_topic(device_id: Seq<char>, name: Seq<char>) -> Seq<char> {
    "system-mqtt/"@ + device_id + "/"@ + name
}

/// The topic on which a device says whether it is there.
pub open spec fn availability_topic(device_id: Seq<char>) -> Seq<char> {
    device_topic(device_id, "availability"@)
}

/// The one topic on which a device publishes the state of all its entities.
pub open spec fn state_topic(device_id: Seq<char>) -> Seq<char> {
    device_topic(device_id, "state"@)
}

/// The topic `homeassistant/{platform}/system-mqtt-{device_id}/{entity_id}/config`,
/// on which an entity is announced.
pub open spec fn discovery_topic(
    platform: Seq<char>,
    device_id: Seq<char>,
    entity_id: Seq<char>,
) -> Seq<char> {
    "homeassistant/"@ + platform + "/system-mqtt-"@ + device_id + "/"@ + entity_id + "/config"@
}

/// The identifier `{device_id}-{entity_id}`, unique over all devices.
pub open spec fn unique_id(device_id: Seq<char>, entity_id: Seq<char>) -> Seq<char> {
    device_id + "-"@ + entity_id
}

/// The expression by which the hub takes an entity's value out of the state
/// object: `{{ value_json['<entity_id>'] }}`.
pub open spec fn value_template(entity_id: Seq<char>) -> Seq<char> {
    "{{ value_json['"@ + entity_id + "'] }}"@
}

/// The payload that announces `entity` as part of the device `device_id`.
pub open spec fn discovery_payload(device_id: Seq<char>, entity: EntityView) -> PayloadView {
    PayloadView {
        unique_id: unique_id(device_id, entity.entity_id),
        name: unique_id(device_id, entity.entity_id),
        device_class: entity.device_class,
        state_class: entity.state_class,
        state_topic: state_topic(device_id),
        value_template: value_template(entity.entity_id),
        unit_of_measurement: entity.unit_of_measurement,
        icon: entity.icon,
        device: DeviceView { identifiers: seq![device_id], name: device_id },
    }
}

/// The discovery topic of `entity` and the payload published on it.
pub open spec fn discovery_entry(device_id: Seq<char>, entity: EntityView) -> (
    Seq<char>,
    PayloadView,
) {
    (
        discovery_topic(entity.platform, device_id, entity.entity_id),
        discovery_payload(device_id, entity),
    )
}

/// The message that says whether the device `device_id` is there: `online`
/// or `offline`, retained.
pub open spec fn availability_message(device_id: Seq<char>, available: bool) -> PublicationView {
    PublicationView {
        topic: availability_topic(device_id),
        qos: QoS::AtLeastOnce,
        retain: true,
        payload: if available {
            "online"@
        } else {
            "offline"@
        },
    }
}

/// The message that carries `value` on the topic `name` of the device
/// `device_id`; it is not retained.
pub open spec fn value_message(
    device_id: Seq<char>,
    name: Seq<char>,
    value: Seq<char>,
) -> PublicationView {
    PublicationView {
        topic: device_topic(device_id, name),
        qos: QoS::AtLeastOnce,
        retain: false,
        payload: value,
    }
}

fn device_topic_of(device_id: &str, name: &str) -> (topic: String)
    ensures
        topic@ == device_topic(device_id@, name@),
{
    let mut topic = String::from_str("system-mqtt/");
    topic.append(device_id);
    topic.append("/");
    topic.append(name);
    topic
}

fn unique_id_of(device_id: &str, entity_id: &str) -> (id: String)
    ensures
        id@ == unique_id(device_id@, entity_id@),
{
    let mut id = String::from_str(device_id);
    id.append("-");
    id.append(entity_id);
    id
}

fn owned(s: Option<&str>) -> (result: Option<String>)
    ensures
        optional_text(result) == optional_str(s),
{
    match s {
        Some(inner) => Some(String::from_str(inner)),
        None => None,
    }
}

/// How far a run of registrations has come: what is registered, and why the
/// run stopped, if it did.
pub struct Registration {
    pub registered: Seq<EntityView>,
    pub failure: Option<RegistrationErrorView>,
}

/// The run `run` after `entity` was asked for. A run that has stopped stays
/// as it is; a refused identifier stops it; else the entity is registered
/// behind the others.
pub open spec fn request(run: Registration, entity: EntityView) -> Registration {
    if run.failure is Some {
        run
    } else {
        match refusal(entity.entity_id) {
            Some(error) => Registration {
                failure: Some(RegistrationErrorView::Validation(error)),
                ..run
            },
            None => Registration { registered: run.registered.push(entity), ..run },
        }
    }
}

/// The run `run` after each of `entities` was asked for, in order.
pub open spec fn requests(run: Registration, entities: Seq<EntityView>) -> Registration
    decreases entities.len(),
{
    if entities.len() == 0 {
        run
    } else {
        requests(request(run, entities.first()), entities.drop_first())
    }
}

/// The descriptors of `builders`, in order.
pub open spec fn descriptors(builders: Seq<EntityRegistrationBuilder<'_>>) -> Seq<EntityView> {
    builders.map_values(|builder: EntityRegistrationBuilder<'_>| builder@)
}

/// Asking for `entities` from the `from`-th on gives what asking for that one
/// and then for those behind it gives.
pub proof fn lemma_requests_step(run: Registration, entities: Seq<EntityView>, from: int)
    requires
        0 <= from < entities.len(),
    ensures
        requests(run, entities.skip(from)) == requests(
            request(run, entities[from]),
            entities.skip(from + 1),
        ),
{
    assert(entities.skip(from).drop_first() == entities.skip(from + 1));
}

/// Asking for `first` and then for `second` gives what asking for both at
/// once gives.
pub proof fn lemma_requests_append(
    run: Registration,
    first: Seq<EntityView>,
    second: Seq<EntityView>,
)
    ensures
        requests(run, first + second) == requests(requests(run, first), second),
    decreases first.len(),
{
    if first.len() == 0 {
        assert(first + second == second);
    } else {
        assert((first + second).first() == first.first());
        assert((first + second).drop_first() == first.drop_first() + second);
        lemma_requests_append(request(run, first.first()), first.drop_first(), second);
    }
}

/// A run that has stopped stays as it is, whatever is asked for.
pub proof fn lemma_requests_stopped(run: Registration, entities: Seq<EntityView>)
    requires
        run.failure is Some,
    ensures
        requests(run, entities) == run,
    decreases entities.len(),
{
    if entities.len() > 0 {
        lemma_requests_stopped(run, entities.drop_first());
    }
}

/// The entities of one device that have been announced to the hub, and the
/// topics on which the device may publish values.
pub struct HomeAssistant {
    device_id: String,
    registered_topics: StringHashSet,
    discovery_info: Vec<(String, SingleComponentDiscoveryPayload)>,
    entities: Ghost<Seq<EntityView>>,
}

impl HomeAssistant {
    /// The identifier of the device.
    pub closed spec fn device_id(&self) -> Seq<char> {
        self.device_id@
    }

    /// The descriptors that were registered, in the order of registration.
    pub closed spec fn registered(&self) -> Seq<EntityView> {
        self.entities@
    }

    /// The topics on which values may be published.
    pub closed spec fn topics(&self) -> Set<Seq<char>> {
        self.registered_topics@
    }

    /// The discovery topics and payloads that are held, in order.
    pub closed spec fn entries(&self) -> Seq<(Seq<char>, PayloadView)> {
        self.discovery_info@.map_values(
            |entry: (String, SingleComponentDiscoveryPayload)| (entry.0@, entry.1@),
        )
    }

    /// The registry holds, for each registered descriptor and in the same
    /// order, the discovery entry made from it; each of their identifiers was
    /// validated; and the state topic is open once anything is registered.
    pub closed spec fn wf(&self) -> bool {
        &&& self.entries() == self.registered().map_values(
            |entity: EntityView| discovery_entry(self.device_id(), entity),
        )
        &&& forall|i: int|
            0 <= i < self.registered().len() ==> is_entity_id(
                (#[trigger] self.registered()[i]).entity_id,
            )
        &&& self.topics() == if self.registered().len() > 0 {
            set![state_topic(self.device_id())]
        } else {
            Set::empty()
        }
    }

    /// A registry for the device `device_id`, with nothing registered.
    pub fn new(device_id: String) -> (registry: Self)
        ensures
            registry.wf(),
            registry.device_id() == device_id@,
            registry.registered() == Seq::<EntityView>::empty(),
            registry.entries() == Seq::<(Seq<char>, PayloadView)>::empty(),
            registry.topics() == Set::<Seq<char>>::empty(),
    {
        let registry = Self {
            device_id,
            registered_topics: StringHashSet::new(),
            discovery_info: Vec::new(),
            entities: Ghost(Seq::empty()),
        };
        proof {
            assert(registry.entries() =~= Seq::<(Seq<char>, PayloadView)>::empty());
            assert(registry.entries() =~= registry.registered().map_values(
                |entity: EntityView| discovery_entry(registry.device_id(), entity),
            ));
        }
        registry
    }

    /// The identifier of the device.
    pub fn id(&self) -> (id: &str)
        ensures
            id@ == self.device_id(),
    {
        self.device_id.as_str()
    }

    /// The message that tells the hub whether the device is there.
    pub fn set_available(&self, available: bool) -> (message: Publication)
        ensures
            message@ == availability_message(self.device_id(), available),
    {
        let payload = if available {
            "online"
        } else {
            "offline"
        };
        Publication {
            topic: device_topic_of(self.device_id.as_str(), "availability"),
            qos: QoS::AtLeastOnce,
            retain: true,
            payload: String::from_str(payload),
        }
    }

    /// Registers the entity that `builder` describes: validates its
    /// identifier, keeps its discovery topic and payload behind those
    /// registered before, and opens the state topic.
    pub fn register_entity_with_builder(
        &mut self,
        builder: EntityRegistrationBuilder<'_>,
    ) -> (result: Result<(), ValidationError>)
        requires
            old(self).wf(),
        ensures
            final(self).wf(),
            final(self).device_id() == old(self).device_id(),
            result is Ok <==> is_entity_id(builder@.entity_id),
            result is Ok ==> final(self).registered() == old(self).registered().push(builder@),
            result is Ok ==> final(self).entries() == old(self).entries().push(
                discovery_entry(old(self).device_id(), builder@),
            ),
            result is Ok ==> final(self).topics() == old(self).topics().insert(
                state_topic(old(self).device_id()),
            ),
            result is Err ==> final(self).registered() == old(self).registered(),
            result is Err ==> final(self).entries() == old(self).entries(),
            result is Err ==> final(self).topics() == old(self).topics(),
            match result {
                Ok(()) => refusal(builder@.entity_id) is None,
                Err(error) => refusal(builder@.entity_id) == Some(error@),
            },
    {
        match validate_entity_id(builder.entity_id) {
            Ok(()) => {},
            Err(error) => {
                return Err(error);
            },
        }
        let device_id = self.device_id.as_str();
        let topic = device_topic_of(device_id, "state");
        let mut template = String::from_str("{{ value_json['");
        template.append(builder.entity_id);
        template.append("'] }}");
        let mut identifiers: Vec<String> = Vec::new();
        identifiers.push(self.device_id.clone());
        let payload = SingleComponentDiscoveryPayload {
            unique_id: unique_id_of(device_id, builder.entity_id),
            device: Device { identifiers, name: self.device_id.clone() },
            name: unique_id_of(device_id, builder.entity_id),
            device_class: owned(builder.device_class),
            state_class: owned(builder.state_class),
            state_topic: topic.clone(),
            value_template: template,
            unit_of_measurement: owned(builder.unit_of_measurement),
            icon: owned(builder.icon),
        };
        let mut announcement = String::from_str("homeassistant/");
        announcement.append(builder.platform);
        announcement.append("/system-mqtt-");
        announcement.append(device_id);
        announcement.append("/");
        announcement.append(builder.entity_id);
        announcement.append("/config");
        proof {
            assert(payload@.device.identifiers =~= seq![self.device_id()]);
            assert(payload@ == discovery_payload(self.device_id(), builder@));
            assert((announcement@, payload@) == discovery_entry(self.device_id(), builder@));
        }
        self.discovery_info.push((announcement, payload));
        self.registered_topics.insert(topic);
        self.entities = Ghost(self.entities@.push(builder@));
        proof {
            let expected = self.registered().map_values(
                |entity: EntityView| discovery_entry(self.device_id(), entity),
            );
            let before = old(self).registered().map_values(
                |entity: EntityView| discovery_entry(self.device_id(), entity),
            );
            assert(old(self).entries() == before);
            assert(old(self).entries().len() == old(self).discovery_info@.len());
            assert(self.entries().len() == expected.len());
            assert forall|i: int| 0 <= i < expected.len() implies self.entries()[i]
                == expected[i] by {
                if i < old(self).registered().len() {
                    assert(self.entries()[i] == old(self).entries()[i]);
                    assert(expected[i] == before[i]);
                }
            }
            assert(self.entries() =~= expected);
            assert(self.topics() =~= set![state_topic(self.device_id())]);
        }
        Ok(())
    }

    /// Registers the entities that `builders` describe, in order and up to
    /// the first that is refused.
    pub fn register_all(&mut self, builders: &Vec<EntityRegistrationBuilder<'_>>) -> (result:
        Result<(), ValidationError>)
        requires
            old(self).wf(),
        ensures
            final(self).wf(),
            final(self).device_id() == old(self).device_id(),
            ({
                let run = requests(
                    Registration { registered: old(self).registered(), failure: None },
                    descriptors(builders@),
                );
                &&& final(self).registered() == run.registered
                &&& match result {
                    Ok(()) => run.failure is None,
                    Err(error) => run.failure == Some(RegistrationErrorView::Validation(error@)),
                }
            }),
    {
        let ghost start = Registration { registered: self.registered(), failure: None };
        let ghost wanted = descriptors(builders@);
        proof {
            assert(wanted.skip(0) == wanted);
        }
        let mut i: usize = 0;
        while i < builders.len()
            invariant
                i <= builders.len(),
                self.wf(),
                self.device_id() == old(self).device_id(),
                wanted == descriptors(builders@),
                start == (Registration { registered: old(self).registered(), failure: None }),
                requests(start, wanted) == requests(
                    Registration { registered: self.registered(), failure: None },
                    wanted.skip(i as int),
                ),
            decreases builders.len() - i,
        {
            let ghost before = Registration { registered: self.registered(), failure: None };
            proof {
                lemma_requests_step(before, wanted, i as int);
                assert(wanted[i as int] == builders@[i as int]@);
            }
            match self.register_entity_with_builder(builders[i]) {
                Ok(()) => {},
                Err(error) => {
                    proof {
                        lemma_requests_stopped(
                            request(before, wanted[i as int]),
                            wanted.skip(i + 1),
                        );
                    }
                    return Err(error);
                },
            }
            i += 1;
        }
        Ok(())
    }

    /// The discovery topics and payloads, in the order of registration.
    pub fn discovery_entries(&self) -> (entries: &Vec<(String, SingleComponentDiscoveryPayload)>)
        ensures
            entries@.map_values(
                |entry: (String, SingleComponentDiscoveryPayload)| (entry.0@, entry.1@),
            ) == self.entries(),
    {
        &self.discovery_info
    }

    /// Whether values may be published on the topic `state_field` of the
    /// device.
    pub fn is_registered(&self, state_field: &str) -> (registered: bool)
        ensures
            registered == self.topics().contains(device_topic(self.device_id(), state_field@)),
    {
        let topic = device_topic_of(self.device_id.as_str(), state_field);
        self.registered_topics.contains(topic.as_str())
    }

    /// The message that carries `value` on the topic `topic_name` of the
    /// device, or nothing where that topic was never opened by a
    /// registration.
    pub fn publish(&self, topic_name: &str, value: String) -> (message: Option<Publication>)
        ensures
            message is Some <==> self.topics().contains(
                device_topic(self.device_id(), topic_name@),
            ),
            message matches Some(m) ==> m@ == value_message(
                self.device_id(),
                topic_name@,
                value@,
            ),
    {
        let topic = device_topic_of(self.device_id.as_str(), topic_name);
        if self.registered_topics.contains(topic.as_str()) {
            Some(Publication { topic, qos: QoS::AtLeastOnce, retain: false, payload: value })
        } else {
            None
        }
    }

    /// The message that carries all of `metrics` as one JSON object on the
    /// state topic, or nothing where no registration has opened that topic.
    /// Keys that no entity was registered for are published with the rest.
    pub fn publish_state(&self, metrics: &Stats) -> (result: Result<
        Option<Publication>,
        SerializationError,
    >)
        ensures
            result matches Ok(message) && {
                &&& message is Some <==> self.topics().contains(state_topic(self.device_id()))
                &&& message matches Some(m) ==> m@ == value_message(
                    self.device_id(),
                    "state"@,
                    state_json(metrics@),
                )
            },
    {
        match metrics.to_json() {
            Ok(body) => Ok(self.publish("state", body)),
            Err(error) => Err(error),
        }
    }

    /// The message with which the device takes leave of the hub.
    pub fn disconnect(&self) -> (message: Publication)
        ensures
            message@ == availability_message(self.device_id(), false),
    {
        self.set_available(false)
    }

    /// Begins a pass over the discovery entries, at the first of them.
    pub fn publish_discovery(&self) -> (pass: DiscoveryPass)
        ensures
            pass.cursor() == 0,
    {
        DiscoveryPass { cursor: 0 }
    }

    /// What a well-formed registry holds: the entries are those of the
    /// registered descriptors, whose identifiers are all valid, and the only
    /// topic that is ever opened is the state topic.
    pub proof fn lemma_contents(&self)
        requires
            self.wf(),
        ensures
            self.entries() == self.registered().map_values(
                |entity: EntityView| discovery_entry(self.device_id(), entity),
            ),
            forall|i: int|
                0 <= i < self.registered().len() ==> is_entity_id(
                    (#[trigger] self.registered()[i]).entity_id,
                ),
            self.topics() == if self.registered().len() > 0 {
                set![state_topic(self.device_id())]
            } else {
                Set::empty()
            },
    {
    }
}

/// The message that announces a discovery entry: its payload as JSON on its
/// topic, retained.
pub open spec fn announcement(entry: (Seq<char>, PayloadView)) -> PublicationView {
    PublicationView {
        topic: entry.0,
        qos: QoS::AtLeastOnce,
        retain: true,
        payload: payload_json(entry.1),
    }
}

/// A pass over the discovery entries of a registry, in their order. It
/// stands before the entry at its cursor.
pub struct DiscoveryPass {
    cursor: usize,
}

/// An entry that was handed out for publication and whose outcome is
/// awaited.
pub struct Pending {
    index: usize,
}

/// What a pass asks for next.
pub enum DiscoveryStep {
    /// Publish this message, and report what became of it.
    Publish(Publication, Pending),
    /// The pass is over.
    Finished(Result<(), DiscoveryError>),
}

impl DiscoveryPass {
    /// The index of the entry that the pass stands before.
    pub closed spec fn cursor(&self) -> nat {
        self.cursor as nat
    }

    /// Renders the entry at the cursor for publication; where no entry is
    /// left the pass ends well. The encoder's error would end the pass, though
    /// none comes for a payload.
    pub fn next(self, registry: &HomeAssistant) -> (step: DiscoveryStep)
        ensures
            self.cursor() >= registry.entries().len() ==> step matches DiscoveryStep::Finished(
                Ok(()),
            ),
            self.cursor() < registry.entries().len() ==> (step matches DiscoveryStep::Publish(
                message,
                pending,
            ) && message@ == announcement(registry.entries()[self.cursor() as int])
                && pending.index() == self.cursor()),
    {
        if self.cursor >= registry.discovery_info.len() {
            return DiscoveryStep::Finished(Ok(()));
        }
        let entry = &registry.discovery_info[self.cursor];
        match entry.1.to_json() {
            Ok(payload) => DiscoveryStep::Publish(
                Publication {
                    topic: entry.0.clone(),
                    qos: QoS::AtLeastOnce,
                    retain: true,
                    payload,
                },
                Pending { index: self.cursor },
            ),
            Err(error) => DiscoveryStep::Finished(
                Err(DiscoveryError::Serialization { index: self.cursor, error }),
            ),
        }
    }
}

impl Pending {
    /// The index of the entry that was handed out.
    pub closed spec fn index(&self) -> nat {
        self.index as nat
    }

    #[verifier::type_invariant]
    spec fn in_range(&self) -> bool {
        self.index < usize::MAX
    }

    /// Takes the outcome of the publication. After a success the pass goes on
    /// behind the entry; a failure ends it, and no later entry is published.
    pub fn delivered(self, outcome: Result<(), PublishError>) -> (next: Result<
        DiscoveryPass,
        DiscoveryError,
    >)
        ensures
            match next {
                Ok(pass) => after_delivery(self.index(), told(outcome)) == Ok::<
                    nat,
                    DiscoveryErrorView,
                >(pass.cursor()),
                Err(error) => after_delivery(self.index(), told(outcome)) == Err::<
                    nat,
                    DiscoveryErrorView,
                >(error@),
            },
    {
        proof {
            use_type_invariant(&self);
        }
        match outcome {
            Ok(()) => Ok(DiscoveryPass { cursor: self.index + 1 }),
            Err(error) => Err(DiscoveryError::Publish { index: self.index, error }),
        }
    }
}

/// What the broker connection told of a publication: nothing where it took
/// the message, else the reason for which it did not.
pub open spec fn told(outcome: Result<(), PublishError>) -> Option<Seq<char>> {
    match outcome {
        Ok(()) => None,
        Err(error) => Some(error@),
    }
}

/// Where a pass stands after the publication of the entry `index`: before
/// the next entry where the message was taken, and at its end, with the
/// error, where it was refused.
pub open spec fn after_delivery(index: nat, refused: Option<Seq<char>>) -> Result<
    nat,
    DiscoveryErrorView,
> {
    match refused {
        None => Ok(index + 1),
        Some(reason) => Err(DiscoveryErrorView::Publish { index: index as usize, reason }),
    }
}

/// The entries that are attempted in a pass over `total` entries from the
/// entry `cursor` on, and how the pass ends. `refusal` tells for each entry
/// why the broker connection would not take it, if it would not. The pass
/// goes as `DiscoveryPass::next` and `Pending::delivered` make it go: the
/// entry at the cursor is attempted, and what is told of it decides where
/// the pass stands then.
pub open spec fn pass_from(
    total: nat,
    cursor: nat,
    refusal: spec_fn(nat) -> Option<Seq<char>>,
) -> (Seq<nat>, Result<(), DiscoveryErrorView>)
    decreases total - cursor,
{
    if cursor >= total {
        (Seq::empty(), Ok(()))
    } else {
        match after_delivery(cursor, refusal(cursor)) {
            Ok(next) => {
                let (attempted, end) = pass_from(total, next, refusal);
                (seq![cursor] + attempted, end)
            },
            Err(error) => (seq![cursor], Err(error)),
        }
    }
}

/// The entries from `from` up to `to`, in order.
pub open spec fn entries_between(from: nat, to: nat) -> Seq<nat> {
    Seq::new((to - from) as nat, |i: int| (from + i) as nat)
}

/// A pass stops at the first refusal. Where the entry `failing` is the
/// first that is refused, the entries before it and the entry itself are
/// attempted, in order, none behind it is, and the pass ends with the error
/// of that entry.
pub proof fn lemma_pass_stops_at_first_refusal(
    total: nat,
    cursor: nat,
    refusal: spec_fn(nat) -> Option<Seq<char>>,
    failing: nat,
)
    requires
        cursor <= failing < total,
        refusal(failing) is Some,
        forall|i: nat| cursor <= i < failing ==> (#[trigger] refusal(i)) is None,
    ensures
        pass_from(total, cursor, refusal) == (
            entries_between(cursor, failing + 1),
            Err::<(), DiscoveryErrorView>(
                DiscoveryErrorView::Publish {
                    index: failing as usize,
                    reason: refusal(failing)->0,
                },
            ),
        ),
    decreases failing - cursor,
{
    if cursor < failing {
        lemma_pass_stops_at_first_refusal(total, cursor + 1, refusal, failing);
        assert(refusal(cursor) is None);
        assert(seq![cursor] + entries_between(cursor + 1, failing + 1) =~= entries_between(
            cursor,
            failing + 1,
        ));
    } else {
        assert(seq![cursor] =~= entries_between(cursor, failing + 1));
    }
}

/// A pass in which nothing is refused attempts every entry, in order, and
/// ends well. This holds of every pass, also of the one that follows a pass
/// that failed: each begins at the first entry.
pub proof fn lemma_pass_without_refusal(
    total: nat,
    cursor: nat,
    refusal: spec_fn(nat) -> Option<Seq<char>>,
)
    requires
        cursor <= total,
        forall|i: nat| cursor <= i < total ==> (#[trigger] refusal(i)) is None,
    ensures
        pass_from(total, cursor, refusal) == (
            entries_between(cursor, total),
            Ok::<(), DiscoveryErrorView>(()),
        ),
    decreases total - cursor,
{
    if cursor < total {
        lemma_pass_without_refusal(total, cursor + 1, refusal);
        assert(refusal(cursor) is None);
        assert(seq![cursor] + entries_between(cursor + 1, total) =~= entries_between(
            cursor,
            total,
        ));
    } else {
        assert(Seq::<nat>::empty() =~= entries_between(cursor, total));
    }
}

/// The field of the state object that the value template `template`
/// selects, if it is written as the bridge writes one.
pub open spec fn template_field(template: Seq<char>) -> Option<Seq<char>> {
    let before = "{{ value_json['"@;
    let behind = "'] }}"@;
    if template.len() >= before.len() + behind.len() && template.take(before.len() as int)
        == before && template.skip(template.len() - behind.len()) == behind {
        Some(template.subrange(before.len() as int, template.len() - behind.len()))
    } else {
        None
    }
}

/// The value template of an entity selects the field that is named like
/// the entity.
pub proof fn lemma_template_selects_entity(entity_id: Seq<char>)
    ensures
        template_field(value_template(entity_id)) == Some(entity_id),
{
    let before = "{{ value_json['"@;
    let behind = "'] }}"@;
    let template = value_template(entity_id);
    assert(template.take(before.len() as int) =~= before);
    assert(template.skip(template.len() - behind.len()) =~= behind);
    assert(template.subrange(before.len() as int, template.len() - behind.len()) =~= entity_id);
}

/// What the hub reads for an entity out of a state object: the value of
/// the field that the entity's value template selects.
pub open spec fn decoded(
    payload: PayloadView,
    state: Seq<(Seq<char>, MetricView)>,
) -> Option<MetricView> {
    match template_field(payload.value_template) {
        Some(field) => value_of(state, field),
        None => None,
    }
}

/// Round trip: for every entity of a registry, what the hub reads out of a
/// state object with the value template of the entity's discovery payload
/// is the value that the state holds under the entity's identifier; so a
/// value that was put into the state under that identifier is read back.
pub proof fn lemma_round_trip(
    registry: HomeAssistant,
    state: Seq<(Seq<char>, MetricView)>,
    i: int,
    value: MetricView,
)
    requires
        registry.wf(),
        0 <= i < registry.registered().len(),
        distinct_keys(state),
    ensures
        registry.entries().len() == registry.registered().len(),
        decoded(registry.entries()[i].1, state) == value_of(
            state,
            registry.registered()[i].entity_id,
        ),
        decoded(
            registry.entries()[i].1,
            inserted(state, registry.registered()[i].entity_id, value),
        ) == Some(value),
{
    let id = registry.registered()[i].entity_id;
    registry.lemma_contents();
    lemma_template_selects_entity(id);
    lemma_inserted(state, id, value, id);
}

/// Tells which field of the state object the value template `template`
/// selects.
pub fn selected_field(template: &str) -> (field: Option<String>)
    ensures
        optional_text(field) == template_field(template@),
{
    let chars = chars_of(template);
    let before = chars_of("{{ value_json['");
    let behind = chars_of("'] }}");
    if chars.len() < before.len() || chars.len() - before.len() < behind.len() {
        return None;
    }
    let start = before.len();
    let end = chars.len() - behind.len();
    let mut i: usize = 0;
    while i < start
        invariant
            i <= start,
            start == before.len(),
            start + behind.len() <= chars.len(),
            chars@ == template@,
            before@ == "{{ value_json['"@,
            behind@ == "'] }}"@,
            forall|j: int| 0 <= j < i ==> chars@[j] == before@[j],
        decreases start - i,
    {
        if chars[i] != before[i] {
            proof {
                assert(chars@.take(start as int)[i as int] != before@[i as int]);
            }
            return None;
        }
        i += 1;
    }
    proof {
        assert(chars@.take(start as int) =~= before@);
    }
    let mut k: usize = 0;
    while k < behind.len()
        invariant
            k <= behind.len(),
            end + behind.len() == chars.len(),
            before.len() <= end,
            chars@ == template@,
            before@ == "{{ value_json['"@,
            behind@ == "'] }}"@,
            forall|j: int| 0 <= j < k ==> chars@[end + j] == behind@[j],
        decreases behind.len() - k,
    {
        if chars[end + k] != behind[k] {
            proof {
                assert(chars@.skip(end as int)[k as int] != behind@[k as int]);
            }
            return None;
        }
        k += 1;
    }
    proof {
        assert(chars@.skip(end as int) =~= behind@);
    }
    Some(string_of(&slice(&chars, start, end)))
}

} // verus!
