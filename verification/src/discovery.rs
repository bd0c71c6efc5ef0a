//! The payload that announces one entity to the hub.

use vstd::prelude::*;
use crate::error::SerializationError;
use crate::json::{
    array, json_array, json_member, json_object, json_optional_string, json_string, member,
    object, optional_string_member, string_literal, string_member, texts,
};

verus! {

/// The device that an entity belongs to.
#[derive(Debug)]
pub struct Device {
    pub identifiers: Vec<String>,
    pub name: String,
}

/// What a `Device` holds, as plain text.
pub struct DeviceView {
    pub identifiers: Seq<Seq<char>>,
    pub name: Seq<char>,
}

impl View for Device {
    type V = DeviceView;

    open spec fn view(&self) -> DeviceView {
        DeviceView { identifiers: texts(self.identifiers@), name: self.name@ }
    }
}

/// The discovery payload of an entity that has one component.
#[derive(Debug)]
pub struct SingleComponentDiscoveryPayload {
    pub unique_id: String,
    pub name: String,
    pub device_class: Option<String>,
    pub state_class: Option<String>,
    pub state_topic: String,
    pub value_template: String,
    pub unit_of_measurement: Option<String>,
    pub icon: Option<String>,
    pub device: Device,
}

/// What a `SingleComponentDiscoveryPayload` holds, as plain text.
pub struct PayloadView {
    pub unique_id: Seq<char>,
    pub name: Seq<char>,
    pub device_class: Option<Seq<char>>,
    pub state_class: Option<Seq<char>>,
    pub state_topic: Seq<char>,
    pub value_template: Seq<char>,
    pub unit_of_measurement: Option<Seq<char>>,
    pub icon: Option<Seq<char>>,
    pub device: DeviceView,
}

/// The text of an optional string.
pub open spec fn optional_text(s: Option<String>) -> Option<Seq<char>> {
    match s {
        Some(inner) => Some(inner@),
        None => None,
    }
}

impl View for SingleComponentDiscoveryPayload {
    type V = PayloadView;

    open spec fn view(&self) -> PayloadView {
        PayloadView {
            unique_id: self.unique_id@,
            name: self.name@,
            device_class: optional_text(self.device_class),
            state_class: optional_text(self.state_class),
            state_topic: self.state_topic@,
            value_template: self.value_template@,
            unit_of_measurement: optional_text(self.unit_of_measurement),
            icon: optional_text(self.icon),
            device: self.device@,
        }
    }
}

/// The JSON object of a device: its identifiers, then its name.
pub open spec fn device_json(device: DeviceView) -> Seq<char> {
    json_object(
        seq![
            json_member(
                "identifiers"@,
                json_array(device.identifiers.map_values(|id: Seq<char>| json_string(id))),
            ),
            json_member("name"@, json_string(device.name)),
        ],
    )
}

/// The members of a payload's JSON object, in the order in which they are
/// written. A payload without a device class has no such member; the other
/// optional fields are written as `null` where they are absent.
pub open spec fn payload_members(payload: PayloadView) -> Seq<Seq<char>> {
    seq![
        json_member("unique_id"@, json_string(payload.unique_id)),
        json_member("name"@, json_string(payload.name)),
    ] + (match payload.device_class {
        Some(class) => seq![json_member("device_class"@, json_string(class))],
        None => Seq::empty(),
    }) + seq![
        json_member("state_class"@, json_optional_string(payload.state_class)),
        json_member("state_topic"@, json_string(payload.state_topic)),
        json_member("value_template"@, json_string(payload.value_template)),
        json_member("unit_of_measurement"@, json_optional_string(payload.unit_of_measurement)),
        json_member("icon"@, json_optional_string(payload.icon)),
        json_member("device"@, device_json(payload.device)),
    ]
}

/// The JSON text of a payload.
pub open spec fn payload_json(payload: PayloadView) -> Seq<char> {
    json_object(payload_members(payload))
}

impl Device {
    /// Writes the device as a JSON object.
    pub fn to_json(&self) -> (result: Result<String, SerializationError>)
        ensures
            result matches Ok(text) && text@ == device_json(self@),
    {
        let mut identifiers: Vec<String> = Vec::new();
        let mut i: usize = 0;
        while i < self.identifiers.len()
            invariant
                i <= self.identifiers.len(),
                identifiers.len() == i,
                forall|j: int|
                    0 <= j < i ==> (#[trigger] identifiers@[j])@ == json_string(
                        self.identifiers@[j]@,
                    ),
            decreases self.identifiers.len() - i,
        {
            identifiers.push(string_literal(self.identifiers[i].as_str())?);
            i += 1;
        }
        proof {
            assert(texts(identifiers@) =~= self@.identifiers.map_values(
                |id: Seq<char>| json_string(id),
            ));
        }
        let list = array(&identifiers);
        let mut members: Vec<String> = Vec::new();
        members.push(member("identifiers", list.as_str())?);
        members.push(string_member("name", self.name.as_str())?);
        proof {
            assert(texts(members@) == seq![
                json_member(
                    "identifiers"@,
                    json_array(self@.identifiers.map_values(|id: Seq<char>| json_string(id))),
                ),
                json_member("name"@, json_string(self@.name)),
            ]);
        }
        Ok(object(&members))
    }
}

impl SingleComponentDiscoveryPayload {
    /// Writes the payload as the JSON object that is published.
    pub fn to_json(&self) -> (result: Result<String, SerializationError>)
        ensures
            result matches Ok(text) && text@ == payload_json(self@),
    {
        let mut members: Vec<String> = Vec::new();
        members.push(string_member("unique_id", self.unique_id.as_str())?);
        members.push(string_member("name", self.name.as_str())?);
        if let Some(class) = &self.device_class {
            members.push(string_member("device_class", class.as_str())?);
        }
        members.push(optional_string_member("state_class", &self.state_class)?);
        members.push(string_member("state_topic", self.state_topic.as_str())?);
        members.push(string_member("value_template", self.value_template.as_str())?);
        members.push(optional_string_member("unit_of_measurement", &self.unit_of_measurement)?);
        members.push(optional_string_member("icon", &self.icon)?);
        let device = self.device.to_json()?;
        members.push(member("device", device.as_str())?);
        proof {
            assert(texts(members@) =~= payload_members(self@));
        }
        Ok(object(&members))
    }
}

} // verus!
