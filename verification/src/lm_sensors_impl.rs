//! The sensor chips of the machine: which entities their features become,
//! and which of their readings are reported.

use vstd::prelude::*;
use vstd::string::StringExecFns;
use crate::discovery::optional_text;
use crate::error::{RegistrationError, RegistrationErrorView};
use crate::home_assistant::{
    request, EntityRegistrationBuilder, EntityView, HomeAssistant, Registration,
};
use crate::number::JsonNumber;
use crate::stats::{distinct_keys, noted, optional_number, MetricValue, MetricView, Stats};
use crate::system_sensors::sensor;
use crate::utils::{sanitize_sensor_name, sanitized};

verus! {

/// What a feature of a chip measures.
#[derive(Clone, Copy, Debug, PartialEq, Eq, Structural)]
pub enum Kind {
    Voltage,
    Fan,
    Temperature,
    Power,
    Energy,
    Current,
    Humidity,
    VoltageID,
    Intrusion,
    BeepEnable,
    Unknown,
    /// A kind that this library has no name for.
    Unrecognized,
}

/// The value of a sub-feature of a chip. A measurement holds the number
/// that was read, or nothing where what was read is no number.
#[derive(Debug)]
pub enum Reading {
    VoltageInput(Option<JsonNumber>),
    FanInput(Option<JsonNumber>),
    TemperatureInput(Option<JsonNumber>),
    PowerInput(Option<JsonNumber>),
    EnergyInput(Option<JsonNumber>),
    CurrentInput(Option<JsonNumber>),
    HumidityInput(Option<JsonNumber>),
    /// A value that is no measurement: a limit, an alarm, a setting.
    Other,
}

/// A `Reading`, as plain values.
pub enum ReadingView {
    VoltageInput(Option<Seq<char>>),
    FanInput(Option<Seq<char>>),
    TemperatureInput(Option<Seq<char>>),
    PowerInput(Option<Seq<char>>),
    EnergyInput(Option<Seq<char>>),
    CurrentInput(Option<Seq<char>>),
    HumidityInput(Option<Seq<char>>),
    Other,
}

impl View for Reading {
    type V = ReadingView;

    open spec fn view(&self) -> ReadingView {
        match self {
            Reading::VoltageInput(value) => ReadingView::VoltageInput(optional_number(*value)),
            Reading::FanInput(value) => ReadingView::FanInput(optional_number(*value)),
            Reading::TemperatureInput(value) => ReadingView::TemperatureInput(
                optional_number(*value),
            ),
            Reading::PowerInput(value) => ReadingView::PowerInput(optional_number(*value)),
            Reading::EnergyInput(value) => ReadingView::EnergyInput(optional_number(*value)),
            Reading::CurrentInput(value) => ReadingView::CurrentInput(optional_number(*value)),
            Reading::HumidityInput(value) => ReadingView::HumidityInput(optional_number(*value)),
            Reading::Other => ReadingView::Other,
        }
    }
}

/// One feature of a chip, as it was read.
#[derive(Debug)]
pub struct Feature {
    /// What the feature measures, where the chip tells.
    pub kind: Option<Kind>,
    /// The label of the feature, where it could be read.
    pub label: Option<String>,
    /// The values of the sub-features, in order; nothing for one that could
    /// not be read.
    pub sub_features: Vec<Option<Reading>>,
}

/// A `Feature`, as plain values.
pub struct FeatureView {
    pub kind: Option<Kind>,
    pub label: Option<Seq<char>>,
    pub sub_features: Seq<Option<ReadingView>>,
}

/// The view of a reading that may be missing.
pub open spec fn optional_reading(reading: Option<Reading>) -> Option<ReadingView> {
    match reading {
        Some(inner) => Some(inner@),
        None => None,
    }
}

impl View for Feature {
    type V = FeatureView;

    open spec fn view(&self) -> FeatureView {
        FeatureView {
            kind: self.kind,
            label: optional_text(self.label),
            sub_features: self.sub_features@.map_values(
                |reading: Option<Reading>| optional_reading(reading),
            ),
        }
    }
}

/// One sensor chip, as it was read.
#[derive(Debug)]
pub struct Chip {
    /// The name of the chip, or why it could not be read.
    pub name: Result<String, String>,
    /// The features of the chip, in order.
    pub features: Vec<Feature>,
}

/// A `Chip`, as plain values.
pub struct ChipView {
    pub name: Result<Seq<char>, Seq<char>>,
    pub features: Seq<FeatureView>,
}

/// The text of a name that may have failed to be read.
pub open spec fn name_text(name: Result<String, String>) -> Result<Seq<char>, Seq<char>> {
    match name {
        Ok(text) => Ok(text@),
        Err(message) => Err(message@),
    }
}

impl View for Chip {
    type V = ChipView;

    open spec fn view(&self) -> ChipView {
        ChipView {
            name: name_text(self.name),
            features: self.features@.map_values(|feature: Feature| feature@),
        }
    }
}

/// The sensor chips of the machine, as they were last read.
#[derive(Debug)]
pub struct SensorsImpl {
    pub sensors: Vec<Chip>,
}

impl View for SensorsImpl {
    type V = Seq<ChipView>;

    open spec fn view(&self) -> Seq<ChipView> {
        self.sensors@.map_values(|chip: Chip| chip@)
    }
}

/// The identifier of the feature labelled `label` of the chip `chip`, which
/// is its metric key too: `{chip}_{label}` with dashes for spaces. A feature
/// whose label could not be read goes by `unknown`.
pub open spec fn sensor_id(chip: Seq<char>, label: Option<Seq<char>>) -> Seq<char> {
    sanitized(
        chip + "_"@ + (match label {
            Some(text) => text,
            None => "unknown"@,
        }),
    )
}

/// What the hub is told of a feature of kind `kind`: its device class, its
/// unit and its icon. Kinds that measure nothing are not announced.
pub open spec fn kind_metadata(kind: Kind) -> Option<(Seq<char>, Seq<char>, Seq<char>)> {
    match kind {
        Kind::Voltage => Some(("voltage"@, "V"@, "mdi:flash"@)),
        Kind::Fan => Some(("fan"@, "RPM"@, "mdi:fan"@)),
        Kind::Temperature => Some(("temperature"@, "°C"@, "mdi:thermometer"@)),
        Kind::Power => Some(("power"@, "W"@, "mdi:flash"@)),
        Kind::Energy => Some(("energy"@, "kWh"@, "mdi:flash"@)),
        Kind::Current => Some(("current"@, "A"@, "mdi:flash"@)),
        Kind::Humidity => Some(("humidity"@, "%"@, "mdi:water-percent"@)),
        _ => None,
    }
}

/// The entity that announces the feature `id` of kind `kind`, if that kind
/// is announced.
pub open spec fn kind_entity(kind: Kind, id: Seq<char>) -> Option<EntityView> {
    match kind_metadata(kind) {
        Some((class, unit, icon)) => Some(
            sensor(id, Some(class), Some("measurement"@), Some(unit), Some(icon)),
        ),
        None => None,
    }
}

/// The run `run` after `feature` of the chip named `chip` was looked at. A
/// feature of no kind is passed over. Of any other the chip's name is
/// needed: where it could not be read the run stops. A feature whose kind is
/// announced is then asked for.
pub open spec fn register_feature(
    run: Registration,
    chip: Result<Seq<char>, Seq<char>>,
    feature: FeatureView,
) -> Registration {
    if run.failure is Some {
        run
    } else {
        match feature.kind {
            None => run,
            Some(kind) => match chip {
                Err(message) => Registration {
                    failure: Some(RegistrationErrorView::ChipName(message)),
                    ..run
                },
                Ok(name) => match kind_entity(kind, sensor_id(name, feature.label)) {
                    Some(entity) => request(run, entity),
                    None => run,
                },
            },
        }
    }
}

/// The run `run` after each of `features` of the chip named `chip` was looked
/// at, in order.
pub open spec fn register_features(
    run: Registration,
    chip: Result<Seq<char>, Seq<char>>,
    features: Seq<FeatureView>,
) -> Registration
    decreases features.len(),
{
    if features.len() == 0 {
        run
    } else {
        register_features(
            register_feature(run, chip, features.first()),
            chip,
            features.drop_first(),
        )
    }
}

/// The run `run` after each of `chips` was looked at, in order.
pub open spec fn register_chips(run: Registration, chips: Seq<ChipView>) -> Registration
    decreases chips.len(),
{
    if chips.len() == 0 {
        run
    } else {
        register_chips(
            register_features(run, chips.first().name, chips.first().features),
            chips.drop_first(),
        )
    }
}

/// A run that has stopped stays as it is, whatever features are looked at.
pub proof fn lemma_register_features_stopped(
    run: Registration,
    chip: Result<Seq<char>, Seq<char>>,
    features: Seq<FeatureView>,
)
    requires
        run.failure is Some,
    ensures
        register_features(run, chip, features) == run,
    decreases features.len(),
{
    if features.len() > 0 {
        lemma_register_features_stopped(run, chip, features.drop_first());
    }
}

/// A run that has stopped stays as it is, whatever chips are looked at.
pub proof fn lemma_register_chips_stopped(run: Registration, chips: Seq<ChipView>)
    requires
        run.failure is Some,
    ensures
        register_chips(run, chips) == run,
    decreases chips.len(),
{
    if chips.len() > 0 {
        lemma_register_features_stopped(run, chips.first().name, chips.first().features);
        lemma_register_chips_stopped(run, chips.drop_first());
    }
}

/// The number that a feature of kind `kind` reports from `reading`: the
/// measurement of its own kind, where it is a number, and nothing else.
pub open spec fn measured(kind: Kind, reading: Option<ReadingView>) -> Option<Seq<char>> {
    match (kind, reading) {
        (Kind::Voltage, Some(ReadingView::VoltageInput(value))) => value,
        (Kind::Fan, Some(ReadingView::FanInput(value))) => value,
        (Kind::Temperature, Some(ReadingView::TemperatureInput(value))) => value,
        (Kind::Power, Some(ReadingView::PowerInput(value))) => value,
        (Kind::Energy, Some(ReadingView::EnergyInput(value))) => value,
        (Kind::Current, Some(ReadingView::CurrentInput(value))) => value,
        (Kind::Humidity, Some(ReadingView::HumidityInput(value))) => value,
        _ => None,
    }
}

/// `entries` after the measurements among `readings` were given to `key`,
/// one after the other: the last of them stays.
pub open spec fn collect_readings(
    entries: Seq<(Seq<char>, MetricView)>,
    key: Seq<char>,
    kind: Kind,
    readings: Seq<Option<ReadingView>>,
) -> Seq<(Seq<char>, MetricView)>
    decreases readings.len(),
{
    if readings.len() == 0 {
        entries
    } else {
        collect_readings(
            noted(entries, key, measured(kind, readings.first())),
            key,
            kind,
            readings.drop_first(),
        )
    }
}

/// `entries` after `feature` of the chip named `chip` was collected. A
/// feature of no kind, or of a chip without a readable name, reports
/// nothing.
pub open spec fn collect_feature(
    entries: Seq<(Seq<char>, MetricView)>,
    chip: Result<Seq<char>, Seq<char>>,
    feature: FeatureView,
) -> Seq<(Seq<char>, MetricView)> {
    match (feature.kind, chip) {
        (Some(kind), Ok(name)) => collect_readings(
            entries,
            sensor_id(name, feature.label),
            kind,
            feature.sub_features,
        ),
        _ => entries,
    }
}

/// `entries` after each of `features` of the chip named `chip` was
/// collected, in order.
pub open spec fn collect_features(
    entries: Seq<(Seq<char>, MetricView)>,
    chip: Result<Seq<char>, Seq<char>>,
    features: Seq<FeatureView>,
) -> Seq<(Seq<char>, MetricView)>
    decreases features.len(),
{
    if features.len() == 0 {
        entries
    } else {
        collect_features(
            collect_feature(entries, chip, features.first()),
            chip,
            features.drop_first(),
        )
    }
}

/// `entries` after each of `chips` was collected, in order.
pub open spec fn collect_chips(
    entries: Seq<(Seq<char>, MetricView)>,
    chips: Seq<ChipView>,
) -> Seq<(Seq<char>, MetricView)>
    decreases chips.len(),
{
    if chips.len() == 0 {
        entries
    } else {
        collect_chips(
            collect_features(entries, chips.first().name, chips.first().features),
            chips.drop_first(),
        )
    }
}

/// How a registration ended, as a run tells it.
pub open spec fn ended(result: Result<(), RegistrationError>) -> Option<RegistrationErrorView> {
    match result {
        Ok(()) => None,
        Err(error) => Some(error@),
    }
}

fn metadata(kind: Kind) -> (found: Option<(&'static str, &'static str, &'static str)>)
    ensures
        match found {
            Some((class, unit, icon)) => kind_metadata(kind) == Some((class@, unit@, icon@)),
            None => kind_metadata(kind) is None,
        },
{
    match kind {
        Kind::Voltage => Some(("voltage", "V", "mdi:flash")),
        Kind::Fan => Some(("fan", "RPM", "mdi:fan")),
        Kind::Temperature => Some(("temperature", "°C", "mdi:thermometer")),
        Kind::Power => Some(("power", "W", "mdi:flash")),
        Kind::Energy => Some(("energy", "kWh", "mdi:flash")),
        Kind::Current => Some(("current", "A", "mdi:flash")),
        Kind::Humidity => Some(("humidity", "%", "mdi:water-percent")),
        _ => None,
    }
}

fn sensor_id_of(chip: &str, label: &Option<String>) -> (id: String)
    ensures
        id@ == sensor_id(chip@, optional_text(*label)),
{
    let mut name = String::from_str(chip);
    name.append("_");
    match label {
        Some(text) => name.append(text.as_str()),
        None => name.append("unknown"),
    }
    sanitize_sensor_name(name)
}

fn measurement(kind: Kind, reading: &Option<Reading>) -> (value: Option<&JsonNumber>)
    ensures
        match value {
            Some(found) => measured(kind, optional_reading(*reading)) == Some(found@),
            None => measured(kind, optional_reading(*reading)) is None,
        },
{
    match (kind, reading) {
        (Kind::Voltage, Some(Reading::VoltageInput(Some(value)))) => Some(value),
        (Kind::Fan, Some(Reading::FanInput(Some(value)))) => Some(value),
        (Kind::Temperature, Some(Reading::TemperatureInput(Some(value)))) => Some(value),
        (Kind::Power, Some(Reading::PowerInput(Some(value)))) => Some(value),
        (Kind::Energy, Some(Reading::EnergyInput(Some(value)))) => Some(value),
        (Kind::Current, Some(Reading::CurrentInput(Some(value)))) => Some(value),
        (Kind::Humidity, Some(Reading::HumidityInput(Some(value)))) => Some(value),
        _ => None,
    }
}

fn collect_one(stats: &mut Stats, chip: &Result<String, String>, feature: &Feature)
    requires
        distinct_keys(old(stats)@),
    ensures
        distinct_keys(final(stats)@),
        final(stats)@ == collect_feature(old(stats)@, name_text(*chip), feature@),
{
    let kind = match feature.kind {
        Some(kind) => kind,
        None => {
            return ;
        },
    };
    let name = match chip {
        Ok(name) => name,
        Err(_) => {
            return ;
        },
    };
    let key = sensor_id_of(name.as_str(), &feature.label);
    let ghost readings = feature@.sub_features;
    proof {
        assert(readings.skip(0) == readings);
    }
    let mut i: usize = 0;
    while i < feature.sub_features.len()
        invariant
            i <= feature.sub_features.len(),
            distinct_keys(stats@),
            readings == feature@.sub_features,
            collect_readings(old(stats)@, key@, kind, readings) == collect_readings(
                stats@,
                key@,
                kind,
                readings.skip(i as int),
            ),
        decreases feature.sub_features.len() - i,
    {
        proof {
            assert(readings.skip(i as int).first() == optional_reading(
                feature.sub_features@[i as int],
            ));
            assert(readings.skip(i as int).drop_first() == readings.skip(i + 1));
        }
        match measurement(kind, &feature.sub_features[i]) {
            Some(value) => {
                stats.insert(key.clone(), MetricValue::Number(value.clone()));
            },
            None => {},
        }
        i += 1;
    }
}

fn collect_chip(stats: &mut Stats, chip: &Chip)
    requires
        distinct_keys(old(stats)@),
    ensures
        distinct_keys(final(stats)@),
        final(stats)@ == collect_features(old(stats)@, chip@.name, chip@.features),
{
    let ghost features = chip@.features;
    proof {
        assert(features.skip(0) == features);
    }
    let mut i: usize = 0;
    while i < chip.features.len()
        invariant
            i <= chip.features.len(),
            distinct_keys(stats@),
            features == chip@.features,
            collect_features(old(stats)@, chip@.name, features) == collect_features(
                stats@,
                chip@.name,
                features.skip(i as int),
            ),
        decreases chip.features.len() - i,
    {
        proof {
            assert(features.skip(i as int).first() == chip.features@[i as int]@);
            assert(features.skip(i as int).drop_first() == features.skip(i + 1));
        }
        collect_one(stats, &chip.name, &chip.features[i]);
        i += 1;
    }
}

fn register_one(
    home_assistant: &mut HomeAssistant,
    chip: &Result<String, String>,
    feature: &Feature,
) -> (result: Result<(), RegistrationError>)
    requires
        old(home_assistant).wf(),
    ensures
        final(home_assistant).wf(),
        final(home_assistant).device_id() == old(home_assistant).device_id(),
        (Registration { registered: final(home_assistant).registered(), failure: ended(result) })
            == register_feature(
            Registration { registered: old(home_assistant).registered(), failure: None },
            name_text(*chip),
            feature@,
        ),
{
    let kind = match feature.kind {
        Some(kind) => kind,
        None => {
            return Ok(());
        },
    };
    let name = match chip {
        Ok(name) => name,
        Err(message) => {
            return Err(RegistrationError::ChipName(message.clone()));
        },
    };
    let id = sensor_id_of(name.as_str(), &feature.label);
    match metadata(kind) {
        Some((class, unit, icon)) => {
            let builder = EntityRegistrationBuilder::new("sensor", id.as_str()).device_class(
                class,
            ).state_class("measurement").unit_of_measurement(unit).icon(icon);
            match home_assistant.register_entity_with_builder(builder) {
                Ok(()) => Ok(()),
                Err(error) => Err(RegistrationError::Validation(error)),
            }
        },
        None => Ok(()),
    }
}

fn register_chip(home_assistant: &mut HomeAssistant, chip: &Chip) -> (result: Result<
    (),
    RegistrationError,
>)
    requires
        old(home_assistant).wf(),
    ensures
        final(home_assistant).wf(),
        final(home_assistant).device_id() == old(home_assistant).device_id(),
        (Registration { registered: final(home_assistant).registered(), failure: ended(result) })
            == register_features(
            Registration { registered: old(home_assistant).registered(), failure: None },
            chip@.name,
            chip@.features,
        ),
{
    let ghost start = Registration { registered: home_assistant.registered(), failure: None };
    let ghost features = chip@.features;
    proof {
        assert(features.skip(0) == features);
    }
    let mut i: usize = 0;
    while i < chip.features.len()
        invariant
            i <= chip.features.len(),
            home_assistant.wf(),
            home_assistant.device_id() == old(home_assistant).device_id(),
            features == chip@.features,
            start == (Registration { registered: old(home_assistant).registered(), failure: None }),
            register_features(start, chip@.name, features) == register_features(
                Registration { registered: home_assistant.registered(), failure: None },
                chip@.name,
                features.skip(i as int),
            ),
        decreases chip.features.len() - i,
    {
        proof {
            assert(features.skip(i as int).first() == chip.features@[i as int]@);
            assert(features.skip(i as int).drop_first() == features.skip(i + 1));
        }
        let ghost before = Registration { registered: home_assistant.registered(), failure: None };
        match register_one(home_assistant, &chip.name, &chip.features[i]) {
            Ok(()) => {},
            Err(error) => {
                proof {
                    lemma_register_features_stopped(
                        register_feature(before, chip@.name, features[i as int]),
                        chip@.name,
                        features.skip(i + 1),
                    );
                }
                return Err(error);
            },
        }
        i += 1;
    }
    Ok(())
}

impl SensorsImpl {
    /// The chips `sensors`, as they were read.
    pub fn new(sensors: Vec<Chip>) -> (chips: Self)
        ensures
            chips.sensors == sensors,
    {
        SensorsImpl { sensors }
    }

    /// Puts the measurements of the chips into `stats`, each under the
    /// identifier of its feature. A chip without a readable name reports
    /// nothing, and the others are collected all the same.
    pub fn collect_values(&self, stats: &mut Stats)
        requires
            distinct_keys(old(stats)@),
        ensures
            distinct_keys(final(stats)@),
            final(stats)@ == collect_chips(old(stats)@, self@),
    {
        let ghost chips = self@;
        proof {
            assert(chips.skip(0) == chips);
        }
        let mut i: usize = 0;
        while i < self.sensors.len()
            invariant
                i <= self.sensors.len(),
                distinct_keys(stats@),
                chips == self@,
                collect_chips(old(stats)@, chips) == collect_chips(stats@, chips.skip(i as int)),
            decreases self.sensors.len() - i,
        {
            proof {
                assert(chips.skip(i as int).first() == self.sensors@[i as int]@);
                assert(chips.skip(i as int).drop_first() == chips.skip(i + 1));
            }
            collect_chip(stats, &self.sensors[i]);
            i += 1;
        }
    }

    /// Registers an entity for each feature whose kind is announced, chip by
    /// chip and feature by feature, up to the first that is refused or whose
    /// chip has no readable name.
    pub fn register_sensors(&self, home_assistant: &mut HomeAssistant) -> (result: Result<
        (),
        RegistrationError,
    >)
        requires
            old(home_assistant).wf(),
        ensures
            final(home_assistant).wf(),
            final(home_assistant).device_id() == old(home_assistant).device_id(),
            (Registration {
                registered: final(home_assistant).registered(),
                failure: ended(result),
            }) == register_chips(
                Registration { registered: old(home_assistant).registered(), failure: None },
                self@,
            ),
    {
        let ghost start = Registration { registered: home_assistant.registered(), failure: None };
        let ghost chips = self@;
        proof {
            assert(chips.skip(0) == chips);
        }
        let mut i: usize = 0;
        while i < self.sensors.len()
            invariant
                i <= self.sensors.len(),
                home_assistant.wf(),
                home_assistant.device_id() == old(home_assistant).device_id(),
                chips == self@,
                start == (Registration {
                    registered: old(home_assistant).registered(),
                    failure: None,
                }),
                register_chips(start, chips) == register_chips(
                    Registration { registered: home_assistant.registered(), failure: None },
                    chips.skip(i as int),
                ),
            decreases self.sensors.len() - i,
        {
            proof {
                assert(chips.skip(i as int).first() == self.sensors@[i as int]@);
                assert(chips.skip(i as int).drop_first() == chips.skip(i + 1));
            }
            let ghost before = Registration {
                registered: home_assistant.registered(),
                failure: None,
            };
            match register_chip(home_assistant, &self.sensors[i]) {
                Ok(()) => {},
                Err(error) => {
                    proof {
                        let chip = chips[i as int];
                        lemma_register_chips_stopped(
                            register_features(before, chip.name, chip.features),
                            chips.skip(i + 1),
                        );
                    }
                    return Err(error);
                },
            }
            i += 1;
        }
        Ok(())
    }
}

} // verus!
