//! The entities that every machine has: availability, uptime, processor,
//! memory, swap, battery and the configured drives.

use vstd::prelude::*;
use vstd::string::StringExecFns;
use crate::config::{Config, DriveConfig};
use crate::error::{RegistrationErrorView, ValidationError};
use crate::home_assistant::{
    descriptors, requests, EntityRegistrationBuilder, EntityView, HomeAssistant, Registration,
};
use crate::lm_sensors_impl::{collect_chips, SensorsImpl};
use crate::nvidia_gpu::{collect_gpus, gpu_views, GpuInfo, NvidiaGpuSensors};
use crate::number::JsonNumber;
use crate::stats::{
    distinct_keys, has_key, inserted, lemma_keys_stay, noted, optional_number, MetricValue,
    MetricView, Stats,
};

verus! {

/// An entity of the platform `sensor`.
pub open spec fn sensor(
    entity_id: Seq<char>,
    device_class: Option<Seq<char>>,
    state_class: Option<Seq<char>>,
    unit_of_measurement: Option<Seq<char>>,
    icon: Option<Seq<char>>,
) -> EntityView {
    EntityView {
        platform: "sensor"@,
        entity_id,
        device_class,
        state_class,
        unit_of_measurement,
        icon,
    }
}

/// A share of a whole that is measured again and again, in percent.
pub open spec fn percentage(entity_id: Seq<char>) -> EntityView {
    sensor(entity_id, None, Some("measurement"@), Some("%"@), Some("mdi:gauge"@))
}

/// The entities that do not depend on the settings, in the order in which
/// they are registered.
pub open spec fn fixed_entities() -> Seq<EntityView> {
    seq![
        sensor("available"@, None, None, None, Some("mdi:check-network-outline"@)),
        sensor("uptime"@, None, None, Some("days"@), Some("mdi:timer-sand"@)),
        percentage("cpu"@),
        percentage("memory"@),
        percentage("swap"@),
        sensor(
            "battery_level"@,
            Some("battery"@),
            Some("measurement"@),
            Some("%"@),
            Some("mdi:battery"@),
        ),
        sensor("battery_state"@, None, None, None, Some("mdi:battery"@)),
    ]
}

/// The entity that reports the usage of the drive named `name`.
pub open spec fn drive_entity(name: Seq<char>) -> EntityView {
    sensor(name, None, Some("total"@), Some("%"@), Some("mdi:folder"@))
}

/// The entities of `drives`, in order.
pub open spec fn drive_entities(drives: Seq<DriveConfig>) -> Seq<EntityView> {
    drives.map_values(|drive: DriveConfig| drive_entity(drive.name@))
}

/// The entities that every machine has and those of `drives`, in the order
/// in which they are registered.
pub open spec fn system_entities(drives: Seq<DriveConfig>) -> Seq<EntityView> {
    fixed_entities() + drive_entities(drives)
}

/// Registers the entities that every machine has, and one for each drive of
/// `config`, in this order and up to the first that is refused.
pub fn register_system_sensors(home_assistant: &mut HomeAssistant, config: &Config) -> (result:
    Result<(), ValidationError>)
    requires
        old(home_assistant).wf(),
    ensures
        final(home_assistant).wf(),
        final(home_assistant).device_id() == old(home_assistant).device_id(),
        ({
            let run = requests(
                Registration { registered: old(home_assistant).registered(), failure: None },
                system_entities(config.drives@),
            );
            &&& final(home_assistant).registered() == run.registered
            &&& match result {
                Ok(()) => run.failure is None,
                Err(error) => run.failure == Some(RegistrationErrorView::Validation(error@)),
            }
        }),
{
    let mut builders: Vec<EntityRegistrationBuilder<'_>> = Vec::new();
    builders.push(
        EntityRegistrationBuilder::new("sensor", "available").icon("mdi:check-network-outline"),
    );
    builders.push(
        EntityRegistrationBuilder::new("sensor", "uptime").unit_of_measurement("days").icon(
            "mdi:timer-sand",
        ),
    );
    builders.push(
        EntityRegistrationBuilder::new("sensor", "cpu").state_class(
            "measurement",
        ).unit_of_measurement("%").icon("mdi:gauge"),
    );
    builders.push(
        EntityRegistrationBuilder::new("sensor", "memory").state_class(
            "measurement",
        ).unit_of_measurement("%").icon("mdi:gauge"),
    );
    builders.push(
        EntityRegistrationBuilder::new("sensor", "swap").state_class(
            "measurement",
        ).unit_of_measurement("%").icon("mdi:gauge"),
    );
    builders.push(
        EntityRegistrationBuilder::new("sensor", "battery_level").device_class(
            "battery",
        ).state_class("measurement").unit_of_measurement("%").icon("mdi:battery"),
    );
    builders.push(EntityRegistrationBuilder::new("sensor", "battery_state").icon("mdi:battery"));
    proof {
        assert(descriptors(builders@) =~= fixed_entities());
    }
    let mut i: usize = 0;
    while i < config.drives.len()
        invariant
            i <= config.drives.len(),
            descriptors(builders@) == fixed_entities() + drive_entities(config.drives@).take(
                i as int,
            ),
        decreases config.drives.len() - i,
    {
        let builder = EntityRegistrationBuilder::new(
            "sensor",
            config.drives[i].name.as_str(),
        ).state_class("total").unit_of_measurement("%").icon("mdi:folder");
        proof {
            assert(builder@ == drive_entity(config.drives@[i as int].name@));
            assert(drive_entities(config.drives@)[i as int] == builder@);
        }
        let ghost before = descriptors(builders@);
        builders.push(builder);
        proof {
            assert(descriptors(builders@) =~= before.push(builder@));
            assert(drive_entities(config.drives@).take(i + 1) =~= drive_entities(
                config.drives@,
            ).take(i as int).push(builder@));
            assert(descriptors(builders@) =~= fixed_entities() + drive_entities(
                config.drives@,
            ).take(i + 1));
        }
        i += 1;
    }
    proof {
        assert(drive_entities(config.drives@).take(config.drives.len() as int)
            == drive_entities(config.drives@));
    }
    home_assistant.register_all(&builders)
}

/// What a battery is doing.
#[derive(Clone, Copy, Debug, PartialEq, Eq, Structural)]
pub enum BatteryState {
    Charging,
    Discharging,
    Empty,
    Full,
    Unknown,
}

/// The first battery of the machine, as it was read.
#[derive(Debug)]
pub struct BatteryReading {
    pub state: BatteryState,
    /// The energy held, as a share of the energy that the battery holds when
    /// full; nothing where what was read is no number.
    pub level: Option<JsonNumber>,
}

/// One mounted drive, as it was read.
#[derive(Debug)]
pub struct DiskReading {
    pub mount_point: String,
    /// The space in use, in percent; nothing where what was read is no
    /// number.
    pub usage: Option<JsonNumber>,
}

/// The machine, as it was read in one sampling round. A quantity holds
/// nothing where what was read is no number.
#[derive(Debug)]
pub struct SystemReadings {
    /// The time since the machine started, in days.
    pub uptime: Option<JsonNumber>,
    /// The load of the processors, in percent.
    pub cpu: Option<JsonNumber>,
    /// The memory in use, in percent.
    pub memory: Option<JsonNumber>,
    /// The swap space in use, in percent.
    pub swap: Option<JsonNumber>,
    /// The mounted drives, in the order in which the system lists them.
    pub disks: Vec<DiskReading>,
    /// The first battery, if there is one.
    pub battery: Option<BatteryReading>,
}

/// A `DiskReading`, as plain values.
pub struct DiskReadingView {
    pub mount_point: Seq<char>,
    pub usage: Option<Seq<char>>,
}

impl View for DiskReading {
    type V = DiskReadingView;

    open spec fn view(&self) -> DiskReadingView {
        DiskReadingView {
            mount_point: self.mount_point@,
            usage: optional_number(self.usage),
        }
    }
}

/// A `BatteryReading`, as plain values.
pub struct BatteryReadingView {
    pub state: BatteryState,
    pub level: Option<Seq<char>>,
}

impl View for BatteryReading {
    type V = BatteryReadingView;

    open spec fn view(&self) -> BatteryReadingView {
        BatteryReadingView { state: self.state, level: optional_number(self.level) }
    }
}

/// A `SystemReadings`, as plain values.
pub struct SystemReadingsView {
    pub uptime: Option<Seq<char>>,
    pub cpu: Option<Seq<char>>,
    pub memory: Option<Seq<char>>,
    pub swap: Option<Seq<char>>,
    pub disks: Seq<DiskReadingView>,
    pub battery: Option<BatteryReadingView>,
}

impl View for SystemReadings {
    type V = SystemReadingsView;

    open spec fn view(&self) -> SystemReadingsView {
        SystemReadingsView {
            uptime: optional_number(self.uptime),
            cpu: optional_number(self.cpu),
            memory: optional_number(self.memory),
            swap: optional_number(self.swap),
            disks: self.disks@.map_values(|disk: DiskReading| disk@),
            battery: match self.battery {
                Some(battery) => Some(battery@),
                None => None,
            },
        }
    }
}

/// The word that is reported for a battery state.
pub open spec fn battery_state_label(state: BatteryState) -> Seq<char> {
    match state {
        BatteryState::Charging => "charging"@,
        BatteryState::Discharging => "discharging"@,
        BatteryState::Empty => "empty"@,
        BatteryState::Full => "full"@,
        BatteryState::Unknown => "unknown"@,
    }
}

/// The name under which the drive mounted at `mount_point` is reported: that
/// of the last of `drives` with this very path, if there is one.
pub open spec fn drive_name(drives: Seq<DriveConfig>, mount_point: Seq<char>) -> Option<Seq<char>>
    decreases drives.len(),
{
    if drives.len() == 0 {
        None
    } else if drives.last().path@ == mount_point {
        Some(drives.last().name@)
    } else {
        drive_name(drives.drop_last(), mount_point)
    }
}

/// `entries` after the usage of each of `disks` that `drives` names was put
/// in, in order.
pub open spec fn collect_disks(
    entries: Seq<(Seq<char>, MetricView)>,
    drives: Seq<DriveConfig>,
    disks: Seq<DiskReadingView>,
) -> Seq<(Seq<char>, MetricView)>
    decreases disks.len(),
{
    if disks.len() == 0 {
        entries
    } else {
        collect_disks(
            match drive_name(drives, disks.first().mount_point) {
                Some(name) => noted(entries, name, disks.first().usage),
                None => entries,
            },
            drives,
            disks.drop_first(),
        )
    }
}

/// `entries` after the state and the level of `battery` were put in, if
/// there is a battery.
pub open spec fn collect_battery(
    entries: Seq<(Seq<char>, MetricView)>,
    battery: Option<BatteryReadingView>,
) -> Seq<(Seq<char>, MetricView)> {
    match battery {
        Some(reading) => noted(
            inserted(
                entries,
                "battery_state"@,
                MetricView::Text(battery_state_label(reading.state)),
            ),
            "battery_level"@,
            reading.level,
        ),
        None => entries,
    }
}

/// The metrics of the machine itself: that it is there, which a machine
/// that is sampled is; uptime, processor, memory and swap; then the named
/// drives; then the battery.
pub open spec fn machine_stats(readings: SystemReadingsView, drives: Seq<DriveConfig>) -> Seq<
    (Seq<char>, MetricView),
> {
    collect_battery(
        collect_disks(
            noted(
                noted(
                    noted(
                        noted(
                            inserted(Seq::empty(), "available"@, MetricView::Text("online"@)),
                            "uptime"@,
                            readings.uptime,
                        ),
                        "cpu"@,
                        readings.cpu,
                    ),
                    "memory"@,
                    readings.memory,
                ),
                "swap"@,
                readings.swap,
            ),
            drives,
            readings.disks,
        ),
        readings.battery,
    )
}

/// A key that has a value keeps having one when a reading is noted.
pub proof fn lemma_noted_keeps(
    entries: Seq<(Seq<char>, MetricView)>,
    key: Seq<char>,
    number: Option<Seq<char>>,
    other: Seq<char>,
)
    requires
        distinct_keys(entries),
        has_key(entries, other),
    ensures
        distinct_keys(noted(entries, key, number)),
        has_key(noted(entries, key, number), other),
{
    if let Some(text) = number {
        lemma_keys_stay(entries, key, MetricView::Number(text), other);
    }
}

/// A key that has a value keeps having one when the drives are collected.
pub proof fn lemma_disks_keep(
    entries: Seq<(Seq<char>, MetricView)>,
    drives: Seq<DriveConfig>,
    disks: Seq<DiskReadingView>,
    other: Seq<char>,
)
    requires
        distinct_keys(entries),
        has_key(entries, other),
    ensures
        distinct_keys(collect_disks(entries, drives, disks)),
        has_key(collect_disks(entries, drives, disks), other),
    decreases disks.len(),
{
    if disks.len() > 0 {
        let next = match drive_name(drives, disks.first().mount_point) {
            Some(name) => noted(entries, name, disks.first().usage),
            None => entries,
        };
        if let Some(name) = drive_name(drives, disks.first().mount_point) {
            lemma_noted_keeps(entries, name, disks.first().usage, other);
        }
        lemma_disks_keep(next, drives, disks.drop_first(), other);
    }
}

/// The entity that says that the machine is there finds its value in every
/// sampling round, whatever was read.
pub proof fn lemma_available_has_value(readings: SystemReadingsView, drives: Seq<DriveConfig>)
    ensures
        has_key(machine_stats(readings, drives), "available"@),
        distinct_keys(machine_stats(readings, drives)),
{
    let key = "available"@;
    let empty = Seq::<(Seq<char>, MetricView)>::empty();
    let first = inserted(empty, key, MetricView::Text("online"@));
    lemma_keys_stay(empty, key, MetricView::Text("online"@), key);
    let second = noted(first, "uptime"@, readings.uptime);
    lemma_noted_keeps(first, "uptime"@, readings.uptime, key);
    let third = noted(second, "cpu"@, readings.cpu);
    lemma_noted_keeps(second, "cpu"@, readings.cpu, key);
    let fourth = noted(third, "memory"@, readings.memory);
    lemma_noted_keeps(third, "memory"@, readings.memory, key);
    let fifth = noted(fourth, "swap"@, readings.swap);
    lemma_noted_keeps(fourth, "swap"@, readings.swap, key);
    let sixth = collect_disks(fifth, drives, readings.disks);
    lemma_disks_keep(fifth, drives, readings.disks, key);
    if let Some(battery) = readings.battery {
        let state = inserted(
            sixth,
            "battery_state"@,
            MetricView::Text(battery_state_label(battery.state)),
        );
        lemma_keys_stay(
            sixth,
            "battery_state"@,
            MetricView::Text(battery_state_label(battery.state)),
            key,
        );
        lemma_noted_keeps(state, "battery_level"@, battery.level, key);
    }
}

fn find_drive<'a>(drives: &'a Vec<DriveConfig>, mount_point: &String) -> (name: Option<&'a String>)
    ensures
        match name {
            Some(found) => drive_name(drives@, mount_point@) == Some(found@),
            None => drive_name(drives@, mount_point@) is None,
        },
{
    let mut i = drives.len();
    proof {
        assert(drives@.take(i as int) == drives@);
    }
    while i > 0
        invariant
            i <= drives.len(),
            drive_name(drives@, mount_point@) == drive_name(drives@.take(i as int), mount_point@),
        decreases i,
    {
        proof {
            assert(drives@.take(i as int).drop_last() == drives@.take(i - 1));
        }
        if drives[i - 1].path == *mount_point {
            return Some(&drives[i - 1].name);
        }
        i -= 1;
    }
    None
}

fn battery_state_word(state: BatteryState) -> (word: &'static str)
    ensures
        word@ == battery_state_label(state),
{
    match state {
        BatteryState::Charging => "charging",
        BatteryState::Discharging => "discharging",
        BatteryState::Empty => "empty",
        BatteryState::Full => "full",
        BatteryState::Unknown => "unknown",
    }
}

/// Gathers the metrics of one sampling round: those of the machine itself,
/// then those of the sensor chips, then those of the graphics processors.
pub fn collect_system_stats(
    readings: &SystemReadings,
    drive_list: &Vec<DriveConfig>,
    sensors: &SensorsImpl,
    gpu_sensors: &NvidiaGpuSensors,
    gpu_info: &Vec<GpuInfo>,
) -> (stats: Stats)
    ensures
        distinct_keys(stats@),
        stats@ == ({
            let chips = collect_chips(machine_stats(readings@, drive_list@), sensors@);
            if gpu_sensors.available() {
                collect_gpus(chips, gpu_views(gpu_info@))
            } else {
                chips
            }
        }),
{
    let mut stats = Stats::new();
    stats.insert(String::from_str("available"), MetricValue::Text(String::from_str("online")));
    stats.note(String::from_str("uptime"), &readings.uptime);
    stats.note(String::from_str("cpu"), &readings.cpu);
    stats.note(String::from_str("memory"), &readings.memory);
    stats.note(String::from_str("swap"), &readings.swap);
    let ghost basics = stats@;
    let ghost disks = readings@.disks;
    proof {
        assert(disks.skip(0) == disks);
    }
    let mut i: usize = 0;
    while i < readings.disks.len()
        invariant
            i <= readings.disks.len(),
            distinct_keys(stats@),
            disks == readings@.disks,
            collect_disks(basics, drive_list@, disks) == collect_disks(
                stats@,
                drive_list@,
                disks.skip(i as int),
            ),
        decreases readings.disks.len() - i,
    {
        proof {
            assert(disks.skip(i as int).first() == readings.disks@[i as int]@);
            assert(disks.skip(i as int).drop_first() == disks.skip(i + 1));
        }
        let disk = &readings.disks[i];
        match find_drive(drive_list, &disk.mount_point) {
            Some(name) => {
                stats.note(name.clone(), &disk.usage);
            },
            None => {},
        }
        i += 1;
    }
    match &readings.battery {
        Some(battery) => {
            stats.insert(
                String::from_str("battery_state"),
                MetricValue::Text(String::from_str(battery_state_word(battery.state))),
            );
            stats.note(String::from_str("battery_level"), &battery.level);
        },
        None => {},
    }
    sensors.collect_values(&mut stats);
    gpu_sensors.collect_values(gpu_info, &mut stats);
    stats
}

} // verus!
