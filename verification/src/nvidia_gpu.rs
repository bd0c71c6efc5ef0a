//! The graphics processors of the machine, as `nvidia-smi` reports them.

use vstd::prelude::*;
use vstd::string::StringExecFns;
use crate::error::{RegistrationErrorView, ValidationError};
use crate::home_assistant::{
    descriptors, lemma_requests_append, lemma_requests_stopped, requests,
    EntityRegistrationBuilder, EntityView, HomeAssistant, Registration,
};
use crate::number::{decimal, decimal_json, is_decimal, JsonNumber};
use crate::stats::{
    distinct_keys, has_key, inserted, lemma_keys_stay, MetricValue, MetricView, Stats,
};
use crate::system_sensors::sensor;
use crate::text::{
    chars_of, fields, parse_u32, parsed_u32, sequences, split, string_of, trim, trimmed,
};
use crate::utils::{sanitize_sensor_name, sanitized};

verus! {

/// One graphics processor, as one line of the report tells of it.
#[derive(Debug)]
pub struct GpuInfo {
    pub index: u32,
    pub name: String,
    /// In degrees Celsius.
    pub temperature: u32,
    /// In percent.
    pub utilization: u32,
    /// In MiB, as the two that follow.
    pub memory_total: u32,
    pub memory_used: u32,
    pub memory_free: u32,
    /// In watts.
    pub power_draw: JsonNumber,
}

/// A `GpuInfo`, as plain values.
pub struct GpuInfoView {
    pub index: u32,
    pub name: Seq<char>,
    pub temperature: u32,
    pub utilization: u32,
    pub memory_total: u32,
    pub memory_used: u32,
    pub memory_free: u32,
    pub power_draw: Seq<char>,
}

impl View for GpuInfo {
    type V = GpuInfoView;

    open spec fn view(&self) -> GpuInfoView {
        GpuInfoView {
            index: self.index,
            name: self.name@,
            temperature: self.temperature,
            utilization: self.utilization,
            memory_total: self.memory_total,
            memory_used: self.memory_used,
            memory_free: self.memory_free,
            power_draw: self.power_draw@,
        }
    }
}

/// The columns of a line of the report: what stands between its commas,
/// without the white space around it.
pub open spec fn columns(line: Seq<char>) -> Seq<Seq<char>> {
    fields(trimmed(line), ',').map_values(|field: Seq<char>| trimmed(field))
}

/// The processor that `line` tells of, if the line is well formed: eight
/// columns, of which the second is the name, the last a decimal number and
/// the others whole numbers.
pub open spec fn gpu_record(line: Seq<char>) -> Option<GpuInfoView> {
    let c = columns(line);
    if c.len() == 8 && parsed_u32(c[0]) is Some && parsed_u32(c[2]) is Some && parsed_u32(
        c[3],
    ) is Some && parsed_u32(c[4]) is Some && parsed_u32(c[5]) is Some && parsed_u32(c[6]) is Some
        && is_decimal(c[7]) {
        Some(
            GpuInfoView {
                index: parsed_u32(c[0])->0,
                name: c[1],
                temperature: parsed_u32(c[2])->0,
                utilization: parsed_u32(c[3])->0,
                memory_total: parsed_u32(c[4])->0,
                memory_used: parsed_u32(c[5])->0,
                memory_free: parsed_u32(c[6])->0,
                power_draw: decimal_json(c[7]),
            },
        )
    } else {
        None
    }
}

/// The processors that the well-formed lines among `lines` tell of, in
/// order. The other lines are passed over.
pub open spec fn gpu_records(lines: Seq<Seq<char>>) -> Seq<GpuInfoView>
    decreases lines.len(),
{
    if lines.len() == 0 {
        Seq::empty()
    } else {
        match gpu_record(lines.last()) {
            Some(record) => gpu_records(lines.drop_last()).push(record),
            None => gpu_records(lines.drop_last()),
        }
    }
}

/// The view of a processor that may be missing.
pub open spec fn optional_gpu(gpu: Option<GpuInfo>) -> Option<GpuInfoView> {
    match gpu {
        Some(inner) => Some(inner@),
        None => None,
    }
}

/// Reads one line of the report.
pub fn parse_gpu_line(line: &str) -> (gpu: Option<GpuInfo>)
    ensures
        optional_gpu(gpu) == gpu_record(line@),
{
    let chars = chars_of(line);
    let parts = split(&trim(&chars), ',');
    let mut trimmed_parts: Vec<Vec<char>> = Vec::new();
    let mut i: usize = 0;
    while i < parts.len()
        invariant
            i <= parts.len(),
            trimmed_parts.len() == i,
            forall|j: int| 0 <= j < i ==> (#[trigger] trimmed_parts@[j])@ == trimmed(parts@[j]@),
        decreases parts.len() - i,
    {
        trimmed_parts.push(trim(&parts[i]));
        i += 1;
    }
    proof {
        assert(sequences(trimmed_parts@) =~= columns(line@));
    }
    if trimmed_parts.len() != 8 {
        return None;
    }
    let index = parse_u32(&trimmed_parts[0]);
    let temperature = parse_u32(&trimmed_parts[2]);
    let utilization = parse_u32(&trimmed_parts[3]);
    let memory_total = parse_u32(&trimmed_parts[4]);
    let memory_used = parse_u32(&trimmed_parts[5]);
    let memory_free = parse_u32(&trimmed_parts[6]);
    let power_draw = JsonNumber::from_decimal(string_of(&trimmed_parts[7]).as_str());
    match (index, temperature, utilization, memory_total, memory_used, memory_free, power_draw) {
        (
            Some(index),
            Some(temperature),
            Some(utilization),
            Some(memory_total),
            Some(memory_used),
            Some(memory_free),
            Some(power_draw),
        ) => Some(
            GpuInfo {
                index,
                name: string_of(&trimmed_parts[1]),
                temperature,
                utilization,
                memory_total,
                memory_used,
                memory_free,
                power_draw,
            },
        ),
        _ => None,
    }
}

/// The views of `gpus`, in order.
pub open spec fn gpu_views(gpus: Seq<GpuInfo>) -> Seq<GpuInfoView> {
    gpus.map_values(|gpu: GpuInfo| gpu@)
}

/// The texts of `lines`, in order.
pub open spec fn line_texts(lines: Seq<String>) -> Seq<Seq<char>> {
    lines.map_values(|line: String| line@)
}

/// Reads the report that `nvidia-smi` printed, line by line. Lines that are
/// not well formed are passed over.
pub fn get_nvidia_gpu_info(lines: &Vec<String>) -> (gpus: Vec<GpuInfo>)
    ensures
        gpu_views(gpus@) == gpu_records(line_texts(lines@)),
{
    let mut gpus: Vec<GpuInfo> = Vec::new();
    let mut i: usize = 0;
    proof {
        assert(gpu_views(gpus@) =~= gpu_records(line_texts(lines@).take(0)));
    }
    while i < lines.len()
        invariant
            i <= lines.len(),
            gpu_views(gpus@) == gpu_records(line_texts(lines@).take(i as int)),
        decreases lines.len() - i,
    {
        proof {
            let all = line_texts(lines@);
            assert(all.take(i + 1).drop_last() == all.take(i as int));
            assert(all.take(i + 1).last() == lines@[i as int]@);
        }
        let ghost before = gpu_views(gpus@);
        match parse_gpu_line(lines[i].as_str()) {
            Some(gpu) => {
                let ghost record = gpu@;
                gpus.push(gpu);
                proof {
                    assert(gpu_views(gpus@) =~= before.push(record));
                }
            },
            None => {},
        }
        i += 1;
    }
    proof {
        assert(line_texts(lines@).take(lines.len() as int) == line_texts(lines@));
    }
    gpus
}

/// The key `gpu_{name}_{quantity}` of a quantity of the processor named
/// `name`, with dashes for the spaces of the name.
pub open spec fn gpu_key(name: Seq<char>, quantity: Seq<char>) -> Seq<char> {
    "gpu_"@ + sanitized(name) + "_"@ + quantity
}

/// The entities of one processor: its temperature, its utilization, the
/// memory in use and the power drawn.
pub open spec fn gpu_entities_of(gpu: GpuInfoView) -> Seq<EntityView> {
    seq![
        sensor(
            gpu_key(gpu.name, "temperature"@),
            None,
            None,
            Some("°C"@),
            Some("mdi:thermometer"@),
        ),
        sensor(gpu_key(gpu.name, "utilization"@), None, None, Some("%"@), Some("mdi:percent"@)),
        sensor(gpu_key(gpu.name, "memory_used"@), None, None, Some("MB"@), Some("mdi:memory"@)),
        sensor(gpu_key(gpu.name, "power_draw"@), None, None, Some("W"@), Some("mdi:flash"@)),
    ]
}

/// The entities of `gpus`, processor by processor.
pub open spec fn gpu_entities(gpus: Seq<GpuInfoView>) -> Seq<EntityView>
    decreases gpus.len(),
{
    if gpus.len() == 0 {
        Seq::empty()
    } else {
        gpu_entities_of(gpus.first()) + gpu_entities(gpus.drop_first())
    }
}

/// `entries` after the values of `gpu` were put in: its temperature, its
/// utilization, the memory in use and the power drawn.
pub open spec fn collect_gpu(
    entries: Seq<(Seq<char>, MetricView)>,
    gpu: GpuInfoView,
) -> Seq<(Seq<char>, MetricView)> {
    inserted(
        inserted(
            inserted(
                inserted(
                    entries,
                    gpu_key(gpu.name, "temperature"@),
                    MetricView::Number(decimal(gpu.temperature as nat)),
                ),
                gpu_key(gpu.name, "utilization"@),
                MetricView::Number(decimal(gpu.utilization as nat)),
            ),
            gpu_key(gpu.name, "memory_used"@),
            MetricView::Number(decimal(gpu.memory_used as nat)),
        ),
        gpu_key(gpu.name, "power_draw"@),
        MetricView::Number(gpu.power_draw),
    )
}

/// Every entity of a processor finds its value: the identifier of each is a
/// key of the metrics once the values of the processor were put in.
pub proof fn lemma_gpu_entities_find_values(
    entries: Seq<(Seq<char>, MetricView)>,
    gpu: GpuInfoView,
    i: int,
)
    requires
        distinct_keys(entries),
        0 <= i < gpu_entities_of(gpu).len(),
    ensures
        has_key(collect_gpu(entries, gpu), gpu_entities_of(gpu)[i].entity_id),
{
    let id = gpu_entities_of(gpu)[i].entity_id;
    let temperature = gpu_key(gpu.name, "temperature"@);
    let utilization = gpu_key(gpu.name, "utilization"@);
    let memory_used = gpu_key(gpu.name, "memory_used"@);
    let power_draw = gpu_key(gpu.name, "power_draw"@);
    let first = inserted(entries, temperature, MetricView::Number(decimal(gpu.temperature as nat)));
    let second = inserted(first, utilization, MetricView::Number(decimal(gpu.utilization as nat)));
    let third = inserted(second, memory_used, MetricView::Number(decimal(gpu.memory_used as nat)));
    lemma_keys_stay(
        entries,
        temperature,
        MetricView::Number(decimal(gpu.temperature as nat)),
        temperature,
    );
    lemma_keys_stay(
        first,
        utilization,
        MetricView::Number(decimal(gpu.utilization as nat)),
        utilization,
    );
    lemma_keys_stay(
        second,
        memory_used,
        MetricView::Number(decimal(gpu.memory_used as nat)),
        memory_used,
    );
    if i == 0 {
        lemma_keys_stay(
            first,
            utilization,
            MetricView::Number(decimal(gpu.utilization as nat)),
            id,
        );
    }
    if i <= 1 {
        lemma_keys_stay(
            second,
            memory_used,
            MetricView::Number(decimal(gpu.memory_used as nat)),
            id,
        );
    }
    lemma_keys_stay(third, power_draw, MetricView::Number(gpu.power_draw), id);
}

/// `entries` after the values of each of `gpus` were put in, in order.
pub open spec fn collect_gpus(
    entries: Seq<(Seq<char>, MetricView)>,
    gpus: Seq<GpuInfoView>,
) -> Seq<(Seq<char>, MetricView)>
    decreases gpus.len(),
{
    if gpus.len() == 0 {
        entries
    } else {
        collect_gpus(collect_gpu(entries, gpus.first()), gpus.drop_first())
    }
}

fn gpu_key_of(gpu: &GpuInfo, quantity: &str) -> (key: String)
    ensures
        key@ == gpu_key(gpu@.name, quantity@),
{
    let name = sanitize_sensor_name(gpu.name.clone());
    let mut key = String::from_str("gpu_");
    key.append(name.as_str());
    key.append("_");
    key.append(quantity);
    key
}

fn register_gpu(home_assistant: &mut HomeAssistant, gpu: &GpuInfo) -> (result: Result<
    (),
    ValidationError,
>)
    requires
        old(home_assistant).wf(),
    ensures
        final(home_assistant).wf(),
        final(home_assistant).device_id() == old(home_assistant).device_id(),
        ({
            let run = requests(
                Registration { registered: old(home_assistant).registered(), failure: None },
                gpu_entities_of(gpu@),
            );
            &&& final(home_assistant).registered() == run.registered
            &&& match result {
                Ok(()) => run.failure is None,
                Err(error) => run.failure == Some(RegistrationErrorView::Validation(error@)),
            }
        }),
{
    let temperature = gpu_key_of(gpu, "temperature");
    let utilization = gpu_key_of(gpu, "utilization");
    let memory_used = gpu_key_of(gpu, "memory_used");
    let power = gpu_key_of(gpu, "power_draw");
    let mut builders: Vec<EntityRegistrationBuilder<'_>> = Vec::new();
    builders.push(
        EntityRegistrationBuilder::new("sensor", temperature.as_str()).unit_of_measurement(
            "°C",
        ).icon("mdi:thermometer"),
    );
    builders.push(
        EntityRegistrationBuilder::new("sensor", utilization.as_str()).unit_of_measurement(
            "%",
        ).icon("mdi:percent"),
    );
    builders.push(
        EntityRegistrationBuilder::new("sensor", memory_used.as_str()).unit_of_measurement(
            "MB",
        ).icon("mdi:memory"),
    );
    builders.push(
        EntityRegistrationBuilder::new("sensor", power.as_str()).unit_of_measurement("W").icon(
            "mdi:flash",
        ),
    );
    proof {
        assert(descriptors(builders@) =~= gpu_entities_of(gpu@));
    }
    home_assistant.register_all(&builders)
}

/// The graphics processors, and whether there is a tool to ask about them.
#[derive(Debug)]
pub struct NvidiaGpuSensors {
    nvidia_smi_available: bool,
}

impl NvidiaGpuSensors {
    /// Whether `nvidia-smi` answered when it was tried.
    pub closed spec fn available(&self) -> bool {
        self.nvidia_smi_available
    }

    /// Sensors of which nothing is known yet: the tool counts as missing.
    pub fn new() -> (sensors: Self)
        ensures
            !sensors.available(),
    {
        Self { nvidia_smi_available: false }
    }

    /// Takes note of a first try of the tool: it is there if the try gave a
    /// report, whatever the report holds.
    pub fn init(&mut self, report: &Result<Vec<GpuInfo>, String>)
        ensures
            final(self).available() == report is Ok,
    {
        self.nvidia_smi_available = report.is_ok();
    }

    /// Whether the tool is there, so that it is worth asking it.
    pub fn is_available(&self) -> (available: bool)
        ensures
            available == self.available(),
    {
        self.nvidia_smi_available
    }

    /// Puts the values of `gpu_info` into `stats`, where the tool is there;
    /// else nothing.
    pub fn collect_values(&self, gpu_info: &Vec<GpuInfo>, stats: &mut Stats)
        requires
            distinct_keys(old(stats)@),
        ensures
            distinct_keys(final(stats)@),
            final(stats)@ == if self.available() {
                collect_gpus(old(stats)@, gpu_views(gpu_info@))
            } else {
                old(stats)@
            },
    {
        if !self.nvidia_smi_available {
            return ;
        }
        let ghost gpus = gpu_views(gpu_info@);
        proof {
            assert(gpus.skip(0) == gpus);
        }
        let mut i: usize = 0;
        while i < gpu_info.len()
            invariant
                i <= gpu_info.len(),
                distinct_keys(stats@),
                gpus == gpu_views(gpu_info@),
                collect_gpus(old(stats)@, gpus) == collect_gpus(stats@, gpus.skip(i as int)),
            decreases gpu_info.len() - i,
        {
            proof {
                assert(gpus.skip(i as int).first() == gpu_info@[i as int]@);
                assert(gpus.skip(i as int).drop_first() == gpus.skip(i + 1));
            }
            let gpu = &gpu_info[i];
            stats.insert(
                gpu_key_of(gpu, "temperature"),
                MetricValue::Number(JsonNumber::from_u32(gpu.temperature)),
            );
            stats.insert(
                gpu_key_of(gpu, "utilization"),
                MetricValue::Number(JsonNumber::from_u32(gpu.utilization)),
            );
            stats.insert(
                gpu_key_of(gpu, "memory_used"),
                MetricValue::Number(JsonNumber::from_u32(gpu.memory_used)),
            );
            stats.insert(
                gpu_key_of(gpu, "power_draw"),
                MetricValue::Number(gpu.power_draw.clone()),
            );
            i += 1;
        }
    }

    /// Registers the entities of `gpu_info`, processor by processor and up
    /// to the first that is refused, where the tool is there; else nothing.
    pub fn register_sensors(
        &self,
        gpu_info: &Vec<GpuInfo>,
        home_assistant: &mut HomeAssistant,
    ) -> (result: Result<(), ValidationError>)
        requires
            old(home_assistant).wf(),
        ensures
            final(home_assistant).wf(),
            final(home_assistant).device_id() == old(home_assistant).device_id(),
            ({
                let run = requests(
                    Registration { registered: old(home_assistant).registered(), failure: None },
                    if self.available() {
                        gpu_entities(gpu_views(gpu_info@))
                    } else {
                        Seq::empty()
                    },
                );
                &&& final(home_assistant).registered() == run.registered
                &&& match result {
                    Ok(()) => run.failure is None,
                    Err(error) => run.failure == Some(RegistrationErrorView::Validation(error@)),
                }
            }),
    {
        if !self.nvidia_smi_available {
            return Ok(());
        }
        let ghost start = Registration { registered: home_assistant.registered(), failure: None };
        let ghost gpus = gpu_views(gpu_info@);
        proof {
            assert(gpus.skip(0) == gpus);
        }
        let mut i: usize = 0;
        while i < gpu_info.len()
            invariant
                i <= gpu_info.len(),
                home_assistant.wf(),
                home_assistant.device_id() == old(home_assistant).device_id(),
                self.available(),
                gpus == gpu_views(gpu_info@),
                start == (Registration {
                    registered: old(home_assistant).registered(),
                    failure: None,
                }),
                requests(start, gpu_entities(gpus)) == requests(
                    Registration { registered: home_assistant.registered(), failure: None },
                    gpu_entities(gpus.skip(i as int)),
                ),
            decreases gpu_info.len() - i,
        {
            let ghost before = Registration {
                registered: home_assistant.registered(),
                failure: None,
            };
            proof {
                assert(gpus.skip(i as int).first() == gpu_info@[i as int]@);
                assert(gpus.skip(i as int).drop_first() == gpus.skip(i + 1));
                lemma_requests_append(
                    before,
                    gpu_entities_of(gpus[i as int]),
                    gpu_entities(gpus.skip(i + 1)),
                );
            }
            match register_gpu(home_assistant, &gpu_info[i]) {
                Ok(()) => {},
                Err(error) => {
                    proof {
                        lemma_requests_stopped(
                            requests(before, gpu_entities_of(gpus[i as int])),
                            gpu_entities(gpus.skip(i + 1)),
                        );
                    }
                    return Err(error);
                },
            }
            i += 1;
        }
        Ok(())
    }
}

} // verus!
