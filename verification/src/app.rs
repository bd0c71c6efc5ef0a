//! The scheduler: the one loop that announces the entities, publishes the
//! state and watches the connection, as a machine that takes what happened
//! and tells what to do next.

use vstd::prelude::*;
use crate::config::Config;
use crate::error::{
    ConnectionError, DiscoveryError, DiscoveryErrorView, FatalError, FatalErrorView,
    PublishError, RegistrationError, SampleError, SampleErrorView, StartupError,
};
use crate::home_assistant::{
    availability_message, lemma_requests_stopped, requests, state_topic, value_message,
    EntityView, HomeAssistant, Publication, PublicationView, Registration,
};
use crate::lm_sensors_impl::{
    collect_chips, lemma_register_chips_stopped, register_chips, ChipView, SensorsImpl,
};
use crate::nvidia_gpu::{
    collect_gpus, gpu_entities, gpu_views, GpuInfo, GpuInfoView, NvidiaGpuSensors,
};
use crate::stats::{state_json, MetricView};
use crate::system_sensors::{
    collect_system_stats, machine_stats, register_system_sensors, system_entities,
    SystemReadings, SystemReadingsView,
};

verus! {

/// What the scheduler waits for.
#[derive(Clone, Copy, Debug, PartialEq, Eq, Structural)]
pub enum Source {
    /// The end of the connection task.
    Connection,
    /// The tick of the discovery timer.
    Discovery,
    /// The tick of the update timer.
    Update,
    /// The request to shut down.
    Cancellation,
}

/// Which of the sources have something to handle.
#[derive(Clone, Copy, Debug)]
pub struct Ready {
    pub connection: bool,
    pub discovery: bool,
    pub update: bool,
    pub cancellation: bool,
}

/// The source that is handled when those of `ready` have something: the
/// first of them in the order connection, discovery, update, cancellation.
pub open spec fn first_ready(ready: Ready) -> Option<Source> {
    if ready.connection {
        Some(Source::Connection)
    } else if ready.discovery {
        Some(Source::Discovery)
    } else if ready.update {
        Some(Source::Update)
    } else if ready.cancellation {
        Some(Source::Cancellation)
    } else {
        None
    }
}

/// Picks the one source that this turn of the loop handles.
pub fn select(ready: Ready) -> (source: Option<Source>)
    ensures
        source == first_ready(ready),
{
    if ready.connection {
        Some(Source::Connection)
    } else if ready.discovery {
        Some(Source::Discovery)
    } else if ready.update {
        Some(Source::Update)
    } else if ready.cancellation {
        Some(Source::Cancellation)
    } else {
        None
    }
}

/// What happened since the scheduler last told what to do.
#[derive(Debug)]
pub enum Event {
    /// The connection task ended, well or with this error.
    ConnectionClosed(Result<(), ConnectionError>),
    /// The discovery timer ticked.
    DiscoveryTick,
    /// The pass over the discovery entries ended.
    DiscoveryFinished(Result<(), DiscoveryError>),
    /// The update timer ticked.
    UpdateTick,
    /// The machine was sampled: the state object, or why there is none.
    Sampled(Result<String, SampleError>),
    /// A shutdown was requested.
    Cancelled,
    /// The message or the disconnect that was asked for went out, or failed
    /// with this error.
    Done(Result<(), PublishError>),
}

/// An `Event`, as plain values.
pub enum EventView {
    ConnectionClosed(Result<(), Seq<char>>),
    DiscoveryTick,
    DiscoveryFinished(Result<(), DiscoveryErrorView>),
    UpdateTick,
    Sampled(Result<Seq<char>, SampleErrorView>),
    Cancelled,
    Done(Result<(), Seq<char>>),
}

impl View for Event {
    type V = EventView;

    open spec fn view(&self) -> EventView {
        match self {
            Event::ConnectionClosed(Ok(())) => EventView::ConnectionClosed(Ok(())),
            Event::ConnectionClosed(Err(error)) => EventView::ConnectionClosed(Err(error@)),
            Event::DiscoveryTick => EventView::DiscoveryTick,
            Event::DiscoveryFinished(Ok(())) => EventView::DiscoveryFinished(Ok(())),
            Event::DiscoveryFinished(Err(error)) => EventView::DiscoveryFinished(Err(error@)),
            Event::UpdateTick => EventView::UpdateTick,
            Event::Sampled(Ok(body)) => EventView::Sampled(Ok(body@)),
            Event::Sampled(Err(error)) => EventView::Sampled(Err(error@)),
            Event::Cancelled => EventView::Cancelled,
            Event::Done(Ok(())) => EventView::Done(Ok(())),
            Event::Done(Err(error)) => EventView::Done(Err(error@)),
        }
    }
}

/// How a run of the scheduler ended, as plain values.
pub type ExitView = Result<(), FatalErrorView>;

/// The view of the end of a run.
pub open spec fn exit_view(exit: Result<(), FatalError>) -> ExitView {
    match exit {
        Ok(()) => Ok(()),
        Err(error) => Err(error@),
    }
}

/// What the scheduler asks for.
#[derive(Debug)]
pub enum Command {
    /// Wait for the next source that has something, and report it.
    Wait,
    /// Make a pass over the discovery entries, and report how it ended.
    PublishDiscovery,
    /// Sample the machine, and report the state object.
    Sample,
    /// Publish this state message and report what became of it; a failure is
    /// no reason to stop.
    Publish(Publication),
    /// Nothing was published, because no registration opened the state
    /// topic: note it, and wait.
    Unregistered,
    /// Publish this last message and report what became of it, whatever that
    /// is.
    PublishOffline(Publication),
    /// Close the connection and report what became of it, whatever that is.
    Disconnect,
    /// Leave the loop with this result.
    Exit(Result<(), FatalError>),
    /// The loop was left before; there is nothing to do.
    Stopped,
}

/// A `Command`, as plain values.
pub enum CommandView {
    Wait,
    PublishDiscovery,
    Sample,
    Publish(PublicationView),
    Unregistered,
    PublishOffline(PublicationView),
    Disconnect,
    Exit(ExitView),
    Stopped,
}

impl View for Command {
    type V = CommandView;

    open spec fn view(&self) -> CommandView {
        match self {
            Command::Wait => CommandView::Wait,
            Command::PublishDiscovery => CommandView::PublishDiscovery,
            Command::Sample => CommandView::Sample,
            Command::Publish(message) => CommandView::Publish(message@),
            Command::Unregistered => CommandView::Unregistered,
            Command::PublishOffline(message) => CommandView::PublishOffline(message@),
            Command::Disconnect => CommandView::Disconnect,
            Command::Exit(exit) => CommandView::Exit(exit_view(*exit)),
            Command::Stopped => CommandView::Stopped,
        }
    }
}

/// Where the scheduler stands.
pub enum PhaseView {
    /// In the loop.
    Running,
    /// Out of the loop with this result; the last message is on its way.
    Cleanup(ExitView),
    /// The last message was dealt with; the connection is being closed.
    Closing(ExitView),
    /// All is done.
    Exited,
}

/// The scheduler leaves the loop with `exit`: it asks for the last message
/// of the device `device_id`.
pub open spec fn leave(device_id: Seq<char>, exit: ExitView) -> (PhaseView, CommandView) {
    (
        PhaseView::Cleanup(exit),
        CommandView::PublishOffline(availability_message(device_id, false)),
    )
}

/// What the scheduler of the device `device_id` does in the loop when
/// `event` happens. The end of the connection task and a cancellation leave
/// the loop, as do a failed discovery pass and a sampling round that gave no
/// state object. A state object is published, if the state topic is open. A
/// state message that failed to go out changes nothing.
pub open spec fn handle(device_id: Seq<char>, state_open: bool, event: EventView) -> (
    PhaseView,
    CommandView,
) {
    match event {
        EventView::ConnectionClosed(Ok(())) => leave(device_id, Ok(())),
        EventView::ConnectionClosed(Err(reason)) => leave(
            device_id,
            Err(FatalErrorView::Connection(reason)),
        ),
        EventView::DiscoveryTick => (PhaseView::Running, CommandView::PublishDiscovery),
        EventView::DiscoveryFinished(Ok(())) => (PhaseView::Running, CommandView::Wait),
        EventView::DiscoveryFinished(Err(error)) => leave(
            device_id,
            Err(FatalErrorView::Discovery(error)),
        ),
        EventView::UpdateTick => (PhaseView::Running, CommandView::Sample),
        EventView::Sampled(Ok(body)) => if state_open {
            (
                PhaseView::Running,
                CommandView::Publish(value_message(device_id, "state"@, body)),
            )
        } else {
            (PhaseView::Running, CommandView::Unregistered)
        },
        EventView::Sampled(Err(SampleErrorView::Collaborator(reason))) => leave(
            device_id,
            Err(FatalErrorView::Collaborator(reason)),
        ),
        EventView::Sampled(Err(SampleErrorView::Serialization(reason))) => leave(
            device_id,
            Err(FatalErrorView::Serialization(reason)),
        ),
        EventView::Cancelled => leave(device_id, Ok(())),
        EventView::Done(_) => (PhaseView::Running, CommandView::Wait),
    }
}

/// One step of the scheduler: where it stands after `event` and what it
/// asks for. Out of the loop the event does not count: the last message is
/// followed by the disconnect, and that by the exit with the result that the
/// loop was left with.
pub open spec fn step(
    device_id: Seq<char>,
    state_open: bool,
    phase: PhaseView,
    event: EventView,
) -> (PhaseView, CommandView) {
    match phase {
        PhaseView::Running => handle(device_id, state_open, event),
        PhaseView::Cleanup(exit) => (PhaseView::Closing(exit), CommandView::Disconnect),
        PhaseView::Closing(exit) => (PhaseView::Exited, CommandView::Exit(exit)),
        PhaseView::Exited => (PhaseView::Exited, CommandView::Stopped),
    }
}

/// Where the scheduler stands after `events` and what it asked for on the
/// way, one command for each event.
pub open spec fn steps(
    device_id: Seq<char>,
    state_open: bool,
    phase: PhaseView,
    events: Seq<EventView>,
) -> (PhaseView, Seq<CommandView>)
    decreases events.len(),
{
    if events.len() == 0 {
        (phase, Seq::empty())
    } else {
        let (next, command) = step(device_id, state_open, phase, events.first());
        let (end, commands) = steps(device_id, state_open, next, events.drop_first());
        (end, seq![command] + commands)
    }
}

/// How often `commands` ask for the last message.
pub open spec fn farewells(commands: Seq<CommandView>) -> nat
    decreases commands.len(),
{
    if commands.len() == 0 {
        0
    } else {
        (if commands.first() is PublishOffline {
            1nat
        } else {
            0nat
        }) + farewells(commands.drop_first())
    }
}

/// Where the scheduler stands, without the result that it keeps meanwhile.
#[derive(Clone, Copy, Debug, PartialEq, Eq, Structural)]
enum Phase {
    Running,
    Cleanup,
    Closing,
    Exited,
}

/// The bridge of one device: its registry of entities, and the scheduler
/// that drives it.
pub struct App {
    config: Config,
    home_assistant: HomeAssistant,
    gpu_sensors: NvidiaGpuSensors,
    phase: Phase,
    exit: Option<Result<(), FatalError>>,
}

/// The entities of the graphics processors that a first try of the tool
/// reported; none where the try failed.
pub open spec fn reported_entities(gpu_report: Result<Vec<GpuInfo>, String>) -> Seq<EntityView> {
    match gpu_report {
        Ok(gpus) => gpu_entities(gpu_views(gpus@)),
        Err(_) => Seq::empty(),
    }
}

/// What registering everything at startup leaves registered, and why it
/// stopped, if it did: the entities of the machine and of the drives of
/// `config`, then those of the sensor chips, then those of the graphics
/// processors, where the tool gave a report.
pub open spec fn startup_registration(
    config: Config,
    chips: Seq<ChipView>,
    gpu_report: Result<Vec<GpuInfo>, String>,
) -> Registration {
    requests(
        register_chips(
            requests(
                Registration { registered: Seq::empty(), failure: None },
                system_entities(config.drives@),
            ),
            chips,
        ),
        reported_entities(gpu_report),
    )
}

/// The identifier of the device: the one of the settings, or the host name
/// where they give none; nothing where there is neither.
pub open spec fn device_id_of(config: Config, hostname: Option<String>) -> Option<Seq<char>> {
    match config.unique_id {
        Some(id) => Some(id@),
        None => match hostname {
            Some(name) => Some(name@),
            None => None,
        },
    }
}

/// The metrics of one sampling round, in the order in which they are put
/// in: those of the machine, of the sensor chips and, where the tool is
/// there, of the graphics processors.
pub open spec fn round_stats(
    config: Config,
    gpu_available: bool,
    readings: SystemReadingsView,
    chips: Seq<ChipView>,
    gpus: Seq<GpuInfoView>,
) -> Seq<(Seq<char>, MetricView)> {
    let chip_stats = collect_chips(machine_stats(readings, config.drives@), chips);
    if gpu_available {
        collect_gpus(chip_stats, gpus)
    } else {
        chip_stats
    }
}

impl App {
    /// The registry of the device.
    pub closed spec fn registry(&self) -> HomeAssistant {
        self.home_assistant
    }

    /// The settings that the bridge was started with.
    pub closed spec fn settings(&self) -> Config {
        self.config
    }

    /// Whether the tool that reports on the graphics processors is there.
    pub closed spec fn gpu_available(&self) -> bool {
        self.gpu_sensors.available()
    }

    /// Where the scheduler stands.
    pub closed spec fn phase(&self) -> PhaseView {
        match self.phase {
            Phase::Running => PhaseView::Running,
            Phase::Cleanup => PhaseView::Cleanup(exit_view(self.exit->0)),
            Phase::Closing => PhaseView::Closing(exit_view(self.exit->0)),
            Phase::Exited => PhaseView::Exited,
        }
    }

    /// The registry is well formed, and the result of the run is kept from
    /// the moment the loop is left until it is handed out.
    pub closed spec fn wf(&self) -> bool {
        &&& self.home_assistant.wf()
        &&& (self.phase == Phase::Cleanup || self.phase == Phase::Closing) ==> self.exit is Some
    }

    /// Whether the state topic of the device is open.
    pub open spec fn state_open(&self) -> bool {
        self.registry().topics().contains(state_topic(self.registry().device_id()))
    }

    /// Starts the bridge: names the device, registers its entities and
    /// hands out the message that says that the device is there. Where
    /// neither the settings nor the host name the device, nothing is
    /// started.
    pub fn new(
        config: Config,
        hostname: Option<String>,
        sensors: &SensorsImpl,
        gpu_report: &Result<Vec<GpuInfo>, String>,
    ) -> (result: Result<(App, Publication), StartupError>)
        ensures
            match result {
                Ok((app, online)) => {
                    &&& device_id_of(config, hostname) matches Some(device_id)
                    &&& app.wf()
                    &&& app.phase() is Running
                    &&& app.settings() == config
                    &&& app.gpu_available() == gpu_report is Ok
                    &&& app.registry().device_id() == device_id
                    &&& startup_registration(config, sensors@, *gpu_report).failure is None
                    &&& app.registry().registered() == startup_registration(
                        config,
                        sensors@,
                        *gpu_report,
                    ).registered
                    &&& online@ == availability_message(device_id, true)
                },
                Err(StartupError::NoHostname) => device_id_of(config, hostname) is None,
                Err(StartupError::Registration(error)) => device_id_of(config, hostname) is Some
                    && startup_registration(config, sensors@, *gpu_report).failure == Some(
                    error@,
                ),
            },
    {
        let device_id = match &config.unique_id {
            Some(id) => id.clone(),
            None => match hostname {
                Some(name) => name,
                None => {
                    return Err(StartupError::NoHostname);
                },
            },
        };
        let mut home_assistant = HomeAssistant::new(device_id);
        let ghost start = Registration { registered: Seq::<EntityView>::empty(), failure: None };
        let ghost machine = requests(start, system_entities(config.drives@));
        let ghost chips = register_chips(machine, sensors@);
        let ghost gpus = reported_entities(*gpu_report);
        match register_system_sensors(&mut home_assistant, &config) {
            Ok(()) => {},
            Err(error) => {
                proof {
                    lemma_register_chips_stopped(machine, sensors@);
                    lemma_requests_stopped(chips, gpus);
                }
                return Err(StartupError::Registration(RegistrationError::Validation(error)));
            },
        }
        match sensors.register_sensors(&mut home_assistant) {
            Ok(()) => {},
            Err(error) => {
                proof {
                    lemma_requests_stopped(chips, gpus);
                }
                return Err(StartupError::Registration(error));
            },
        }
        let mut gpu_sensors = NvidiaGpuSensors::new();
        gpu_sensors.init(gpu_report);
        match gpu_report {
            Ok(gpu_info) => {
                match gpu_sensors.register_sensors(gpu_info, &mut home_assistant) {
                    Ok(()) => {},
                    Err(error) => {
                        return Err(
                            StartupError::Registration(RegistrationError::Validation(error)),
                        );
                    },
                }
            },
            Err(_) => {},
        }
        let online = home_assistant.set_available(true);
        Ok(
            (
                App { config, home_assistant, gpu_sensors, phase: Phase::Running, exit: None },
                online,
            ),
        )
    }

    /// The registry of the device.
    pub fn home_assistant(&self) -> (registry: &HomeAssistant)
        ensures
            *registry == self.registry(),
    {
        &self.home_assistant
    }

    /// The settings that the bridge was started with.
    pub fn config(&self) -> (config: &Config)
        ensures
            *config == self.settings(),
    {
        &self.config
    }

    /// Whether it is worth asking the tool about the graphics processors.
    pub fn wants_gpu_info(&self) -> (wanted: bool)
        ensures
            wanted == self.gpu_available(),
    {
        self.gpu_sensors.is_available()
    }

    /// Gathers the metrics of one sampling round and writes them as the
    /// state object.
    pub fn sample(
        &self,
        readings: &SystemReadings,
        sensors: &SensorsImpl,
        gpu_info: &Vec<GpuInfo>,
    ) -> (result: Result<String, SampleError>)
        ensures
            result matches Ok(body) && body@ == state_json(
                round_stats(
                    self.settings(),
                    self.gpu_available(),
                    readings@,
                    sensors@,
                    gpu_views(gpu_info@),
                ),
            ),
    {
        let stats = collect_system_stats(
            readings,
            &self.config.drives,
            sensors,
            &self.gpu_sensors,
            gpu_info,
        );
        match stats.to_json() {
            Ok(body) => Ok(body),
            Err(error) => Err(SampleError::Serialization(error)),
        }
    }

    fn leave(&mut self, exit: Result<(), FatalError>) -> (command: Command)
        requires
            old(self).wf(),
        ensures
            final(self).wf(),
            final(self).registry() == old(self).registry(),
            final(self).settings() == old(self).settings(),
            final(self).gpu_available() == old(self).gpu_available(),
            (final(self).phase(), command@) == leave(
                old(self).registry().device_id(),
                exit_view(exit),
            ),
    {
        self.phase = Phase::Cleanup;
        self.exit = Some(exit);
        Command::PublishOffline(self.home_assistant.disconnect())
    }

    /// One step of the scheduler: takes what happened and tells what to do
    /// next.
    pub fn run(&mut self, event: Event) -> (command: Command)
        requires
            old(self).wf(),
        ensures
            final(self).wf(),
            final(self).registry() == old(self).registry(),
            final(self).settings() == old(self).settings(),
            final(self).gpu_available() == old(self).gpu_available(),
            (final(self).phase(), command@) == step(
                old(self).registry().device_id(),
                old(self).state_open(),
                old(self).phase(),
                event@,
            ),
    {
        match self.phase {
            Phase::Running => match event {
                Event::ConnectionClosed(Ok(())) => self.leave(Ok(())),
                Event::ConnectionClosed(Err(error)) => self.leave(
                    Err(FatalError::Connection(error)),
                ),
                Event::DiscoveryTick => Command::PublishDiscovery,
                Event::DiscoveryFinished(Ok(())) => Command::Wait,
                Event::DiscoveryFinished(Err(error)) => self.leave(
                    Err(FatalError::Discovery(error)),
                ),
                Event::UpdateTick => Command::Sample,
                Event::Sampled(Ok(body)) => match self.home_assistant.publish("state", body) {
                    Some(message) => Command::Publish(message),
                    None => Command::Unregistered,
                },
                Event::Sampled(Err(SampleError::Collaborator(error))) => self.leave(
                    Err(FatalError::Collaborator(error)),
                ),
                Event::Sampled(Err(SampleError::Serialization(error))) => self.leave(
                    Err(FatalError::Serialization(error)),
                ),
                Event::Cancelled => self.leave(Ok(())),
                Event::Done(_) => Command::Wait,
            },
            Phase::Cleanup => {
                self.phase = Phase::Closing;
                Command::Disconnect
            },
            Phase::Closing => {
                self.phase = Phase::Exited;
                match self.exit.take() {
                    Some(exit) => Command::Exit(exit),
                    None => Command::Stopped,
                }
            },
            Phase::Exited => Command::Stopped,
        }
    }
}

/// The commands of one step and of those that follow it, taken together.
proof fn lemma_farewells_split(command: CommandView, commands: Seq<CommandView>)
    ensures
        farewells(seq![command] + commands) == (if command is PublishOffline {
            1nat
        } else {
            0nat
        }) + farewells(commands),
{
    let all = seq![command] + commands;
    assert(all.first() == command);
    assert(all.drop_first() == commands);
}

/// The last message is asked for once and no more. Whatever happens, in
/// whatever order: a scheduler that starts in the loop asks for it exactly
/// once if it leaves the loop and never while it stays in it, and out of
/// the loop it does not ask for it again, nor does it come back into the
/// loop.
pub proof fn lemma_one_farewell(
    device_id: Seq<char>,
    state_open: bool,
    phase: PhaseView,
    events: Seq<EventView>,
)
    ensures
        steps(device_id, state_open, phase, events).1.len() == events.len(),
        phase is Running ==> farewells(steps(device_id, state_open, phase, events).1) == (if steps(
            device_id,
            state_open,
            phase,
            events,
        ).0 is Running {
            0nat
        } else {
            1nat
        }),
        !(phase is Running) ==> farewells(steps(device_id, state_open, phase, events).1) == 0
            && !(steps(device_id, state_open, phase, events).0 is Running),
    decreases events.len(),
{
    if events.len() > 0 {
        let (next, command) = step(device_id, state_open, phase, events.first());
        let (end, commands) = steps(device_id, state_open, next, events.drop_first());
        lemma_one_farewell(device_id, state_open, next, events.drop_first());
        lemma_farewells_split(command, commands);
    }
}

/// Out of the loop nothing changes the result: a scheduler that left the
/// loop with `exit` asks for the disconnect and then exits with `exit`,
/// whatever is reported to it meanwhile, be it the failure of the last
/// message or of the disconnect.
pub proof fn lemma_cleanup_keeps_result(
    device_id: Seq<char>,
    state_open: bool,
    exit: ExitView,
    first: EventView,
    second: EventView,
)
    ensures
        steps(device_id, state_open, PhaseView::Cleanup(exit), seq![first, second]) == (
            PhaseView::Exited,
            seq![CommandView::Disconnect, CommandView::Exit(exit)],
        ),
{
    let events = seq![first, second];
    assert(events.drop_first() == seq![second]);
    assert(seq![second].drop_first() == Seq::<EventView>::empty());
    reveal_with_fuel(steps, 3);
    assert(steps(device_id, state_open, PhaseView::Cleanup(exit), events).1 =~= seq![
        CommandView::Disconnect,
        CommandView::Exit(exit),
    ]);
}

/// When the connection task ends with an error, the scheduler leaves the
/// loop: it asks for the last message, once, then for the disconnect, and
/// exits with that error, whatever becomes of the two.
pub proof fn lemma_connection_failure_exits(
    device_id: Seq<char>,
    state_open: bool,
    reason: Seq<char>,
    second: EventView,
    third: EventView,
)
    ensures
        steps(
            device_id,
            state_open,
            PhaseView::Running,
            seq![EventView::ConnectionClosed(Err(reason)), second, third],
        ) == (
            PhaseView::Exited,
            seq![
                CommandView::PublishOffline(availability_message(device_id, false)),
                CommandView::Disconnect,
                CommandView::Exit(Err(FatalErrorView::Connection(reason))),
            ],
        ),
{
    let events = seq![EventView::ConnectionClosed(Err(reason)), second, third];
    let exit: ExitView = Err(FatalErrorView::Connection(reason));
    assert(events.drop_first() == seq![second, third]);
    lemma_cleanup_keeps_result(device_id, state_open, exit, second, third);
    assert(steps(device_id, state_open, PhaseView::Running, events).1 =~= seq![
        CommandView::PublishOffline(availability_message(device_id, false)),
        CommandView::Disconnect,
        CommandView::Exit(exit),
    ]);
}

/// When a shutdown is requested, the scheduler leaves the loop in the same
/// way and exits without an error.
pub proof fn lemma_cancellation_exits(
    device_id: Seq<char>,
    state_open: bool,
    second: EventView,
    third: EventView,
)
    ensures
        steps(
            device_id,
            state_open,
            PhaseView::Running,
            seq![EventView::Cancelled, second, third],
        ) == (
            PhaseView::Exited,
            seq![
                CommandView::PublishOffline(availability_message(device_id, false)),
                CommandView::Disconnect,
                CommandView::Exit(Ok(())),
            ],
        ),
{
    let events = seq![EventView::Cancelled, second, third];
    let exit: ExitView = Ok(());
    assert(events.drop_first() == seq![second, third]);
    lemma_cleanup_keeps_result(device_id, state_open, exit, second, third);
    assert(steps(device_id, state_open, PhaseView::Running, events).1 =~= seq![
        CommandView::PublishOffline(availability_message(device_id, false)),
        CommandView::Disconnect,
        CommandView::Exit(exit),
    ]);
}

} // verus!
