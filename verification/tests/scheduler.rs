use system_mqtt::app::{select, App, Command, Event, Ready, Source};
use system_mqtt::config::{Config, DriveConfig, Interval};
use system_mqtt::error::{
    CollaboratorError, ConnectionError, DiscoveryError, FatalError, PublishError,
    RegistrationError, SampleError, SerializationError, StartupError, ValidationError,
};
use system_mqtt::home_assistant::{Publication, QoS};
use system_mqtt::lm_sensors_impl::{Chip, Feature, Kind, Reading, SensorsImpl};
use system_mqtt::number::JsonNumber;
use system_mqtt::nvidia_gpu::GpuInfo;
use system_mqtt::restart::{supervise, Directive, Outcome, RESTART_DELAY_SECS};
use system_mqtt::system_sensors::SystemReadings;

fn number(text: &str) -> Option<JsonNumber> {
    Some(JsonNumber::parse(text).unwrap())
}

fn no_sensors() -> SensorsImpl {
    SensorsImpl::new(Vec::new())
}

fn no_gpu() -> Result<Vec<GpuInfo>, String> {
    Err(String::from("nvidia-smi: not found"))
}

fn gpu(name: &str) -> GpuInfo {
    GpuInfo {
        index: 0,
        name: String::from(name),
        temperature: 45,
        utilization: 12,
        memory_total: 8192,
        memory_used: 1024,
        memory_free: 7168,
        power_draw: JsonNumber::parse("45.5").unwrap(),
    }
}

fn broken(reason: &str) -> Event {
    Event::ConnectionClosed(Err(ConnectionError { reason: String::from(reason) }))
}

fn failed(reason: &str) -> Event {
    Event::Done(Err(PublishError { reason: String::from(reason) }))
}

fn refused(index: usize) -> Event {
    Event::DiscoveryFinished(Err(DiscoveryError::Publish {
        index,
        error: PublishError { reason: String::from("refused") },
    }))
}

fn unsampled(reason: &str) -> Event {
    Event::Sampled(Err(SampleError::Collaborator(CollaboratorError {
        reason: String::from(reason),
    })))
}

fn started() -> App {
    App::new(Config::default(), Some(String::from("host")), &no_sensors(), &no_gpu()).unwrap().0
}

fn is_farewell(message: &Publication) -> bool {
    message.topic == "system-mqtt/host/availability"
        && message.payload == "offline"
        && message.retain
        && message.qos == QoS::AtLeastOnce
}

/// Feeds `events` to the scheduler and counts the farewells among the
/// commands; gives the last command with the count.
fn drive(app: &mut App, events: Vec<Event>) -> (Command, usize) {
    let mut farewells = 0;
    let mut last = Command::Wait;
    for event in events {
        last = app.run(event);
        if let Command::PublishOffline(message) = &last {
            assert!(is_farewell(message));
            farewells += 1;
        }
    }
    (last, farewells)
}

#[test]
fn the_first_source_that_is_ready_is_handled() {
    let none = Ready { connection: false, discovery: false, update: false, cancellation: false };
    assert_eq!(select(none), None);
    assert_eq!(select(Ready { cancellation: true, ..none }), Some(Source::Cancellation));
    assert_eq!(select(Ready { update: true, cancellation: true, ..none }), Some(Source::Update));
    assert_eq!(
        select(Ready { discovery: true, update: true, cancellation: true, ..none }),
        Some(Source::Discovery)
    );
    assert_eq!(
        select(Ready { connection: true, discovery: true, update: true, cancellation: true }),
        Some(Source::Connection)
    );
    assert_eq!(select(Ready { connection: true, ..none }), Some(Source::Connection));
    assert_eq!(select(Ready { discovery: true, ..none }), Some(Source::Discovery));
    assert_eq!(select(Ready { update: true, ..none }), Some(Source::Update));
}

#[test]
fn the_bridge_starts_with_the_entities_of_the_machine() {
    let (app, online) =
        App::new(Config::default(), Some(String::from("host")), &no_sensors(), &no_gpu())
            .unwrap();
    assert_eq!(online.topic, "system-mqtt/host/availability");
    assert_eq!(online.payload, "online");
    assert!(online.retain);
    assert_eq!(online.qos, QoS::AtLeastOnce);
    assert_eq!(app.home_assistant().discovery_entries().len(), 8);
    assert!(app.home_assistant().is_registered("state"));
    assert!(!app.wants_gpu_info());
    assert_eq!(app.config().update_interval, Interval { secs: 30, nanos: 0 });
}

#[test]
fn the_configured_identifier_names_the_device() {
    let mut config = Config::default();
    config.unique_id = Some(String::from("attic"));
    let (app, online) =
        App::new(config, Some(String::from("host")), &no_sensors(), &no_gpu()).unwrap();
    assert_eq!(online.topic, "system-mqtt/attic/availability");
    assert_eq!(app.home_assistant().discovery_entries()[0].1.unique_id, "attic-available");
}

#[test]
fn without_a_name_for_the_device_nothing_starts() {
    assert!(matches!(
        App::new(Config::default(), None, &no_sensors(), &no_gpu()),
        Err(StartupError::NoHostname)
    ));
}

#[test]
fn the_configured_identifier_is_enough_without_a_host_name() {
    let mut config = Config::default();
    config.unique_id = Some(String::from("attic"));
    let (app, online) = App::new(config, None, &no_sensors(), &no_gpu()).unwrap();
    assert_eq!(online.topic, "system-mqtt/attic/availability");
    assert_eq!(online.payload, "online");
    assert_eq!(app.home_assistant().id(), "attic");
    assert_eq!(app.home_assistant().discovery_entries().len(), 8);
}

#[test]
fn sensors_and_processors_are_registered_behind_the_machine() {
    let sensors = SensorsImpl::new(vec![Chip {
        name: Ok(String::from("chip")),
        features: vec![Feature {
            kind: Some(Kind::Fan),
            label: Some(String::from("fan1")),
            sub_features: vec![Some(Reading::FanInput(number("900.0")))],
        }],
    }]);
    let (app, _) =
        App::new(Config::default(), Some(String::from("host")), &sensors, &Ok(vec![gpu("g")]))
            .unwrap();
    let ids: Vec<&str> = app
        .home_assistant()
        .discovery_entries()
        .iter()
        .map(|(_, payload)| payload.unique_id.as_str())
        .collect();
    assert_eq!(ids.len(), 13);
    assert_eq!(ids[7], "host-root");
    assert_eq!(ids[8], "host-chip_fan1");
    assert_eq!(ids[9], "host-gpu_g_temperature");
    assert_eq!(ids[12], "host-gpu_g_power_draw");
    assert!(app.wants_gpu_info());
}

#[test]
fn a_refused_entity_stops_the_start() {
    let mut config = Config::default();
    config.drives.push(DriveConfig { path: String::from("/x"), name: String::from("X") });
    match App::new(config, Some(String::from("host")), &no_sensors(), &no_gpu()) {
        Err(StartupError::Registration(RegistrationError::Validation(
            ValidationError::InvalidCharacters(id),
        ))) => assert_eq!(id, "X"),
        _ => panic!("the start was not stopped by the drive"),
    }
    let nameless = SensorsImpl::new(vec![Chip {
        name: Err(String::from("no bus")),
        features: vec![Feature {
            kind: Some(Kind::Fan),
            label: None,
            sub_features: Vec::new(),
        }],
    }]);
    match App::new(Config::default(), Some(String::from("host")), &nameless, &no_gpu()) {
        Err(StartupError::Registration(RegistrationError::ChipName(message))) => {
            assert_eq!(message, "no bus")
        }
        _ => panic!("the start was not stopped by the chip"),
    }
    match App::new(
        Config::default(),
        Some(String::from("host")),
        &no_sensors(),
        &Ok(vec![gpu("RTX")]),
    ) {
        Err(StartupError::Registration(RegistrationError::Validation(
            ValidationError::InvalidCharacters(id),
        ))) => assert_eq!(id, "gpu_RTX_temperature"),
        _ => panic!("the start was not stopped by the processor"),
    }
}

#[test]
fn a_round_is_sampled_into_the_state_object() {
    let app = started();
    let readings = SystemReadings {
        uptime: number("1.5"),
        cpu: number("12.5"),
        memory: number("48.0"),
        swap: None,
        disks: Vec::new(),
        battery: None,
    };
    assert_eq!(
        app.sample(&readings, &no_sensors(), &vec![gpu("g")]).unwrap(),
        "{\"available\":\"online\",\"uptime\":1.5,\"cpu\":12.5,\"memory\":48.0}"
    );
}

#[test]
fn ticks_ask_for_work() {
    let mut app = started();
    assert!(matches!(app.run(Event::DiscoveryTick), Command::PublishDiscovery));
    assert!(matches!(app.run(Event::DiscoveryFinished(Ok(()))), Command::Wait));
    assert!(matches!(app.run(Event::UpdateTick), Command::Sample));
}

#[test]
fn a_sampled_state_is_published() {
    let mut app = started();
    match app.run(Event::Sampled(Ok(String::from("{\"cpu\":12.5}")))) {
        Command::Publish(message) => {
            assert_eq!(message.topic, "system-mqtt/host/state");
            assert_eq!(message.payload, "{\"cpu\":12.5}");
            assert_eq!(message.qos, QoS::AtLeastOnce);
            assert!(!message.retain);
        }
        other => panic!("unexpected {:?}", other),
    }
}

#[test]
fn a_state_message_that_failed_is_no_reason_to_stop() {
    let mut app = started();
    assert!(matches!(app.run(Event::Sampled(Ok(String::from("{}")))), Command::Publish(_)));
    assert!(matches!(app.run(failed("queue full")), Command::Wait));
    assert!(matches!(app.run(Event::UpdateTick), Command::Sample));
    assert!(matches!(app.run(Event::Done(Ok(()))), Command::Wait));
}

#[test]
fn a_bridge_without_drives_still_publishes_its_state() {
    let mut config = Config::default();
    config.drives.clear();
    let mut app =
        App::new(config, Some(String::from("host")), &no_sensors(), &no_gpu()).unwrap().0;
    assert_eq!(app.home_assistant().discovery_entries().len(), 7);
    assert!(matches!(app.run(Event::Sampled(Ok(String::from("{}")))), Command::Publish(_)));
}

#[test]
fn a_broken_connection_leaves_the_loop_with_its_error() {
    let mut app = started();
    match app.run(broken("connection reset")) {
        Command::PublishOffline(message) => assert!(is_farewell(&message)),
        other => panic!("unexpected {:?}", other),
    }
    assert!(matches!(app.run(failed("not connected")), Command::Disconnect));
    match app.run(failed("not connected")) {
        Command::Exit(Err(FatalError::Connection(error))) => {
            assert_eq!(error.reason, "connection reset")
        }
        other => panic!("unexpected {:?}", other),
    }
    assert!(matches!(app.run(Event::UpdateTick), Command::Stopped));
    assert!(matches!(app.run(Event::Cancelled), Command::Stopped));
}

#[test]
fn the_farewell_is_asked_for_once_whatever_the_error() {
    let errors: Vec<Event> = vec![
        broken("reset"),
        Event::ConnectionClosed(Ok(())),
        Event::Cancelled,
        refused(2),
        unsampled("no sensors"),
        Event::Sampled(Err(SampleError::Serialization(SerializationError {
            reason: String::from("bad key"),
        }))),
    ];
    for error in errors {
        let mut app = started();
        let (last, farewells) = drive(
            &mut app,
            vec![
                Event::DiscoveryTick,
                Event::DiscoveryFinished(Ok(())),
                Event::UpdateTick,
                error,
                Event::Cancelled,
                broken("late"),
                Event::UpdateTick,
                Event::Cancelled,
            ],
        );
        assert_eq!(farewells, 1);
        assert!(matches!(last, Command::Stopped));
    }
}

#[test]
fn a_scheduler_in_the_loop_has_not_said_farewell() {
    let mut app = started();
    let (last, farewells) = drive(
        &mut app,
        vec![
            Event::DiscoveryTick,
            Event::DiscoveryFinished(Ok(())),
            Event::UpdateTick,
            Event::Sampled(Ok(String::from("{}"))),
            Event::Done(Ok(())),
            failed("x"),
        ],
    );
    assert_eq!(farewells, 0);
    assert!(matches!(last, Command::Wait));
}

#[test]
fn a_cancellation_leaves_the_loop_without_an_error() {
    let mut app = started();
    match app.run(Event::Cancelled) {
        Command::PublishOffline(message) => assert!(is_farewell(&message)),
        other => panic!("unexpected {:?}", other),
    }
    assert!(matches!(app.run(Event::Done(Ok(()))), Command::Disconnect));
    assert!(matches!(app.run(Event::Done(Ok(()))), Command::Exit(Ok(()))));
    assert!(matches!(app.run(Event::Done(Ok(()))), Command::Stopped));
}

#[test]
fn a_connection_task_that_ended_well_leaves_the_loop_without_an_error() {
    let mut app = started();
    assert!(matches!(app.run(Event::ConnectionClosed(Ok(()))), Command::PublishOffline(_)));
    assert!(matches!(app.run(Event::Done(Ok(()))), Command::Disconnect));
    assert!(matches!(app.run(Event::Done(Ok(()))), Command::Exit(Ok(()))));
}

#[test]
fn a_failed_discovery_pass_is_fatal() {
    let mut app = started();
    assert!(matches!(app.run(refused(3)), Command::PublishOffline(_)));
    assert!(matches!(app.run(Event::Done(Ok(()))), Command::Disconnect));
    match app.run(Event::Done(Ok(()))) {
        Command::Exit(Err(FatalError::Discovery(DiscoveryError::Publish { index, error }))) => {
            assert_eq!(index, 3);
            assert_eq!(error.reason, "refused");
        }
        other => panic!("unexpected {:?}", other),
    }
}

#[test]
fn a_round_without_a_state_object_is_fatal() {
    let mut app = started();
    let unwritten = Event::Sampled(Err(SampleError::Serialization(SerializationError {
        reason: String::from("bad"),
    })));
    assert!(matches!(app.run(unwritten), Command::PublishOffline(_)));
    assert!(matches!(app.run(Event::Done(Ok(()))), Command::Disconnect));
    match app.run(Event::Done(Ok(()))) {
        Command::Exit(Err(FatalError::Serialization(error))) => assert_eq!(error.reason, "bad"),
        other => panic!("unexpected {:?}", other),
    }
    let mut app = started();
    assert!(matches!(app.run(unsampled("no data")), Command::PublishOffline(_)));
    assert!(matches!(app.run(Event::UpdateTick), Command::Disconnect));
    match app.run(Event::UpdateTick) {
        Command::Exit(Err(FatalError::Collaborator(error))) => {
            assert_eq!(error.reason, "no data")
        }
        other => panic!("unexpected {:?}", other),
    }
}

#[test]
fn a_failed_run_is_tried_again_after_a_minute() {
    assert_eq!(RESTART_DELAY_SECS, 60);
    assert_eq!(supervise(Outcome::Boot, false), Directive::Start);
    assert_eq!(
        supervise(Outcome::Failed, false),
        Directive::Wait(Interval { secs: 60, nanos: 0 })
    );
    assert_eq!(supervise(Outcome::DelayElapsed, false), Directive::Start);
    assert_eq!(supervise(Outcome::Finished, false), Directive::Exit);
}

#[test]
fn a_requested_shutdown_ends_the_process_at_once() {
    for outcome in [Outcome::Boot, Outcome::Failed, Outcome::Finished, Outcome::DelayElapsed] {
        assert_eq!(supervise(outcome, true), Directive::Exit);
    }
}
