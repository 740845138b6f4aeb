use sequent::persistence::yaml::{check_read_path, finish_read, prepare_write, Carrier, EXT};
use sequent::persistence::{
    check_ext, match_ext, PersistentEvent, PersistentScenario, ReadScenarioError,
    UnsupportedFileFormatError, WriteScenarioError,
};
use sequent::{
    Decoder, Event, Named, NamedEventParser, ParseEventError, Queue, Scenario, StaticNamed,
    TransitionError,
};
use std::io;
use std::io::ErrorKind;

#[test]
fn check_ext_passes() {
    assert_eq!(Ok(()), check_ext("data.txt", "txt"));
}

#[test]
fn check_ext_fails() {
    assert_eq!(
        Err(UnsupportedFileFormatError("expected file extension 'txt', got 'log'".into())),
        check_ext("data.log", "txt")
    );
}

#[test]
fn check_ext_without_extension() {
    assert_eq!(
        Err(UnsupportedFileFormatError("expected file extension 'yaml', got ''".into())),
        check_ext("dir.d/data", "yaml")
    );
    assert_eq!(Ok(()), check_ext("nested/dir/archive.tar.yaml", "yaml"));
}

#[test]
fn match_ext_compares_exactly() {
    assert_eq!(Ok(()), match_ext("yaml", "yaml"));
    assert_eq!(
        Err(UnsupportedFileFormatError("expected file extension 'yaml', got 'YAML'".into())),
        match_ext("YAML", "yaml")
    );
}

#[test]
fn unsupported_file_format_error_implements_display() {
    let err = UnsupportedFileFormatError("expected file extension 'txt', got 'log'".into());
    assert_eq!("expected file extension 'txt', got 'log'", err.to_string());
}

fn write_scenario_error_io() -> WriteScenarioError {
    WriteScenarioError::Io(io::Error::new(ErrorKind::BrokenPipe, "broken pipe"))
}

fn write_scenario_error_unsupported_file_format() -> WriteScenarioError {
    WriteScenarioError::UnsupportedFileFormat(UnsupportedFileFormatError("data".into()))
}

#[test]
fn write_scenario_error_implements_display() {
    assert_eq!("io: broken pipe", write_scenario_error_io().to_string());
    assert_eq!(
        "unsupported file format: data",
        write_scenario_error_unsupported_file_format().to_string()
    );
}

#[test]
fn write_scenario_error_variants() {
    assert!(write_scenario_error_io().io().is_some());
    assert!(write_scenario_error_io().unsupported_file_format().is_none());

    assert!(write_scenario_error_unsupported_file_format().unsupported_file_format().is_some());
    assert!(write_scenario_error_unsupported_file_format().io().is_none());
}

fn read_scenario_error_io() -> ReadScenarioError {
    ReadScenarioError::Io(io::Error::new(ErrorKind::BrokenPipe, "broken pipe"))
}

fn read_scenario_error_unsupported_file_format() -> ReadScenarioError {
    ReadScenarioError::UnsupportedFileFormat(UnsupportedFileFormatError("data".into()))
}

fn read_scenario_error_parse_event() -> ReadScenarioError {
    ReadScenarioError::ParseEvent(ParseEventError("data".into()))
}

fn read_scenario_error_deserializer() -> ReadScenarioError {
    ReadScenarioError::Deserializer("data".into())
}

#[test]
fn read_scenario_error_implements_display() {
    assert_eq!("io: broken pipe", read_scenario_error_io().to_string());
    assert_eq!(
        "unsupported file format: data",
        read_scenario_error_unsupported_file_format().to_string()
    );
    assert_eq!("parse event: data", read_scenario_error_parse_event().to_string());
    assert_eq!("deserializer: data", read_scenario_error_deserializer().to_string());
}

#[test]
fn read_scenario_error_variants() {
    assert!(read_scenario_error_io().io().is_some());
    assert!(read_scenario_error_io().unsupported_file_format().is_none());

    assert!(read_scenario_error_unsupported_file_format().unsupported_file_format().is_some());
    assert!(read_scenario_error_unsupported_file_format().parse_event().is_none());

    assert!(read_scenario_error_parse_event().parse_event().is_some());
    assert!(read_scenario_error_parse_event().deserializer().is_none());

    assert!(read_scenario_error_deserializer().deserializer().is_some());
    assert!(read_scenario_error_deserializer().io().is_none());
}

#[derive(Debug, Clone, PartialEq)]
struct TestState {
    some_string: String,
    some_f64: f64,
}

#[derive(Debug, Clone, PartialEq)]
struct TestEvent(Vec<String>);

impl StaticNamed for TestEvent {
    fn static_name() -> &'static str {
        "test"
    }
}

impl Event<TestState> for TestEvent {
    fn encode(&self) -> String {
        self.0.join(" ")
    }

    fn apply(&self, _: &mut TestState, _: &mut Queue<'_, Self>) -> Result<(), TransitionError> {
        Err(TransitionError("not applicable".into()))
    }
}

#[derive(Default)]
struct TestParser;

impl Named for TestParser {
    fn name(&self) -> String {
        "test".to_string()
    }
}

impl NamedEventParser for TestParser {
    type Output = TestEvent;

    fn parse(&self, s: &str) -> Result<TestEvent, ParseEventError> {
        if s.contains('!') {
            Err(ParseEventError(format!("bad test event '{s}'")))
        } else {
            Ok(TestEvent(s.split_whitespace().map(ToString::to_string).collect()))
        }
    }
}

fn persistent_scenario_fixture() -> PersistentScenario<TestState> {
    PersistentScenario {
        initial: TestState { some_string: "hello".to_string(), some_f64: 3.14 },
        timeline: vec![PersistentEvent { name: "test".into(), encoded: "a b c".into() }],
    }
}

fn scenario_fixture() -> Scenario<TestState, TestEvent> {
    Scenario {
        initial: TestState { some_string: "hello".to_string(), some_f64: 3.14 },
        timeline: vec![TestEvent(vec!["a".into(), "b".into(), "c".into()])],
    }
}

#[test]
fn scenario_round_trip() {
    let decoder = Decoder::new(vec![TestParser]);
    let decoded = persistent_scenario_fixture().decode(&decoder).unwrap();
    let s = scenario_fixture();
    assert_eq!(s.initial, decoded.initial);
    assert_eq!(s.timeline.len(), decoded.timeline.len());

    let ps = PersistentScenario::from(&decoded);
    assert_eq!(ps, persistent_scenario_fixture());
}

#[test]
fn flatten_decode_flatten_gives_same_records() {
    let decoder = Decoder::new(vec![TestParser]);
    let scenario = Scenario {
        initial: TestState { some_string: "x".to_string(), some_f64: 1.5 },
        timeline: vec![
            TestEvent(vec!["a".into()]),
            TestEvent(vec![]),
            TestEvent(vec!["b".into(), "c".into()]),
        ],
    };
    let first = PersistentScenario::from(&scenario);
    assert_eq!("b c", first.timeline[2].encoded);
    assert_eq!("test", first.timeline[0].name);
    let again = PersistentScenario::from(&first.decode(&decoder).unwrap());
    assert_eq!(PersistentScenario::from(&scenario), again);
}

#[test]
fn decode_stops_at_first_failure() {
    let decoder = Decoder::new(vec![TestParser]);
    let ps = PersistentScenario {
        initial: TestState { some_string: "x".to_string(), some_f64: 0.0 },
        timeline: vec![
            PersistentEvent { name: "test".into(), encoded: "ok".into() },
            PersistentEvent { name: "other".into(), encoded: "x".into() },
            PersistentEvent { name: "test".into(), encoded: "bad!".into() },
        ],
    };
    assert_eq!(
        Some(ParseEventError("no event parser for 'other'".into())),
        ps.decode(&decoder).err()
    );
    let ps = PersistentScenario {
        initial: TestState { some_string: "x".to_string(), some_f64: 0.0 },
        timeline: vec![PersistentEvent { name: "test".into(), encoded: "bad!".into() }],
    };
    assert_eq!(
        Some(ParseEventError("bad test event 'bad!'".into())),
        ps.decode(&decoder).err()
    );
}

#[test]
fn carrier_implements_partial_eq() {
    assert_eq!(
        Carrier::from(persistent_scenario_fixture()),
        Carrier::from(persistent_scenario_fixture())
    );
}

#[test]
fn carrier_implements_debug() {
    let s = format!("{:?}", Carrier::from(persistent_scenario_fixture()));
    assert!(s.contains("Carrier"))
}

#[test]
fn carrier_gives_back_its_value() {
    assert_eq!(persistent_scenario_fixture(), Carrier::from(persistent_scenario_fixture()).into_inner());
}

#[test]
fn prepare_write_checks_extension_first() {
    let scenario = scenario_fixture();
    let err = prepare_write(&scenario, "data.json").err().unwrap();
    assert_eq!(
        Some(UnsupportedFileFormatError("expected file extension 'yaml', got 'json'".into())),
        err.unsupported_file_format()
    );
    let ok = prepare_write(&scenario, "out/data.yaml").ok().unwrap();
    assert_eq!(persistent_scenario_fixture(), ok);
    assert_eq!("yaml", EXT);
}

#[test]
fn check_read_path_checks_extension() {
    assert!(check_read_path("in.yaml").is_ok());
    assert!(check_read_path("data.json").err().unwrap().unsupported_file_format().is_some());
}

#[test]
fn finish_read_maps_each_failure() {
    let decoder = Decoder::new(vec![TestParser]);
    let err = finish_read::<TestState, TestParser>(&decoder, Err("not a valid scenario".into()));
    assert_eq!(Some("not a valid scenario".to_string()), err.err().unwrap().deserializer());

    let bad = PersistentScenario {
        initial: TestState { some_string: "x".to_string(), some_f64: 0.0 },
        timeline: vec![PersistentEvent { name: "nope".into(), encoded: "".into() }],
    };
    let err = finish_read(&decoder, Ok(bad)).err().unwrap();
    assert_eq!(Some(ParseEventError("no event parser for 'nope'".into())), err.parse_event());

    let scenario = finish_read(&decoder, Ok(persistent_scenario_fixture())).ok().unwrap();
    assert_eq!(scenario_fixture().timeline, scenario.timeline);
}
