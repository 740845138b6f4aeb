use sequent::{
    process_insertions, Decoder, Event, InvalidEventParserSpec, Named, NamedEventParser,
    ParseEventError, Queue, Scenario, StaticNamed, TransitionError,
};
use std::ops::Range;

#[derive(Debug, Clone)]
struct TestState;

#[derive(Debug)]
struct SampleEvent;

impl Named for SampleEvent {
    fn name(&self) -> String {
        "test-event".to_string()
    }
}

impl Event<TestState> for SampleEvent {
    fn encode(&self) -> String {
        String::new()
    }

    fn apply(&self, _: &mut TestState, _: &mut Queue<'_, Self>) -> Result<(), TransitionError> {
        Ok(())
    }
}

fn parse_sample(s: &str) -> Result<SampleEvent, ParseEventError> {
    if s.is_empty() {
        Ok(SampleEvent)
    } else {
        Err(ParseEventError(format!("invalid arguments to 'sample': '{s}'")))
    }
}

struct Parser {
    name: &'static str,
}

impl Named for Parser {
    fn name(&self) -> String {
        self.name.to_string()
    }
}

impl NamedEventParser for Parser {
    type Output = SampleEvent;

    fn parse(&self, s: &str) -> Result<SampleEvent, ParseEventError> {
        parse_sample(s)
    }
}

#[test]
fn invalid_event_parser_spec_implements_display() {
    let s = InvalidEventParserSpec("foo".into()).to_string();
    assert_eq!("foo", s);
}

#[test]
fn parse_event_error_implements_display() {
    let s = ParseEventError("foo".into()).to_string();
    assert_eq!("foo", s);
}

#[test]
fn decoder() {
    let parsers = vec![Parser { name: "sample" }];
    let decoder = Decoder::new(parsers);
    assert_eq!(1, decoder.parsers().iter().count());
    assert!(decoder.decode("sample", "").err().is_none());
    assert_eq!(
        Some(ParseEventError("no event parser for 'x'".into())),
        decoder.decode("x", "").err()
    );
    assert_eq!(
        Some(ParseEventError("invalid arguments to 'sample': 'z'".into())),
        decoder.decode("sample", "z").err()
    );
}

#[test]
fn decoder_duplicate() {
    let parsers = vec![Parser { name: "gg" }, Parser { name: "gg" }];
    assert_eq!(
        Some(InvalidEventParserSpec("duplicate event parser for 'gg'".into())),
        Decoder::try_from(parsers).err().map(|e| e)
    );
}

#[test]
fn decoder_distinct_names_accepted() {
    let parsers = vec![Parser { name: "a" }, Parser { name: "b" }, Parser { name: "c" }];
    let decoder = Decoder::try_from(parsers).ok().unwrap();
    assert_eq!(3, decoder.parsers().len());
    assert!(decoder.decode("c", "").is_ok());
    assert_eq!(
        Some(ParseEventError("no event parser for 'd'".into())),
        decoder.decode("d", "").err()
    );
}

#[test]
fn decoder_duplicate_reports_first_repeated_name() {
    let parsers = vec![
        Parser { name: "a" },
        Parser { name: "b" },
        Parser { name: "b" },
        Parser { name: "a" },
    ];
    assert_eq!(
        Some(InvalidEventParserSpec("duplicate event parser for 'b'".into())),
        Decoder::try_from(parsers).err()
    );
}

#[test]
fn scenario_implements_debug() {
    let scenario = Scenario::<(), SampleEvent>::default();
    let s = format!("{scenario:?}");
    assert!(s.contains("Scenario"));
}

#[derive(Debug)]
struct IndexedEvent(usize);

impl StaticNamed for IndexedEvent {
    fn static_name() -> &'static str {
        "indexed"
    }
}

impl Event<TestState> for IndexedEvent {
    fn encode(&self) -> String {
        self.0.to_string()
    }

    fn apply(&self, _: &mut TestState, _: &mut Queue<'_, Self>) -> Result<(), TransitionError> {
        Err(TransitionError("not applicable".into()))
    }
}

fn indexed_events(range: Range<usize>) -> Vec<IndexedEvent> {
    range.into_iter().map(IndexedEvent).collect()
}

fn indexes(events: &[IndexedEvent]) -> Vec<usize> {
    events.iter().map(|event| event.encode().parse::<usize>().unwrap()).collect()
}

#[test]
fn static_name_gives_name() {
    assert_eq!("indexed", IndexedEvent(3).name());
}

#[test]
fn queue_past() {
    {
        let timeline = indexed_events(0..2);
        let queue = Queue::new(1, &timeline);
        assert_eq!(vec![] as Vec<usize>, indexes(queue.past()));
    }
    {
        let timeline = indexed_events(0..2);
        let queue = Queue::new(2, &timeline);
        assert_eq!(vec![0], indexes(queue.past()));
    }
}

#[test]
fn queue_future() {
    {
        let timeline = indexed_events(0..2);
        let queue = Queue::new(1, &timeline);
        assert_eq!(vec![1], indexes(queue.future()));
    }
    {
        let timeline = indexed_events(0..2);
        let queue = Queue::new(2, &timeline);
        assert_eq!(vec![] as Vec<usize>, indexes(queue.future()));
    }
}

#[test]
fn queue_implements_deref() {
    {
        let timeline = indexed_events(0..2);
        let queue = Queue::new(1, &timeline);
        assert_eq!(vec![1], indexes(&*queue));
    }
    {
        let timeline = indexed_events(0..2);
        let queue = Queue::new(2, &timeline);
        assert_eq!(vec![] as Vec<usize>, indexes(&*queue));
    }
}

#[test]
fn queue_implements_debug() {
    let timeline = indexed_events(0..3);
    let queue = Queue::new(1, &timeline);
    let s = format!("{:?}", &*queue);
    assert!(s.contains("[IndexedEvent(1), IndexedEvent(2)]"), "s={s}");
}

fn commit(queue: Queue<'_, IndexedEvent>) -> (usize, Vec<(usize, IndexedEvent)>) {
    let (offset, _, insertions) = queue.into_inner();
    (offset, insertions)
}

#[test]
fn queue_insert_later() {
    {
        let mut timeline = indexed_events(0..3);
        let mut queue = Queue::new(1, &timeline);
        queue.insert_later(0, IndexedEvent(10));
        let (offset, insertions) = commit(queue);
        process_insertions(offset, insertions, &mut timeline);
        assert_eq!(vec![0, 10, 1, 2], indexes(&timeline));
    }
    {
        let mut timeline = indexed_events(0..3);
        let mut queue = Queue::new(1, &timeline);
        queue.insert_later(1, IndexedEvent(10));
        let (offset, insertions) = commit(queue);
        process_insertions(offset, insertions, &mut timeline);
        assert_eq!(vec![0, 1, 10, 2], indexes(&timeline));
    }
    {
        let mut timeline = indexed_events(0..3);
        let mut queue = Queue::new(1, &timeline);
        queue.insert_later(2, IndexedEvent(10));
        queue.insert_later(2, IndexedEvent(20));
        queue.insert_later(2, IndexedEvent(30));
        let (offset, insertions) = commit(queue);
        process_insertions(offset, insertions, &mut timeline);
        assert_eq!(vec![0, 1, 2, 30, 20, 10], indexes(&timeline));
    }
}

#[test]
fn queue_push_later() {
    let mut timeline = indexed_events(0..3);
    let mut queue = Queue::new(1, &timeline);
    queue.push_later(IndexedEvent(10));
    queue.push_later(IndexedEvent(20));
    queue.push_later(IndexedEvent(30));
    let (offset, insertions) = commit(queue);
    process_insertions(offset, insertions, &mut timeline);
    assert_eq!(vec![0, 1, 2, 10, 20, 30], indexes(&timeline));
}

#[test]
fn queue_future_ignores_staged_insertions() {
    let timeline = indexed_events(0..3);
    let mut queue = Queue::new(2, &timeline);
    queue.push_later(IndexedEvent(10));
    assert_eq!(vec![2], indexes(queue.future()));
    assert_eq!(vec![0], indexes(queue.past()));
}

#[test]
fn queue_insert_later_at_staged_end() {
    let mut timeline = indexed_events(0..2);
    let mut queue = Queue::new(2, &timeline);
    queue.insert_later(0, IndexedEvent(10));
    queue.insert_later(1, IndexedEvent(20));
    queue.insert_later(0, IndexedEvent(30));
    let (offset, insertions) = commit(queue);
    process_insertions(offset, insertions, &mut timeline);
    assert_eq!(vec![0, 1, 30, 10, 20], indexes(&timeline));
}

#[test]
fn transition_error_message() {
    assert_eq!("boom", TransitionError("boom".into()).to_string());
}
