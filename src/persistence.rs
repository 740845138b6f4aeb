//! Persistence of a scenario: a flattened form of (name, encoding) pairs, and the checks that
//! frame reading and writing it.

pub mod yaml;

use crate::event::{
    decode_outcome, no_parser_message, Decoder, Event, Named, NamedEventParser, ParseEventError,
    Scenario,
};
use vstd::prelude::*;
use vstd::string::StringExecFns;

verus! {

/// A persistence-friendly form of an event: its name and its encoding.
#[derive(Debug, Clone, PartialEq, Eq)]
pub struct PersistentEvent {
    /// The name of the event.
    pub name: String,
    /// The encoded form of the event.
    pub encoded: String,
}

impl View for PersistentEvent {
    type V = (Seq<char>, Seq<char>);

    open spec fn view(&self) -> (Seq<char>, Seq<char>) {
        (self.name@, self.encoded@)
    }
}

/// A scenario in persistence-friendly form: the timeline is replaced by the events' names and
/// encodings.
#[derive(Debug, PartialEq, Eq)]
pub struct PersistentScenario<S> {
    /// Initial simulation state.
    pub initial: S,
    /// Timeline of encoded events.
    pub timeline: Vec<PersistentEvent>,
}

/// The (name, encoding) records of a timeline of events.
pub open spec fn event_records<S, E: Event<S>>(timeline: Seq<E>) -> Seq<(Seq<char>, Seq<char>)> {
    timeline.map_values(|e: E| (e.spec_name(), e.spec_encoding()))
}

/// Decoding `record` through `parsers` gives an event.
pub open spec fn decodes<P: NamedEventParser>(parsers: Seq<P>, record: (Seq<char>, Seq<char>)) -> bool {
    let outcome = decode_outcome(parsers, record.0, record.1);
    outcome is Some && outcome->Some_0 is Ok
}

/// Every record decodes.
pub open spec fn all_decode<P: NamedEventParser>(
    parsers: Seq<P>,
    records: Seq<(Seq<char>, Seq<char>)>,
) -> bool {
    forall|i: int| 0 <= i < records.len() ==> decodes(parsers, #[trigger] records[i])
}

/// The events that the records decode to.
pub open spec fn decoded_events<P: NamedEventParser>(
    parsers: Seq<P>,
    records: Seq<(Seq<char>, Seq<char>)>,
) -> Seq<P::Output> {
    records.map_values(
        |record: (Seq<char>, Seq<char>)| decode_outcome(parsers, record.0, record.1)->Some_0->Ok_0,
    )
}

/// `err` is the error that decoding `record` through `parsers` gives.
pub open spec fn decode_error<P: NamedEventParser>(
    parsers: Seq<P>,
    record: (Seq<char>, Seq<char>),
    err: ParseEventError,
) -> bool {
    match decode_outcome(parsers, record.0, record.1) {
        Some(outcome) => outcome == Err::<P::Output, ParseEventError>(err),
        None => err.0@ == no_parser_message(record.0),
    }
}

/// An event survives the round trip through its record: the parser for its name rebuilds, from
/// its encoding, an event with the same name and encoding.
pub open spec fn round_trips<S, P: NamedEventParser>(parsers: Seq<P>, event: P::Output) -> bool
    where
        P::Output: Event<S>,
{
    let outcome = decode_outcome(parsers, event.spec_name(), event.spec_encoding());
    &&& outcome is Some
    &&& outcome->Some_0 is Ok
    &&& outcome->Some_0->Ok_0.spec_name() == event.spec_name()
    &&& outcome->Some_0->Ok_0.spec_encoding() == event.spec_encoding()
}

impl<S> PersistentScenario<S> {
    /// The (name, encoding) records of the timeline.
    pub open spec fn records(&self) -> Seq<(Seq<char>, Seq<char>)> {
        self.timeline@.map_values(|p: PersistentEvent| p@)
    }

    /// Flattens `scenario`: a clone of its initial state, and each event's name and encoding, in
    /// timeline order.
    pub fn from<E: Event<S>>(scenario: &Scenario<S, E>) -> (r: Self)
        where
            S: Clone,
        ensures
            cloned(scenario.initial, r.initial),
            r.records() == event_records::<S, E>(scenario.timeline@),
    {
        let n = scenario.timeline.len();
        let mut timeline: Vec<PersistentEvent> = Vec::with_capacity(n);
        let mut i: usize = 0;
        while i < n
            invariant
                n == scenario.timeline@.len(),
                i <= n,
                timeline@.len() == i,
                timeline@.map_values(|p: PersistentEvent| p@) =~= event_records::<S, E>(
                    scenario.timeline@.take(i as int),
                ),
            decreases n - i,
        {
            let event = &scenario.timeline[i];
            let record = PersistentEvent { name: event.name(), encoded: event.encode() };
            let ghost before = timeline@;
            timeline.push(record);
            proof {
                let want = event_records::<S, E>(scenario.timeline@.take(i as int + 1));
                let got = timeline@.map_values(|p: PersistentEvent| p@);
                assert forall|k: int| 0 <= k < want.len() implies #[trigger] got[k] == want[k] by {
                    if k < i {
                        assert(timeline@[k] == before[k]);
                        assert(scenario.timeline@.take(i as int + 1)[k] == scenario.timeline@.take(i as int)[k]);
                        assert(before.map_values(|p: PersistentEvent| p@)[k] == event_records::<S, E>(
                            scenario.timeline@.take(i as int),
                        )[k]);
                    } else {
                        assert(scenario.timeline@.take(i as int + 1)[k] == scenario.timeline@[i as int]);
                        assert(timeline@[k] == record);
                    }
                }
                assert(got =~= want);
            }
            i = i + 1;
        }
        proof {
            assert(scenario.timeline@.take(n as int) =~= scenario.timeline@);
        }
        PersistentScenario { initial: scenario.initial.clone(), timeline }
    }

    /// Rebuilds the scenario, decoding each record in order through `decoder`. The first record
    /// that fails to decode aborts with its error; the initial state is carried over unchanged.
    pub fn decode<P: NamedEventParser>(self, decoder: &Decoder<P>) -> (r: Result<
        Scenario<S, P::Output>,
        ParseEventError,
    >)
        ensures
            r is Ok <==> all_decode(decoder.parsers_view(), self.records()),
            r is Ok ==> r->Ok_0.initial == self.initial && r->Ok_0.timeline@ == decoded_events(
                decoder.parsers_view(),
                self.records(),
            ),
            r is Err ==> exists|k: int|
                0 <= k < self.records().len() && all_decode(
                    decoder.parsers_view(),
                    #[trigger] self.records().take(k),
                ) && decode_error(decoder.parsers_view(), self.records()[k], r->Err_0),
    {
        let ghost parsers = decoder.parsers_view();
        let ghost records = self.records();
        let n = self.timeline.len();
        let mut timeline: Vec<P::Output> = Vec::with_capacity(n);
        let mut i: usize = 0;
        while i < n
            invariant
                n == self.timeline@.len(),
                records == self.records(),
                parsers == decoder.parsers_view(),
                i <= n,
                all_decode(parsers, records.take(i as int)),
                timeline@ =~= decoded_events(parsers, records.take(i as int)),
            decreases n - i,
        {
            let record = &self.timeline[i];
            let decoded = decoder.decode(record.name.as_str(), record.encoded.as_str());
            proof {
                assert(records[i as int] == record@);
            }
            match decoded {
                Ok(event) => {
                    timeline.push(event);
                    proof {
                        let next = records.take(i as int + 1);
                        assert(next.drop_last() =~= records.take(i as int));
                        assert forall|k: int| 0 <= k < next.len() implies decodes(parsers, #[trigger] next[k]) by {
                            if k < i {
                                assert(next[k] == records.take(i as int)[k]);
                            }
                        }
                    }
                },
                Err(err) => {
                    proof {
                        assert(decode_error(parsers, records[i as int], err));
                        assert(!decodes(parsers, records[i as int]));
                    }
                    return Err(err);
                },
            }
            i = i + 1;
        }
        proof {
            assert(records.take(n as int) =~= records);
        }
        Ok(Scenario { initial: self.initial, timeline })
    }
}

/// Decoding the records of a timeline whose events each survive the round trip succeeds, and
/// the decoded events have the same records again: flattening, decoding and flattening once more
/// gives back the timeline that was first flattened.
pub proof fn lemma_round_trip<S, P: NamedEventParser>(parsers: Seq<P>, timeline: Seq<P::Output>)
    where
        P::Output: Event<S>,
    requires
        forall|i: int| 0 <= i < timeline.len() ==> round_trips::<S, P>(parsers, #[trigger] timeline[i]),
    ensures
        all_decode(parsers, event_records::<S, P::Output>(timeline)),
        event_records::<S, P::Output>(decoded_events(parsers, event_records::<S, P::Output>(timeline)))
            == event_records::<S, P::Output>(timeline),
{
    let records = event_records::<S, P::Output>(timeline);
    assert forall|i: int| 0 <= i < records.len() implies decodes(parsers, #[trigger] records[i]) by {
        assert(round_trips::<S, P>(parsers, timeline[i]));
    }
    let again = event_records::<S, P::Output>(decoded_events(parsers, records));
    assert forall|i: int| 0 <= i < records.len() implies #[trigger] again[i] == records[i] by {
        assert(round_trips::<S, P>(parsers, timeline[i]));
    }
    assert(again =~= records);
}

/// What `std::path::Path::extension` makes of a path, as text; empty when there is none.
pub uninterp spec fn extension_of(path: Seq<char>) -> Seq<char>;

/// Relies on `std::path::Path::extension`: the extension of the path's final component, read
/// back as text (always possible for a path that came from a `str`), or empty when there is none.
#[verifier::external_body]
fn path_extension(path: &str) -> (r: String)
    ensures
        r@ == extension_of(path@),
{
    let ext = std::path::Path::new(path).extension();
    ext.and_then(|e| e.to_str()).unwrap_or_default().to_string()
}

/// The message of a file extension mismatch.
pub open spec fn extension_message(expected: Seq<char>, got: Seq<char>) -> Seq<char> {
    "expected file extension '"@ + expected + "', got '"@ + got + "'"@
}

/// Accepts the extension `ext` when it is `expected`; otherwise fails with a message naming both.
pub fn match_ext(ext: &str, expected: &str) -> (r: Result<(), UnsupportedFileFormatError>)
    ensures
        r is Ok <==> ext@ == expected@,
        r is Err ==> r->Err_0.0@ == extension_message(expected@, ext@),
{
    let got = ext.to_owned();
    let want = expected.to_owned();
    if got == want {
        Ok(())
    } else {
        let mut msg = "expected file extension '".to_owned();
        msg.append(expected);
        msg.append("', got '");
        msg.append(ext);
        msg.append("'");
        Err(UnsupportedFileFormatError(msg))
    }
}

/// Checks that the extension of `path` is `expected`.
pub fn check_ext(path: &str, expected: &str) -> (r: Result<(), UnsupportedFileFormatError>)
    ensures
        r is Ok <==> extension_of(path@) == expected@,
        r is Err ==> r->Err_0.0@ == extension_message(expected@, extension_of(path@)),
{
    let ext = path_extension(path);
    match_ext(ext.as_str(), expected)
}

/// `std::io::Error`, carried as an opaque value inside the error types below.
#[verifier::external_type_specification]
#[verifier::external_body]
pub struct ExIoError(std::io::Error);

/// Produced when a file's format does not match what a persistence format requires.
#[derive(Debug, Clone, PartialEq, Eq)]
pub struct UnsupportedFileFormatError(pub String);

impl UnsupportedFileFormatError {
    /// The error's message.
    pub fn to_string(&self) -> (r: String)
        ensures
            r@ == self.0@,
    {
        self.0.clone()
    }
}

/// Relies on the `Display` of `std::io::Error`: a description of the error.
#[verifier::external_body]
fn io_error_text(err: &std::io::Error) -> String {
    err.to_string()
}

/// `prefix` followed by `text`.
pub(crate) fn prefixed(prefix: &str, text: &str) -> (r: String)
    ensures
        r@ == prefix@ + text@,
{
    let mut msg = prefix.to_owned();
    msg.append(text);
    msg
}

/// Produced when a scenario could not be saved.
#[derive(Debug)]
pub enum WriteScenarioError {
    Io(std::io::Error),
    UnsupportedFileFormat(UnsupportedFileFormatError),
}

impl WriteScenarioError {
    /// The error's message: the kind of failure, then the underlying message.
    pub fn to_string(&self) -> (r: String)
        ensures
            self is Io ==> exists|text: Seq<char>| r@ == "io: "@ + text,
            self is UnsupportedFileFormat ==> r@ == "unsupported file format: "@
                + self->UnsupportedFileFormat_0.0@,
    {
        match self {
            WriteScenarioError::Io(err) => {
                let text = io_error_text(err);
                let r = prefixed("io: ", text.as_str());
                assert(r@ == "io: "@ + text@);
                r
            },
            WriteScenarioError::UnsupportedFileFormat(err) => prefixed("unsupported file format: ",
                err.0.as_str(),
            ),
        }
    }

    /// The I/O error, if this is one.
    pub fn io(self) -> (r: Option<std::io::Error>)
        ensures
            r == (match self {
                WriteScenarioError::Io(e) => Some(e),
                _ => None,
            }),
    {
        match self {
            WriteScenarioError::Io(err) => Some(err),
            WriteScenarioError::UnsupportedFileFormat(_) => None,
        }
    }

    /// The format error, if this is one.
    pub fn unsupported_file_format(self) -> (r: Option<UnsupportedFileFormatError>)
        ensures
            r == (match self {
                WriteScenarioError::UnsupportedFileFormat(e) => Some(e),
                _ => None,
            }),
    {
        match self {
            WriteScenarioError::Io(_) => None,
            WriteScenarioError::UnsupportedFileFormat(err) => Some(err),
        }
    }
}

/// Produced when a scenario could not be read.
#[derive(Debug)]
pub enum ReadScenarioError {
    Io(std::io::Error),
    UnsupportedFileFormat(UnsupportedFileFormatError),
    ParseEvent(crate::event::ParseEventError),
    /// The text could not be turned into a persisted scenario; carries the format's message.
    Deserializer(String),
}

impl ReadScenarioError {
    /// The error's message: the kind of failure, then the underlying message.
    pub fn to_string(&self) -> (r: String)
        ensures
            self is Io ==> exists|text: Seq<char>| r@ == "io: "@ + text,
            self is UnsupportedFileFormat ==> r@ == "unsupported file format: "@
                + self->UnsupportedFileFormat_0.0@,
            self is ParseEvent ==> r@ == "parse event: "@ + self->ParseEvent_0.0@,
            self is Deserializer ==> r@ == "deserializer: "@ + self->Deserializer_0@,
    {
        match self {
            ReadScenarioError::Io(err) => {
                let text = io_error_text(err);
                let r = prefixed("io: ", text.as_str());
                assert(r@ == "io: "@ + text@);
                r
            },
            ReadScenarioError::UnsupportedFileFormat(err) => prefixed("unsupported file format: ",
                err.0.as_str(),
            ),
            ReadScenarioError::ParseEvent(err) => prefixed("parse event: ", err.0.as_str()),
            ReadScenarioError::Deserializer(message) => prefixed("deserializer: ", message.as_str()),
        }
    }

    /// The I/O error, if this is one.
    pub fn io(self) -> (r: Option<std::io::Error>)
        ensures
            r == (match self {
                ReadScenarioError::Io(e) => Some(e),
                _ => None,
            }),
    {
        match self {
            ReadScenarioError::Io(err) => Some(err),
            _ => None,
        }
    }

    /// The format error, if this is one.
    pub fn unsupported_file_format(self) -> (r: Option<UnsupportedFileFormatError>)
        ensures
            r == (match self {
                ReadScenarioError::UnsupportedFileFormat(e) => Some(e),
                _ => None,
            }),
    {
        match self {
            ReadScenarioError::UnsupportedFileFormat(err) => Some(err),
            _ => None,
        }
    }

    /// The event parsing error, if this is one.
    pub fn parse_event(self) -> (r: Option<crate::event::ParseEventError>)
        ensures
            r == (match self {
                ReadScenarioError::ParseEvent(e) => Some(e),
                _ => None,
            }),
    {
        match self {
            ReadScenarioError::ParseEvent(err) => Some(err),
            _ => None,
        }
    }

    /// The deserializer's message, if this is such an error.
    pub fn deserializer(self) -> (r: Option<String>)
        ensures
            r == (match self {
                ReadScenarioError::Deserializer(e) => Some(e),
                _ => None,
            }),
    {
        match self {
            ReadScenarioError::Deserializer(err) => Some(err),
            _ => None,
        }
    }
}

} // verus!
