//! The YAML format of a persisted scenario: the extension its files carry, the carrier that
//! holds a value on its way to and from text, and the checks that frame reading and writing.

use crate::event::{Decoder, Event, NamedEventParser, Scenario};
use crate::persistence::{
    all_decode, check_ext, decode_error, decoded_events, event_records, extension_message,
    extension_of, PersistentScenario, ReadScenarioError, WriteScenarioError,
};
use vstd::prelude::*;

verus! {

/// The extension of YAML files.
pub const EXT: &'static str = "yaml";

/// A container for a value on its way to or from YAML text.
#[derive(Debug, PartialEq, Eq)]
pub struct Carrier<T>(pub T);

impl<T> Carrier<T> {
    /// Wraps `value`.
    pub fn from(value: T) -> (r: Self)
        ensures
            r.0 == value,
    {
        Carrier(value)
    }

    /// Unwraps the carried value.
    pub fn into_inner(self) -> (r: T)
        ensures
            r == self.0,
    {
        self.0
    }
}

/// Everything that writing `scenario` to the YAML file at `path` decides before touching the
/// file system: a path without the YAML extension is refused; otherwise the flattened scenario
/// that is to be serialized is returned.
pub fn prepare_write<S: Clone, E: Event<S>>(scenario: &Scenario<S, E>, path: &str) -> (r: Result<
    PersistentScenario<S>,
    WriteScenarioError,
>)
    ensures
        r is Ok <==> extension_of(path@) == EXT@,
        r is Err ==> (match r->Err_0 {
            WriteScenarioError::UnsupportedFileFormat(e) => e.0@ == extension_message(
                EXT@,
                extension_of(path@),
            ),
            _ => false,
        }),
        r is Ok ==> cloned(scenario.initial, r->Ok_0.initial) && r->Ok_0.records()
            == event_records::<S, E>(scenario.timeline@),
{
    match check_ext(path, EXT) {
        Err(err) => Err(WriteScenarioError::UnsupportedFileFormat(err)),
        Ok(()) => Ok(PersistentScenario::from(scenario)),
    }
}

/// Whether the file at `path` may be read as YAML, decided before touching the file system.
pub fn check_read_path(path: &str) -> (r: Result<(), ReadScenarioError>)
    ensures
        r is Ok <==> extension_of(path@) == EXT@,
        r is Err ==> (match r->Err_0 {
            ReadScenarioError::UnsupportedFileFormat(e) => e.0@ == extension_message(
                EXT@,
                extension_of(path@),
            ),
            _ => false,
        }),
{
    match check_ext(path, EXT) {
        Err(err) => Err(ReadScenarioError::UnsupportedFileFormat(err)),
        Ok(()) => Ok(()),
    }
}

/// Finishes reading: `loaded` is what deserializing the file's text gave (the deserializer's
/// message on failure), which is then decoded through `decoder`.
pub fn finish_read<S, P: NamedEventParser>(
    decoder: &Decoder<P>,
    loaded: Result<PersistentScenario<S>, String>,
) -> (r: Result<Scenario<S, P::Output>, ReadScenarioError>)
    ensures
        loaded is Err ==> r == Err::<Scenario<S, P::Output>, ReadScenarioError>(
            ReadScenarioError::Deserializer(loaded->Err_0),
        ),
        loaded is Ok ==> {
            let ps = loaded->Ok_0;
            let parsers = decoder.parsers_view();
            &&& r is Ok <==> all_decode(parsers, ps.records())
            &&& r is Ok ==> r->Ok_0.initial == ps.initial && r->Ok_0.timeline@ == decoded_events(
                parsers,
                ps.records(),
            )
            &&& r is Err ==> (match r->Err_0 {
                ReadScenarioError::ParseEvent(e) => exists|k: int|
                    0 <= k < ps.records().len() && all_decode(parsers, #[trigger] ps.records().take(k))
                        && decode_error(parsers, ps.records()[k], e),
                _ => false,
            })
        },
{
    match loaded {
        Err(message) => Err(ReadScenarioError::Deserializer(message)),
        Ok(persistent) => match persistent.decode(decoder) {
            Ok(scenario) => Ok(scenario),
            Err(err) => Err(ReadScenarioError::ParseEvent(err)),
        },
    }
}

} // verus!
