//! Events, the queue view handed to them, and the decoder that rebuilds them from text.

use vstd::pervasive::arbitrary;
use vstd::prelude::*;
use vstd::string::StringExecFns;

verus! {

/// Produced by [`Event::apply`] when an event cannot be evaluated.
#[derive(Debug, Clone, PartialEq, Eq)]
pub struct TransitionError(pub String);

impl TransitionError {
    /// The error's message.
    pub fn to_string(&self) -> (r: String)
        ensures
            r@ == self.0@,
    {
        self.0.clone()
    }
}

/// Produced when an event cannot be decoded from its encoded form.
#[derive(Debug, Clone, PartialEq, Eq)]
pub struct ParseEventError(pub String);

impl ParseEventError {
    /// The error's message.
    pub fn to_string(&self) -> (r: String)
        ensures
            r@ == self.0@,
    {
        self.0.clone()
    }
}

/// Raised when the parsers given to a [`Decoder`] conflict amongst themselves.
#[derive(Debug, Clone, PartialEq, Eq)]
pub struct InvalidEventParserSpec(pub String);

impl InvalidEventParserSpec {
    /// The error's message.
    pub fn to_string(&self) -> (r: String)
        ensures
            r@ == self.0@,
    {
        self.0.clone()
    }
}

/// An entity that has a string-like name.
pub trait Named {
    /// The name, as a sequence of characters.
    closed spec fn spec_name(&self) -> Seq<char> {
        arbitrary()
    }

    /// The name of this entity.
    fn name(&self) -> (r: String)
        ensures
            r@ == self.spec_name(),
    ;
}

/// Something whose name does not depend on the instance.
pub trait StaticNamed {
    /// The name shared by every value of the type.
    closed spec fn spec_static_name() -> Seq<char> {
        arbitrary()
    }

    /// The static name of this type.
    fn static_name() -> (r: &'static str)
        ensures
            r@ == Self::spec_static_name(),
    ;
}

/// Every type with a static name is named, each value carrying the name of its type.
impl<N: StaticNamed> Named for N {
    open spec fn spec_name(&self) -> Seq<char> {
        N::spec_static_name()
    }

    fn name(&self) -> (r: String) {
        let s = N::static_name();
        s.to_string()
    }
}

/// A discrete event: a named, string-encodable transition of a state of type `S`.
///
/// What an application does is described by three spec functions of the state it is applied to
/// and of the queue view it is given (the events already applied, and those still to come):
/// the state it leaves, whether it succeeds, and the insertions it stages. The engine's
/// contracts are stated over them.
///
/// The spec functions of this trait and of [`Named`], [`StaticNamed`] and [`NamedEventParser`]
/// have placeholder defaults, so that implementations written outside verification compile; a
/// verified implementation defines them, and its methods are held to them.
pub trait Event<S>: Named + Sized {
    /// The canonical encoding of the event.
    closed spec fn spec_encoding(&self) -> Seq<char> {
        arbitrary()
    }

    /// The state left behind by applying the event.
    closed spec fn next_state(&self, state: S, past: Seq<Self>, future: Seq<Self>) -> S {
        arbitrary()
    }

    /// Whether applying the event succeeds.
    closed spec fn outcome(&self, state: S, past: Seq<Self>, future: Seq<Self>) -> Result<(), TransitionError> {
        arbitrary()
    }

    /// The insertions, as (index into the future, event), that the event stages, in order.
    closed spec fn staged(&self, state: S, past: Seq<Self>, future: Seq<Self>) -> Seq<(usize, Self)> {
        arbitrary()
    }

    /// The canonical encoding, consumed by the event's own parser.
    fn encode(&self) -> (r: String)
        ensures
            r@ == self.spec_encoding(),
    ;

    /// Evaluates the event, mutating `state` in place and staging future events on `queue`.
    /// Staged events join the timeline only after this method returns.
    fn apply(&self, state: &mut S, queue: &mut Queue<'_, Self>) -> (r: Result<(), TransitionError>)
        requires
            old(queue).wf(),
        ensures
            final(queue).wf(),
            final(queue).offset() == old(queue).offset(),
            final(queue).timeline() == old(queue).timeline(),
            final(queue).pending() == old(queue).pending() + self.staged(
                *old(state),
                old(queue).past_view(),
                old(queue).future_view(),
            ),
            *final(state) == self.next_state(*old(state), old(queue).past_view(), old(queue).future_view()),
            r == self.outcome(*old(state), old(queue).past_view(), old(queue).future_view()),
    ;
}

/// The timeline that results from splicing each staged `(index, event)` in turn into
/// `timeline` at position `offset + index`.
pub open spec fn commit_spec<E>(timeline: Seq<E>, offset: nat, staged: Seq<(usize, E)>) -> Seq<E>
    decreases staged.len(),
{
    if staged.len() == 0 {
        timeline
    } else {
        let last = staged.last();
        commit_spec(timeline, offset, staged.drop_last()).insert(offset + last.0, last.1)
    }
}

/// Whether every staged insertion lands within the timeline as it stands when its turn comes.
pub open spec fn staging_fits<E>(len: nat, offset: nat, staged: Seq<(usize, E)>) -> bool {
    &&& offset <= len
    &&& forall|i: int| 0 <= i < staged.len() ==> #[trigger] staged[i].0 <= (len - offset) + i
}

/// Splicing staged insertions that fit grows the timeline by their number.
pub proof fn lemma_commit_len<E>(timeline: Seq<E>, offset: nat, staged: Seq<(usize, E)>)
    requires
        staging_fits(timeline.len(), offset, staged),
    ensures
        commit_spec(timeline, offset, staged).len() == timeline.len() + staged.len(),
    decreases staged.len(),
{
    if staged.len() > 0 {
        let prefix = staged.drop_last();
        assert forall|i: int| 0 <= i < prefix.len() implies #[trigger] prefix[i].0 <= (timeline.len() - offset) + i by {
            assert(prefix[i] == staged[i]);
        }
        lemma_commit_len(timeline, offset, prefix);
        assert(staged[staged.len() - 1].0 <= (timeline.len() - offset) + (staged.len() - 1));
    }
}

/// Insertions staged at one index land at that position in the reverse of the order they were
/// staged in, ahead of the events that were already there.
pub proof fn lemma_same_index_reversed<E>(
    timeline: Seq<E>,
    offset: nat,
    index: usize,
    staged: Seq<(usize, E)>,
)
    requires
        offset + index <= timeline.len(),
        forall|k: int| 0 <= k < staged.len() ==> #[trigger] staged[k].0 == index,
    ensures
        commit_spec(timeline, offset, staged) == timeline.take(offset + index) + staged.map_values(
            |p: (usize, E)| p.1,
        ).reverse() + timeline.skip(offset + index),
    decreases staged.len(),
{
    let at = offset + index;
    let events = staged.map_values(|p: (usize, E)| p.1);
    if staged.len() == 0 {
        assert(timeline.take(at) + events.reverse() + timeline.skip(at) =~= timeline);
    } else {
        let prefix = staged.drop_last();
        let last = staged.last();
        assert forall|k: int| 0 <= k < prefix.len() implies #[trigger] prefix[k].0 == index by {
            assert(prefix[k] == staged[k]);
        }
        lemma_same_index_reversed(timeline, offset, index, prefix);
        let before = prefix.map_values(|p: (usize, E)| p.1);
        let middle = before.reverse();
        let rev = events.reverse();
        assert(last.0 == index);
        assert(rev.len() == middle.len() + 1);
        assert forall|k: int| 0 <= k < rev.len() implies #[trigger] rev[k] == seq![last.1].add(middle)[k] by {
            if k > 0 {
                assert(events[events.len() - 1 - k] == before[before.len() - 1 - (k - 1)]);
            }
        }
        assert(rev =~= seq![last.1].add(middle));
        let prev = timeline.take(at) + middle + timeline.skip(at);
        assert(prev.insert(at as int, last.1) =~= timeline.take(at) + rev + timeline.skip(at));
    }
}

/// Splices staged insertions into `timeline`, in the order they were staged, each at absolute
/// position `offset + index`.
pub fn process_insertions<E>(offset: usize, insertions: Vec<(usize, E)>, timeline: &mut Vec<E>)
    requires
        staging_fits(old(timeline)@.len(), offset as nat, insertions@),
    ensures
        final(timeline)@ == commit_spec(old(timeline)@, offset as nat, insertions@),
{
    let ghost t0 = timeline@;
    let ghost all = insertions@;
    let total = insertions.len();
    let mut rest = insertions;
    let mut done: usize = 0;
    while rest.len() > 0
        invariant
            staging_fits(t0.len(), offset as nat, all),
            done + rest@.len() == total,
            total == all.len(),
            rest@ == all.skip(done as int),
            timeline@ == commit_spec(t0, offset as nat, all.take(done as int)),
        decreases rest@.len(),
    {
        let ghost before = all.take(done as int);
        let (index, event) = rest.remove(0);
        proof {
            assert(all[done as int] == (index, event));
            let next = all.take(done as int + 1);
            assert(next.drop_last() =~= before);
            assert(next.last() == (index, event));
            assert forall|i: int| 0 <= i < before.len() implies #[trigger] before[i].0 <= (t0.len() - offset) + i by {
                assert(before[i] == all[i]);
            }
            lemma_commit_len(t0, offset as nat, before);
            assert(index <= (t0.len() - offset) + done);
        }
        let len = timeline.len();
        assert(offset + index <= len);
        timeline.insert(offset + index, event);
        done = done + 1;
        proof {
            assert(rest@ =~= all.skip(done as int));
        }
    }
    proof {
        assert(all.take(done as int) =~= all);
    }
}

/// A view over the event timeline, handed to an event while it is applied. The timeline is
/// notionally split into past events (already applied), the current event (being applied) and
/// future events. Insertions are staged here and join the timeline only after the event returns.
pub struct Queue<'a, E> {
    offset: usize,
    timeline: &'a Vec<E>,
    insertions: Vec<(usize, E)>,
}

impl<'a, E> Queue<'a, E> {
    /// Index of the first future event.
    pub closed spec fn offset(&self) -> nat {
        self.offset as nat
    }

    /// The whole underlying timeline.
    pub closed spec fn timeline(&self) -> Seq<E> {
        self.timeline@
    }

    /// Insertions staged so far, in the order they were staged.
    pub closed spec fn pending(&self) -> Seq<(usize, E)> {
        self.insertions@
    }

    /// Events before the current one.
    pub open spec fn past_view(&self) -> Seq<E> {
        self.timeline().take(self.offset() - 1)
    }

    /// Events after the current one.
    pub open spec fn future_view(&self) -> Seq<E> {
        self.timeline().skip(self.offset() as int)
    }

    /// The number of future events plus the insertions staged so far: the largest index at
    /// which an insertion may be staged now.
    pub open spec fn limit(&self) -> nat {
        self.future_view().len() + self.pending().len()
    }

    /// The offset points past the current event, and every staged insertion fits.
    pub open spec fn wf(&self) -> bool {
        &&& 1 <= self.offset() <= self.timeline().len()
        &&& staging_fits(self.timeline().len(), self.offset(), self.pending())
    }

    /// Creates a queue over `timeline`; `offset` is the index of the first future event, the
    /// immediate successor of the event being applied.
    pub fn new(offset: usize, timeline: &'a Vec<E>) -> (r: Self)
        requires
            1 <= offset <= timeline@.len(),
        ensures
            r.wf(),
            r.offset() == offset,
            r.timeline() == timeline@,
            r.pending() == Seq::<(usize, E)>::empty(),
    {
        Queue { offset, timeline, insertions: Vec::new() }
    }

    /// Stages `event` for insertion at `index`, counted over the future events followed by the
    /// insertions already staged.
    pub fn insert_later(&mut self, index: usize, event: E)
        requires
            old(self).wf(),
            index <= old(self).limit(),
        ensures
            final(self).wf(),
            final(self).offset() == old(self).offset(),
            final(self).timeline() == old(self).timeline(),
            final(self).pending() == old(self).pending().push((index, event)),
    {
        let ghost before = self.insertions@;
        self.insertions.push((index, event));
        proof {
            let after = self.insertions@;
            assert forall|i: int| 0 <= i < after.len() implies #[trigger] after[i].0 <= (self.timeline@.len() - self.offset) + i by {
                if i < before.len() {
                    assert(after[i] == before[i]);
                }
            }
        }
    }

    /// Stages `event` for insertion at the end of the future events and earlier insertions.
    pub fn push_later(&mut self, event: E)
        requires
            old(self).wf(),
            old(self).limit() <= usize::MAX,
        ensures
            final(self).wf(),
            final(self).offset() == old(self).offset(),
            final(self).timeline() == old(self).timeline(),
            final(self).pending() == old(self).pending().push((old(self).limit() as usize, event)),
    {
        let index = (self.timeline.len() - self.offset) + self.insertions.len();
        self.insert_later(index, event);
    }

    /// The past (already applied) events.
    pub fn past(&self) -> (r: &[E])
        requires
            self.wf(),
        ensures
            r@ == self.past_view(),
    {
        vstd::slice::slice_subrange(self.timeline.as_slice(), 0, self.offset - 1)
    }

    /// The future events, excluding the current one. Staged insertions do not show here.
    pub fn future(&self) -> (r: &[E])
        requires
            self.wf(),
        ensures
            r@ == self.future_view(),
    {
        vstd::slice::slice_subrange(self.timeline.as_slice(), self.offset, self.timeline.len())
    }

    /// Consumes the queue, returning its offset, its timeline and its staged insertions.
    pub fn into_inner(self) -> (r: (usize, &'a Vec<E>, Vec<(usize, E)>))
        ensures
            r.0 == self.offset(),
            r.1@ == self.timeline(),
            r.2@ == self.pending(),
    {
        (self.offset, self.timeline, self.insertions)
    }
}

/// Dereferencing a queue gives its future events.
impl<'a, E> core::ops::Deref for Queue<'a, E> {
    type Target = [E];

    fn deref(&self) -> (r: &[E])
        ensures
            self.wf() ==> r@ == self.future_view(),
    {
        let start = if self.offset <= self.timeline.len() {
            self.offset
        } else {
            self.timeline.len()
        };
        vstd::slice::slice_subrange(self.timeline.as_slice(), start, self.timeline.len())
    }
}

/// A complete simulation scenario: the initial state and a timeline of events.
#[derive(Debug)]
pub struct Scenario<S, E> {
    /// The initial simulation state.
    pub initial: S,
    /// Timeline of events.
    pub timeline: Vec<E>,
}

impl<S: Default, E> Default for Scenario<S, E> {
    fn default() -> (r: Self)
        ensures
            r.timeline@.len() == 0,
    {
        Scenario { initial: S::default(), timeline: Vec::new() }
    }
}

/// A parser that rebuilds events from their encoded form, under the parser's name.
pub trait NamedEventParser: Named {
    /// The type of the events it builds.
    type Output;

    /// What parsing `encoded` gives.
    closed spec fn parse_spec(&self, encoded: Seq<char>) -> Result<Self::Output, ParseEventError> {
        arbitrary()
    }

    /// Constructs an event from its encoded form.
    fn parse(&self, encoded: &str) -> (r: Result<Self::Output, ParseEventError>)
        ensures
            r == self.parse_spec(encoded@),
    ;
}

/// The first parser in `parsers` that goes by `name`.
pub open spec fn parser_for<P: Named>(parsers: Seq<P>, name: Seq<char>) -> Option<P>
    decreases parsers.len(),
{
    if parsers.len() == 0 {
        None
    } else if parsers[0].spec_name() == name {
        Some(parsers[0])
    } else {
        parser_for(parsers.drop_first(), name)
    }
}

/// No two parsers share a name.
pub open spec fn names_distinct<P: Named>(parsers: Seq<P>) -> bool {
    forall|i: int, j: int|
        0 <= i < j < parsers.len() ==> #[trigger] parsers[i].spec_name() != #[trigger] parsers[j].spec_name()
}

/// The message of the error for a name that no parser goes by.
pub open spec fn no_parser_message(name: Seq<char>) -> Seq<char> {
    "no event parser for '"@ + name + "'"@
}

/// The message of the error for a parser name given twice.
pub open spec fn duplicate_parser_message(name: Seq<char>) -> Seq<char> {
    "duplicate event parser for '"@ + name + "'"@
}

/// What decoding `(name, encoded)` through `parsers` gives: `None` when no parser goes by
/// `name`, else what that parser makes of `encoded`.
pub open spec fn decode_outcome<P: NamedEventParser>(
    parsers: Seq<P>,
    name: Seq<char>,
    encoded: Seq<char>,
) -> Option<Result<P::Output, ParseEventError>> {
    match parser_for(parsers, name) {
        Some(p) => Some(p.parse_spec(encoded)),
        None => None,
    }
}

proof fn lemma_parser_for_skip<P: Named>(parsers: Seq<P>, name: Seq<char>, i: int)
    requires
        0 <= i < parsers.len(),
        parsers[i].spec_name() != name,
    ensures
        parser_for(parsers.skip(i), name) == parser_for(parsers.skip(i + 1), name),
{
    assert(parsers.skip(i).drop_first() =~= parsers.skip(i + 1));
    assert(parsers.skip(i)[0] == parsers[i]);
}

/// Builds `prefix` followed by `name` in single quotes.
fn quoted(prefix: &str, name: &str) -> (r: String)
    ensures
        r@ == prefix@ + name@ + "'"@,
{
    let mut msg = prefix.to_owned();
    msg.append(name);
    msg.append("'");
    msg
}

/// Decodes a `(name, encoded)` pair into an event, through a registry of parsers keyed by name.
pub struct Decoder<P> {
    by_name: Vec<P>,
}

impl<P: NamedEventParser> Decoder<P> {
    /// The registered parsers.
    pub closed spec fn parsers_view(&self) -> Seq<P> {
        self.by_name@
    }

    /// Creates a decoder from parsers whose names are distinct.
    pub fn new(parsers: Vec<P>) -> (r: Self)
        requires
            names_distinct(parsers@),
        ensures
            r.parsers_view() == parsers@,
    {
        Decoder { by_name: parsers }
    }

    /// Creates a decoder, failing on the first parser whose name an earlier one already has.
    pub fn try_from(parsers: Vec<P>) -> (r: Result<Self, InvalidEventParserSpec>)
        ensures
            r is Ok <==> names_distinct(parsers@),
            r is Ok ==> r->Ok_0.parsers_view() == parsers@,
            r is Err ==> exists|j: int|
                0 <= j < parsers@.len() && names_distinct(#[trigger] parsers@.take(j)) && (exists|i: int|
                    0 <= i < j && parsers@[i].spec_name() == parsers@[j].spec_name())
                    && r->Err_0.0@ == duplicate_parser_message(parsers@[j].spec_name()),
    {
        let n = parsers.len();
        let mut j: usize = 0;
        while j < n
            invariant
                n == parsers@.len(),
                j <= n,
                names_distinct(parsers@.take(j as int)),
            decreases n - j,
        {
            let name = parsers[j].name();
            let mut i: usize = 0;
            while i < j
                invariant
                    n == parsers@.len(),
                    i <= j < n,
                    names_distinct(parsers@.take(j as int)),
                    name@ == parsers@[j as int].spec_name(),
                    forall|k: int| 0 <= k < i ==> parsers@[k].spec_name() != name@,
                decreases j - i,
            {
                let other = parsers[i].name();
                if other == name {
                    let msg = quoted("duplicate event parser for '", name.as_str());
                    proof {
                        assert(msg@ == duplicate_parser_message(parsers@[j as int].spec_name()));
                        assert(parsers@[i as int].spec_name() == parsers@[j as int].spec_name());
                        assert(names_distinct(parsers@.take(j as int)));
                    }
                    return Err(InvalidEventParserSpec(msg));
                }
                i = i + 1;
            }
            proof {
                let t = parsers@.take(j as int + 1);
                assert forall|a: int, b: int| 0 <= a < b < t.len() implies #[trigger] t[a].spec_name() != #[trigger] t[b].spec_name() by {
                    if b < j {
                        assert(parsers@.take(j as int)[a] == t[a]);
                        assert(parsers@.take(j as int)[b] == t[b]);
                    }
                }
            }
            j = j + 1;
        }
        proof {
            assert(parsers@.take(n as int) =~= parsers@);
        }
        Ok(Decoder { by_name: parsers })
    }

    /// The registered parsers.
    pub fn parsers(&self) -> (r: &[P])
        ensures
            r@ == self.parsers_view(),
    {
        self.by_name.as_slice()
    }

    /// Decodes `encoded` with the parser that goes by `name`. A name that no parser goes by is
    /// an error; otherwise the parser's own result is returned unchanged.
    pub fn decode(&self, name: &str, encoded: &str) -> (r: Result<P::Output, ParseEventError>)
        ensures
            decode_outcome(self.parsers_view(), name@, encoded@) == Some(r)
                || (decode_outcome(self.parsers_view(), name@, encoded@) is None && r is Err
                && r->Err_0.0@ == no_parser_message(name@)),
    {
        let target = name.to_owned();
        let n = self.by_name.len();
        let mut i: usize = 0;
        proof {
            assert(self.by_name@.skip(0) =~= self.by_name@);
        }
        while i < n
            invariant
                n == self.by_name@.len(),
                i <= n,
                target@ == name@,
                parser_for(self.by_name@, name@) == parser_for(self.by_name@.skip(i as int), name@),
            decreases n - i,
        {
            let parser = &self.by_name[i];
            let parser_name = parser.name();
            if parser_name == target {
                proof {
                    assert(self.by_name@.skip(i as int)[0] == self.by_name@[i as int]);
                }
                return parser.parse(encoded);
            }
            proof {
                lemma_parser_for_skip(self.by_name@, name@, i as int);
            }
            i = i + 1;
        }
        Err(ParseEventError(quoted("no event parser for '", name)))
    }
}

} // verus!
