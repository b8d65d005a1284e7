//! The client that runs one query: it connects its transport, collects every
//! message that the CLI sends until the stream ends, and closes the transport.
//!
//! The waiting on the transport happens outside this module; what is decided
//! here is, for each thing that the transport reports, what the client does
//! next ([`MessageCollector::step`]).

use vstd::prelude::*;
use crate::errors::ClaudeError;

verus! {

/// Client for processing queries over a transport to the CLI.
pub struct InternalClient<T> {
    transport: T,
}

impl<T> InternalClient<T> {
    pub closed spec fn spec_transport(&self) -> T {
        self.transport
    }

    /// Creates a client over the transport that was made for the query; a
    /// transport that could not be made is the client's error.
    pub fn new(transport: Result<T, ClaudeError>) -> (res: Result<Self, ClaudeError>)
        ensures
            match transport {
                Ok(t) => res matches Ok(client) && client.spec_transport() == t,
                Err(e) => res matches Err(e2) && e2 == e,
            },
    {
        match transport {
            Ok(transport) => Ok(InternalClient { transport }),
            Err(e) => Err(e),
        }
    }

    pub fn transport(&self) -> (res: &T)
        ensures
            *res == self.spec_transport(),
    {
        &self.transport
    }

    /// Gives up the client for its transport, to run the query on it.
    pub fn into_transport(self) -> (res: T)
        ensures
            res == self.spec_transport(),
    {
        self.transport
    }
}

/// Where a query run stands.
#[derive(Debug, Clone, Copy, PartialEq, Eq, Structural)]
pub enum ExecutePhase {
    /// Waiting for the transport to connect.
    Connecting,
    /// Reading messages from the stream.
    Reading,
    /// Waiting for the transport to close.
    Closing,
    /// The run is over.
    Done,
}

/// What the transport reported.
pub enum ExecuteEvent<M> {
    /// The transport connected, or failed to.
    Connected(Result<(), ClaudeError>),
    /// The stream gave a document, with what parsing it gave.
    Received(Result<M, ClaudeError>),
    /// The stream gave an error in place of a document.
    ReadFailed(ClaudeError),
    /// The stream has no more documents.
    StreamEnded,
    /// The transport closed, or failed to.
    Closed(Result<(), ClaudeError>),
}

/// What the client does next.
pub enum ExecuteAction<M> {
    /// Wait for the next document of the stream.
    ReadNext,
    /// Warn about a message of unknown type, then wait for the next document.
    Skip(ClaudeError),
    /// Close the transport.
    Close,
    /// End the run with this error.
    Fail(ClaudeError),
    /// End the run with these messages.
    Finish(Vec<M>),
}

/// Whether a parse outcome ends the run: every error but an unknown message type does.
pub open spec fn is_fatal<M>(outcome: Result<M, ClaudeError>) -> bool {
    outcome matches Err(e) && !(e is UnknownMessageType)
}

/// What reading the documents with these parse outcomes gives, after the
/// messages `collected`: the messages in order of arrival, unknown message
/// types passed over, or the first error that ends the run.
pub open spec fn collect_from<M>(collected: Seq<M>, outcomes: Seq<Result<M, ClaudeError>>) -> Result<Seq<M>, ClaudeError>
    decreases outcomes.len(),
{
    if outcomes.len() == 0 {
        Ok(collected)
    } else {
        match outcomes[0] {
            Ok(m) => collect_from(collected.push(m), outcomes.drop_first()),
            Err(e) => if e is UnknownMessageType {
                collect_from(collected, outcomes.drop_first())
            } else {
                Err(e)
            },
        }
    }
}

/// What reading a whole stream with these parse outcomes gives.
pub open spec fn collect_outcomes<M>(outcomes: Seq<Result<M, ClaudeError>>) -> Result<Seq<M>, ClaudeError> {
    collect_from(Seq::empty(), outcomes)
}

/// The messages among these parse outcomes, in order.
pub open spec fn ok_values<M>(outcomes: Seq<Result<M, ClaudeError>>) -> Seq<M>
    decreases outcomes.len(),
{
    if outcomes.len() == 0 {
        Seq::empty()
    } else {
        match outcomes[0] {
            Ok(m) => seq![m] + ok_values(outcomes.drop_first()),
            Err(_) => ok_values(outcomes.drop_first()),
        }
    }
}

/// Whether a parse outcome is only an unknown message type.
pub open spec fn is_unknown_type<M>(outcome: Result<M, ClaudeError>) -> bool {
    outcome matches Err(e) && e is UnknownMessageType
}

/// A stream in which no document fails gives every message, in order of
/// arrival, with the messages of unknown type left out.
pub proof fn lemma_collect_without_failure<M>(collected: Seq<M>, outcomes: Seq<Result<M, ClaudeError>>)
    requires
        forall|i: int| 0 <= i < outcomes.len() ==> !is_fatal(#[trigger] outcomes[i]),
    ensures
        collect_from(collected, outcomes) == Ok::<Seq<M>, ClaudeError>(collected + ok_values(outcomes)),
    decreases outcomes.len(),
{
    if outcomes.len() == 0 {
        assert(collected + ok_values(outcomes) =~= collected);
    } else {
        assert(!is_fatal(outcomes[0]));
        let rest = outcomes.drop_first();
        assert forall|i: int| 0 <= i < rest.len() implies !is_fatal(#[trigger] rest[i]) by {
            assert(rest[i] == outcomes[i + 1]);
        }
        match outcomes[0] {
            Ok(m) => {
                lemma_collect_without_failure(collected.push(m), rest);
                assert(collected.push(m) + ok_values(rest) =~= collected + (seq![m] + ok_values(rest)));
            },
            Err(_) => {
                lemma_collect_without_failure(collected, rest);
            },
        }
    }
}

/// The first document that fails for another reason than an unknown type
/// ends the run with its error, whatever comes after it.
pub proof fn lemma_collect_stops_at_first_failure<M>(
    collected: Seq<M>,
    outcomes: Seq<Result<M, ClaudeError>>,
    k: int,
)
    requires
        0 <= k < outcomes.len(),
        is_fatal(outcomes[k]),
        forall|i: int| 0 <= i < k ==> !is_fatal(#[trigger] outcomes[i]),
    ensures
        collect_from(collected, outcomes) == Err::<Seq<M>, ClaudeError>(outcomes[k]->Err_0),
    decreases k,
{
    if k == 0 {
    } else {
        assert(!is_fatal(outcomes[0]));
        let rest = outcomes.drop_first();
        assert(rest[k - 1] == outcomes[k]);
        assert forall|i: int| 0 <= i < k - 1 implies !is_fatal(#[trigger] rest[i]) by {
            assert(rest[i] == outcomes[i + 1]);
        }
        match outcomes[0] {
            Ok(m) => lemma_collect_stops_at_first_failure(collected.push(m), rest, k - 1),
            Err(_) => lemma_collect_stops_at_first_failure(collected, rest, k - 1),
        }
    }
}

/// The parse outcomes left when the documents of unknown type are taken out.
pub open spec fn without_unknown_types<M>(outcomes: Seq<Result<M, ClaudeError>>) -> Seq<Result<M, ClaudeError>> {
    outcomes.filter(|o: Result<M, ClaudeError>| !is_unknown_type(o))
}

/// Documents of unknown type change nothing in reading a stream: it gives
/// what it would give had they never been sent.
pub proof fn lemma_unknown_types_are_transparent<M>(collected: Seq<M>, outcomes: Seq<Result<M, ClaudeError>>)
    ensures
        collect_from(collected, outcomes) == collect_from(collected, without_unknown_types(outcomes)),
    decreases outcomes.len(),
{
    let keep = |o: Result<M, ClaudeError>| !is_unknown_type(o);
    if outcomes.len() == 0 {
        reveal(Seq::filter);
    } else {
        let first = outcomes[0];
        let rest = outcomes.drop_first();
        assert(outcomes =~= seq![first] + rest);
        rest.lemma_filter_prepend(first, keep);
        let filtered = outcomes.filter(keep);
        if keep(first) {
            assert(filtered =~= seq![first] + rest.filter(keep));
            assert(filtered[0] == first);
            assert(filtered.drop_first() =~= rest.filter(keep));
            match first {
                Ok(m) => lemma_unknown_types_are_transparent(collected.push(m), rest),
                Err(_) => {},
            }
        } else {
            assert(filtered =~= rest.filter(keep));
            lemma_unknown_types_are_transparent(collected, rest);
        }
    }
}

/// What a whole run gives: the outcome of connecting, what parsing each
/// document of the stream gave, the error with which the stream broke off
/// after those documents (none where it ended), and the outcome of closing.
pub open spec fn run_outcome<M>(
    connected: Result<(), ClaudeError>,
    outcomes: Seq<Result<M, ClaudeError>>,
    read_error: Option<ClaudeError>,
    closed: Result<(), ClaudeError>,
) -> Result<Seq<M>, ClaudeError> {
    match connected {
        Err(e) => Err(e),
        Ok(()) => match collect_outcomes(outcomes) {
            Err(e) => Err(e),
            Ok(messages) => match read_error {
                Some(e) => Err(e),
                None => match closed {
                    Ok(()) => Ok(messages),
                    Err(e) => Err(e),
                },
            },
        },
    }
}

/// Documents of unknown type change nothing in a whole run, whatever the
/// transport does when connecting, reading and closing: two streams that
/// differ only in documents of unknown type, anywhere and any number of
/// them, give the same messages or the same error.
pub proof fn lemma_unknown_types_change_no_run<M>(
    connected: Result<(), ClaudeError>,
    outcomes1: Seq<Result<M, ClaudeError>>,
    outcomes2: Seq<Result<M, ClaudeError>>,
    read_error: Option<ClaudeError>,
    closed: Result<(), ClaudeError>,
)
    requires
        without_unknown_types(outcomes1) == without_unknown_types(outcomes2),
    ensures
        run_outcome(connected, outcomes1, read_error, closed) == run_outcome(
            connected,
            outcomes2,
            read_error,
            closed,
        ),
{
    lemma_unknown_types_are_transparent(Seq::<M>::empty(), outcomes1);
    lemma_unknown_types_are_transparent(Seq::<M>::empty(), outcomes2);
}

/// How a whole run answers, whatever the stream holds: a failed connect
/// ends it with that error; otherwise the first document that fails for
/// another reason than an unknown type ends it with its error; otherwise a
/// stream that breaks off ends it with the stream's error, whether or not
/// messages came before; otherwise a failed close ends it with that error;
/// and only a run in which nothing failed gives the messages, in order,
/// without those of unknown type.
pub proof fn lemma_run_answers<M>(
    connected: Result<(), ClaudeError>,
    outcomes: Seq<Result<M, ClaudeError>>,
    read_error: Option<ClaudeError>,
    closed: Result<(), ClaudeError>,
)
    ensures
        connected matches Err(e) ==> run_outcome(connected, outcomes, read_error, closed)
            == Err::<Seq<M>, ClaudeError>(e),
        connected is Ok ==> forall|k: int|
            0 <= k < outcomes.len() && is_fatal(#[trigger] outcomes[k])
                && (forall|j: int| 0 <= j < k ==> !is_fatal(outcomes[j]))
                ==> run_outcome(connected, outcomes, read_error, closed)
                == Err::<Seq<M>, ClaudeError>(outcomes[k]->Err_0),
        connected is Ok && (forall|j: int| 0 <= j < outcomes.len() ==> !is_fatal(#[trigger] outcomes[j]))
            ==> {
            &&& read_error matches Some(e) ==> run_outcome(connected, outcomes, read_error, closed)
                == Err::<Seq<M>, ClaudeError>(e)
            &&& read_error is None ==> (closed matches Err(e) ==> run_outcome(
                connected,
                outcomes,
                read_error,
                closed,
            ) == Err::<Seq<M>, ClaudeError>(e))
            &&& read_error is None && closed is Ok ==> run_outcome(connected, outcomes, read_error, closed)
                == Ok::<Seq<M>, ClaudeError>(ok_values(outcomes))
        },
        run_outcome(connected, outcomes, read_error, closed) is Ok ==> {
            &&& connected is Ok
            &&& read_error is None
            &&& closed is Ok
            &&& forall|j: int| 0 <= j < outcomes.len() ==> !is_fatal(#[trigger] outcomes[j])
        },
{
    if connected is Ok {
        assert forall|k: int|
            0 <= k < outcomes.len() && is_fatal(#[trigger] outcomes[k])
                && (forall|j: int| 0 <= j < k ==> !is_fatal(outcomes[j]))
                implies run_outcome(connected, outcomes, read_error, closed)
                == Err::<Seq<M>, ClaudeError>(outcomes[k]->Err_0) by {
            lemma_collect_stops_at_first_failure(Seq::<M>::empty(), outcomes, k);
        }
        if forall|j: int| 0 <= j < outcomes.len() ==> !is_fatal(#[trigger] outcomes[j]) {
            lemma_collect_without_failure(Seq::<M>::empty(), outcomes);
            assert(Seq::<M>::empty() + ok_values(outcomes) =~= ok_values(outcomes));
        } else {
            let k0 = choose|k: int| 0 <= k < outcomes.len() && is_fatal(#[trigger] outcomes[k]);
            lemma_first_fatal(outcomes, k0);
            let f = choose|f: int| 0 <= f <= k0 && is_fatal(outcomes[f])
                && (forall|j: int| 0 <= j < f ==> !is_fatal(outcomes[j]));
            lemma_collect_stops_at_first_failure(Seq::<M>::empty(), outcomes, f);
        }
    }
}

proof fn lemma_first_fatal<M>(outcomes: Seq<Result<M, ClaudeError>>, k: int)
    requires
        0 <= k < outcomes.len(),
        is_fatal(outcomes[k]),
    ensures
        exists|f: int| 0 <= f <= k && is_fatal(outcomes[f])
            && (forall|j: int| 0 <= j < f ==> !is_fatal(outcomes[j])),
    decreases k,
{
    if exists|j: int| 0 <= j < k && is_fatal(outcomes[j]) {
        let j = choose|j: int| 0 <= j < k && is_fatal(outcomes[j]);
        lemma_first_fatal(outcomes, j);
    } else {
        assert(forall|j: int| 0 <= j < k ==> !is_fatal(outcomes[j]));
    }
}

/// The messages of a run are those of its documents, one for each document
/// that parsed, kept in the order of the documents: none for no documents,
/// the message of a parsed document, nothing for a failed one, and for two
/// stretches of a stream one after the other, the messages of the first
/// followed by those of the second.
pub proof fn lemma_ok_values_in_order<M>(
    a: Seq<Result<M, ClaudeError>>,
    b: Seq<Result<M, ClaudeError>>,
    m: M,
    e: ClaudeError,
)
    ensures
        ok_values(Seq::<Result<M, ClaudeError>>::empty()) == Seq::<M>::empty(),
        ok_values(seq![Ok::<M, ClaudeError>(m)]) == seq![m],
        ok_values(seq![Err::<M, ClaudeError>(e)]) == Seq::<M>::empty(),
        ok_values(a + b) == ok_values(a) + ok_values(b),
    decreases a.len(),
{
    let one_ok = seq![Ok::<M, ClaudeError>(m)];
    let one_err = seq![Err::<M, ClaudeError>(e)];
    assert(one_ok.drop_first() =~= Seq::<Result<M, ClaudeError>>::empty());
    assert(one_err.drop_first() =~= Seq::<Result<M, ClaudeError>>::empty());
    assert(seq![m] + Seq::<M>::empty() =~= seq![m]);
    if a.len() == 0 {
        assert(a + b =~= b);
        assert(ok_values(a) + ok_values(b) =~= ok_values(b));
    } else {
        lemma_ok_values_in_order(a.drop_first(), b, m, e);
        assert((a + b).drop_first() =~= a.drop_first() + b);
        assert((a + b)[0] == a[0]);
        match a[0] {
            Ok(x) => {
                assert(seq![x] + (ok_values(a.drop_first()) + ok_values(b)) =~= (seq![x]
                    + ok_values(a.drop_first())) + ok_values(b));
            },
            Err(_) => {},
        }
    }
}

/// Whether `event` can come in `phase`.
pub open spec fn accepts<M>(phase: ExecutePhase, event: ExecuteEvent<M>) -> bool {
    match event {
        ExecuteEvent::Connected(_) => phase == ExecutePhase::Connecting,
        ExecuteEvent::Received(_) => phase == ExecutePhase::Reading,
        ExecuteEvent::ReadFailed(_) => phase == ExecutePhase::Reading,
        ExecuteEvent::StreamEnded => phase == ExecutePhase::Reading,
        ExecuteEvent::Closed(_) => phase == ExecutePhase::Closing,
    }
}

/// The state of one query run: the messages collected so far, and where the run stands.
pub struct MessageCollector<M> {
    messages: Vec<M>,
    phase: ExecutePhase,
}

impl<M> MessageCollector<M> {
    pub closed spec fn collected(&self) -> Seq<M> {
        self.messages@
    }

    pub closed spec fn spec_phase(&self) -> ExecutePhase {
        self.phase
    }

    /// A run that has not connected yet.
    pub fn new() -> (res: Self)
        ensures
            res.collected() == Seq::<M>::empty(),
            res.spec_phase() == ExecutePhase::Connecting,
    {
        MessageCollector { messages: Vec::new(), phase: ExecutePhase::Connecting }
    }

    pub fn phase(&self) -> (res: ExecutePhase)
        ensures
            res == self.spec_phase(),
    {
        self.phase
    }

    /// Whether `event` can come now.
    pub fn accepts(&self, event: &ExecuteEvent<M>) -> (res: bool)
        ensures
            res == accepts(self.spec_phase(), *event),
    {
        match event {
            ExecuteEvent::Connected(_) => self.phase == ExecutePhase::Connecting,
            ExecuteEvent::Received(_) => self.phase == ExecutePhase::Reading,
            ExecuteEvent::ReadFailed(_) => self.phase == ExecutePhase::Reading,
            ExecuteEvent::StreamEnded => self.phase == ExecutePhase::Reading,
            ExecuteEvent::Closed(_) => self.phase == ExecutePhase::Closing,
        }
    }

    /// Takes in what the transport reported and says what to do next.
    ///
    /// A failure to connect, an error from the stream, a message that cannot
    /// be parsed, and a failure to close end the run with that error; a
    /// message of unknown type is passed over with a warning; every other
    /// message is kept, in order of arrival. When the stream ends the
    /// transport is closed, and then the run ends with the messages kept.
    pub fn step(&mut self, event: ExecuteEvent<M>) -> (action: ExecuteAction<M>)
        requires
            accepts(old(self).spec_phase(), event),
        ensures
            match event {
                ExecuteEvent::Connected(Ok(())) => {
                    &&& action is ReadNext
                    &&& final(self).spec_phase() == ExecutePhase::Reading
                    &&& final(self).collected() == old(self).collected()
                },
                ExecuteEvent::Connected(Err(e)) => {
                    &&& action matches ExecuteAction::Fail(e2) && e2 == e
                    &&& final(self).spec_phase() == ExecutePhase::Done
                },
                ExecuteEvent::Received(Ok(m)) => {
                    &&& action is ReadNext
                    &&& final(self).spec_phase() == ExecutePhase::Reading
                    &&& final(self).collected() == old(self).collected().push(m)
                },
                ExecuteEvent::Received(Err(e)) => if e is UnknownMessageType {
                    &&& action matches ExecuteAction::Skip(e2) && e2 == e
                    &&& final(self).spec_phase() == ExecutePhase::Reading
                    &&& final(self).collected() == old(self).collected()
                } else {
                    &&& action matches ExecuteAction::Fail(e2) && e2 == e
                    &&& final(self).spec_phase() == ExecutePhase::Done
                },
                ExecuteEvent::ReadFailed(e) => {
                    &&& action matches ExecuteAction::Fail(e2) && e2 == e
                    &&& final(self).spec_phase() == ExecutePhase::Done
                },
                ExecuteEvent::StreamEnded => {
                    &&& action is Close
                    &&& final(self).spec_phase() == ExecutePhase::Closing
                    &&& final(self).collected() == old(self).collected()
                },
                ExecuteEvent::Closed(Ok(())) => {
                    &&& action matches ExecuteAction::Finish(v) && v@ == old(self).collected()
                    &&& final(self).spec_phase() == ExecutePhase::Done
                },
                ExecuteEvent::Closed(Err(e)) => {
                    &&& action matches ExecuteAction::Fail(e2) && e2 == e
                    &&& final(self).spec_phase() == ExecutePhase::Done
                },
            },
    {
        match event {
            ExecuteEvent::Connected(Ok(())) => {
                self.phase = ExecutePhase::Reading;
                ExecuteAction::ReadNext
            },
            ExecuteEvent::Connected(Err(e)) => {
                self.phase = ExecutePhase::Done;
                ExecuteAction::Fail(e)
            },
            ExecuteEvent::Received(Ok(m)) => {
                self.messages.push(m);
                ExecuteAction::ReadNext
            },
            ExecuteEvent::Received(Err(e)) => {
                if e.is_unknown_message_type() {
                    ExecuteAction::Skip(e)
                } else {
                    self.phase = ExecutePhase::Done;
                    ExecuteAction::Fail(e)
                }
            },
            ExecuteEvent::ReadFailed(e) => {
                self.phase = ExecutePhase::Done;
                ExecuteAction::Fail(e)
            },
            ExecuteEvent::StreamEnded => {
                self.phase = ExecutePhase::Closing;
                ExecuteAction::Close
            },
            ExecuteEvent::Closed(Ok(())) => {
                let mut messages = Vec::new();
                std::mem::swap(&mut messages, &mut self.messages);
                self.phase = ExecutePhase::Done;
                ExecuteAction::Finish(messages)
            },
            ExecuteEvent::Closed(Err(e)) => {
                self.phase = ExecutePhase::Done;
                ExecuteAction::Fail(e)
            },
        }
    }
}

/// Runs a query whose transport has already reported everything: how
/// connecting went, what parsing each document of the stream gave, the error
/// with which the stream broke off (none where it ended), and how closing
/// went. The answer is the one that the run gives step by step.
pub fn collect_messages<M>(
    connected: Result<(), ClaudeError>,
    outcomes: Vec<Result<M, ClaudeError>>,
    read_error: Option<ClaudeError>,
    closed: Result<(), ClaudeError>,
) -> (res: Result<Vec<M>, ClaudeError>)
    ensures
        match run_outcome(connected, outcomes@, read_error, closed) {
            Ok(messages) => res matches Ok(v) && v@ == messages,
            Err(e) => res matches Err(e2) && e2 == e,
        },
{
    let ghost all = outcomes@;
    let mut collector: MessageCollector<M> = MessageCollector::new();
    match collector.step(ExecuteEvent::Connected(connected)) {
        ExecuteAction::Fail(e) => {
            return Err(e);
        },
        _ => {},
    }
    let mut rest = outcomes;
    while rest.len() > 0
        invariant
            collector.spec_phase() == ExecutePhase::Reading,
            all == outcomes@,
            connected is Ok,
            collect_outcomes(all) == collect_from(collector.collected(), rest@),
        decreases rest@.len(),
    {
        let ghost before = rest@;
        let ghost collected = collector.collected();
        let outcome = rest.remove(0);
        assert(rest@ =~= before.drop_first());
        assert(outcome == before[0]);
        match collector.step(ExecuteEvent::Received(outcome)) {
            ExecuteAction::Fail(e) => {
                assert(collect_from(collected, before) == Err::<Seq<M>, ClaudeError>(e));
                return Err(e);
            },
            _ => {},
        }
    }
    let ending = match read_error {
        Some(e) => ExecuteEvent::ReadFailed(e),
        None => ExecuteEvent::StreamEnded,
    };
    match collector.step(ending) {
        ExecuteAction::Fail(e) => {
            return Err(e);
        },
        _ => {},
    }
    match collector.step(ExecuteEvent::Closed(closed)) {
        ExecuteAction::Finish(messages) => Ok(messages),
        ExecuteAction::Fail(e) => Err(e),
        _ => {
            // `step` answers a close with nothing else.
            proof {
                assert(false);
            }
            Ok(Vec::new())
        },
    }
}

} // verus!
