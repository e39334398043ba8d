use crate::utils::{segment, split_sentences};
use vstd::prelude::*;

verus! {

/// Where one speak request stands.
#[derive(Clone, Copy, Debug, PartialEq, Eq, Structural)]
pub enum Phase {
    /// The sink is to be cleared and set playing.
    Interrupting,
    /// Waiting for exclusive access to the engine.
    Acquiring,
    /// The engine is held and synthesises the current utterance.
    Synthesizing,
    /// The engine is released; the current utterance's audio goes to the sink.
    Appending,
    /// Everything is queued; waiting for the sink to fall silent.
    Draining,
    /// Everything was spoken.
    Succeeded,
    /// Synthesis of the current utterance failed.
    Failed,
}

/// What the caller is to do next for a request.
#[derive(Clone, Copy, Debug, PartialEq, Eq, Structural)]
pub enum Action {
    /// Clear whatever the sink holds and resume output.
    ClearAndPlay,
    /// Wait until the engine is free, then take it.
    AcquireEngine,
    /// Synthesise the utterance of this index with the engine that is held.
    Synthesize(usize),
    /// Release the engine and append the audio of the utterance of this index.
    Append(usize),
    /// Sleep for a short, bounded while, then ask the sink whether it is drained.
    WaitDrain,
    /// Report success: everything was spoken.
    Succeed,
    /// Release the engine and report failure of the utterance of this index.
    Fail(usize),
}

/// What happened after the last action.
#[derive(Clone, Copy, Debug, PartialEq, Eq, Structural)]
pub enum Event {
    /// A clear, an acquire or an append was carried out.
    Completed,
    /// Synthesis produced audio.
    SynthesisOk,
    /// Synthesis reported an error.
    SynthesisFailed,
    /// The sink has nothing queued and nothing sounding (or is paused).
    Drained,
    /// The sink is still playing.
    Playing,
}

/// The state of a request, apart from its utterances.
#[derive(Clone, Copy, Debug, PartialEq, Eq, Structural)]
pub struct Progress {
    pub phase: Phase,
    /// The index of the current utterance: how many utterances have been appended.
    pub next: usize,
    /// How many utterances the request has.
    pub count: usize,
    /// Whether this request holds the engine.
    pub engine_held: bool,
}

/// The state of a fresh request with `count` utterances.
pub open spec fn initial(count: usize) -> Progress {
    Progress { phase: Phase::Interrupting, next: 0, count, engine_held: false }
}

/// The states that a request can reach.
pub open spec fn wf(p: Progress) -> bool {
    &&& p.next <= p.count
    &&& p.engine_held <==> p.phase == Phase::Synthesizing
    &&& p.phase == Phase::Interrupting ==> p.next == 0
    &&& (p.phase == Phase::Acquiring || p.phase == Phase::Synthesizing || p.phase
        == Phase::Appending || p.phase == Phase::Failed) ==> p.next < p.count
    &&& (p.phase == Phase::Draining || p.phase == Phase::Succeeded) ==> p.next == p.count
}

/// The action that a state waits on.
pub open spec fn pending(p: Progress) -> Action {
    match p.phase {
        Phase::Interrupting => Action::ClearAndPlay,
        Phase::Acquiring => Action::AcquireEngine,
        Phase::Synthesizing => Action::Synthesize(p.next),
        Phase::Appending => Action::Append(p.next),
        Phase::Draining => Action::WaitDrain,
        Phase::Succeeded => Action::Succeed,
        Phase::Failed => Action::Fail(p.next),
    }
}

/// The state after `p` moves to `phase`, with the engine held only while synthesising.
pub open spec fn enter(p: Progress, phase: Phase, next: usize) -> Progress {
    Progress { phase, next, count: p.count, engine_held: phase == Phase::Synthesizing }
}

/// The state once the sink has been reset or an utterance appended: the next
/// utterance, or the drain-wait once none is left.
pub open spec fn after_queue(p: Progress, next: usize) -> Progress {
    if next < p.count {
        enter(p, Phase::Acquiring, next)
    } else {
        enter(p, Phase::Draining, next)
    }
}

/// The index after the current utterance, never past the last.
pub open spec fn next_index(p: Progress) -> usize {
    if p.next < p.count {
        (p.next + 1) as usize
    } else {
        p.count
    }
}

/// One step of a request: the new state for an event, and the action it asks
/// for. An event that the state does not wait on changes nothing.
pub open spec fn transition(p: Progress, e: Event) -> (Progress, Action) {
    let q = match (p.phase, e) {
        (Phase::Interrupting, Event::Completed) => after_queue(p, 0),
        (Phase::Acquiring, Event::Completed) => enter(p, Phase::Synthesizing, p.next),
        (Phase::Synthesizing, Event::SynthesisOk) => enter(p, Phase::Appending, p.next),
        (Phase::Synthesizing, Event::SynthesisFailed) => enter(p, Phase::Failed, p.next),
        (Phase::Appending, Event::Completed) => after_queue(p, next_index(p)),
        (Phase::Draining, Event::Drained) => enter(p, Phase::Succeeded, p.next),
        _ => p,
    };
    (q, pending(q))
}

/// A speak request: its utterances and how far it has come.
pub struct SpeakSession {
    pub utterances: Vec<String>,
    pub progress: Progress,
}

impl SpeakSession {
    /// A request for `content`: its utterances, and nothing done yet.
    pub fn new(content: &str) -> (r: SpeakSession)
        ensures
            r.utterances.deep_view() == segment(content@),
            r.progress == initial(r.utterances@.len() as usize),
    {
        let utterances = split_sentences(content);
        let count = utterances.len();
        SpeakSession {
            utterances,
            progress: Progress { phase: Phase::Interrupting, next: 0, count, engine_held: false },
        }
    }

    /// The action that the request waits on.
    pub fn pending_action(&self) -> (r: Action)
        ensures
            r == pending(self.progress),
    {
        match self.progress.phase {
            Phase::Interrupting => Action::ClearAndPlay,
            Phase::Acquiring => Action::AcquireEngine,
            Phase::Synthesizing => Action::Synthesize(self.progress.next),
            Phase::Appending => Action::Append(self.progress.next),
            Phase::Draining => Action::WaitDrain,
            Phase::Succeeded => Action::Succeed,
            Phase::Failed => Action::Fail(self.progress.next),
        }
    }

    /// Takes in what happened, moves the request on, and says what to do next.
    pub fn step(&mut self, e: Event) -> (r: Action)
        ensures
            final(self).utterances == old(self).utterances,
            (final(self).progress, r) == transition(old(self).progress, e),
            wf(old(self).progress) ==> wf(final(self).progress),
    {
        let p = self.progress;
        let next = p.next;
        let count = p.count;
        let moved = match (p.phase, e) {
            (Phase::Interrupting, Event::Completed) => {
                if 0 < count {
                    Some((Phase::Acquiring, 0))
                } else {
                    Some((Phase::Draining, 0))
                }
            },
            (Phase::Acquiring, Event::Completed) => Some((Phase::Synthesizing, next)),
            (Phase::Synthesizing, Event::SynthesisOk) => Some((Phase::Appending, next)),
            (Phase::Synthesizing, Event::SynthesisFailed) => Some((Phase::Failed, next)),
            (Phase::Appending, Event::Completed) => {
                let following = if next < count {
                    next + 1
                } else {
                    count
                };
                if following < count {
                    Some((Phase::Acquiring, following))
                } else {
                    Some((Phase::Draining, following))
                }
            },
            (Phase::Draining, Event::Drained) => Some((Phase::Succeeded, next)),
            _ => None,
        };
        if let Some((phase, idx)) = moved {
            let held = match phase {
                Phase::Synthesizing => true,
                _ => false,
            };
            self.progress = Progress { phase, next: idx, count, engine_held: held };
        }
        proof {
            if wf(p) {
                lemma_transition_wf(p, e);
            }
        }
        self.pending_action()
    }

    /// The text of the utterance of index `i`.
    pub fn utterance(&self, i: usize) -> (r: &String)
        requires
            i < self.utterances@.len(),
        ensures
            r@ == self.utterances.deep_view()[i as int],
    {
        &self.utterances[i]
    }

    /// Whether the request is over, with success or failure.
    pub fn is_finished(&self) -> (r: bool)
        ensures
            r == (self.progress.phase == Phase::Succeeded || self.progress.phase == Phase::Failed),
    {
        match self.progress.phase {
            Phase::Succeeded => true,
            Phase::Failed => true,
            _ => false,
        }
    }
}

/// The speaker id of a request: the one given, else 1.
pub fn speaker_id(sid: Option<i32>) -> (r: i32)
    ensures
        r == match sid {
            Some(v) => v,
            None => 1,
        },
{
    match sid {
        Some(v) => v,
        None => 1,
    }
}

/// Every step keeps a request in a reachable state.
pub proof fn lemma_transition_wf(p: Progress, e: Event)
    requires
        wf(p),
    ensures
        wf(transition(p, e).0),
{
}

/// A request holds the engine exactly while a synthesis is pending: it has
/// released the engine whenever it appends, fails, or waits for the sink to drain.
pub proof fn lemma_engine_held_only_to_synthesize(p: Progress, e: Event)
    requires
        wf(p),
    ensures
        transition(p, e).0.engine_held <==> transition(p, e).1 is Synthesize,
{
}

/// The state after a sequence of events, taken in order.
pub open spec fn run(p: Progress, es: Seq<Event>) -> Progress
    decreases es.len(),
{
    if es.len() == 0 {
        p
    } else {
        run(transition(p, es[0]).0, es.drop_first())
    }
}

/// The events of `k` utterances in a row that are each acquired, synthesised
/// and appended.
pub open spec fn spoken(k: nat) -> Seq<Event>
    decreases k,
{
    if k == 0 {
        Seq::empty()
    } else {
        spoken((k - 1) as nat) + seq![Event::Completed, Event::SynthesisOk, Event::Completed]
    }
}

proof fn lemma_run_concat(p: Progress, a: Seq<Event>, b: Seq<Event>)
    ensures
        run(p, a + b) == run(run(p, a), b),
    decreases a.len(),
{
    if a.len() == 0 {
        assert(a + b =~= b);
    } else {
        assert((a + b).drop_first() =~= a.drop_first() + b);
        assert((a + b)[0] == a[0]);
        lemma_run_concat(transition(p, a[0]).0, a.drop_first(), b);
    }
}

proof fn lemma_run_spoken(count: usize, k: nat)
    requires
        0 < k <= count,
    ensures
        run(enter(initial(count), Phase::Acquiring, 0), spoken(k)) == after_queue(
            initial(count),
            k as usize,
        ),
    decreases k,
{
    reveal_with_fuel(run, 4);
    let start = enter(initial(count), Phase::Acquiring, 0);
    let cycle = seq![Event::Completed, Event::SynthesisOk, Event::Completed];
    if k == 1 {
        assert(spoken(1) =~= cycle);
    } else {
        lemma_run_spoken(count, (k - 1) as nat);
        lemma_run_concat(start, spoken((k - 1) as nat), cycle);
    }
}

/// A synthesis failure on utterance `i` of a request ends it with a report of
/// that failure, after exactly the `i` utterances before it were appended, and
/// with the engine released.
pub proof fn lemma_failure_keeps_earlier_audio(count: usize, i: nat)
    requires
        i < count,
    ensures
        ({
            let q = run(
                initial(count),
                seq![Event::Completed] + spoken(i) + seq![Event::Completed, Event::SynthesisFailed],
            );
            &&& q.phase == Phase::Failed
            &&& q.next == i
            &&& !q.engine_held
            &&& pending(q) == Action::Fail(i as usize)
        }),
{
    reveal_with_fuel(run, 3);
    let first = seq![Event::Completed];
    let last = seq![Event::Completed, Event::SynthesisFailed];
    let start = enter(initial(count), Phase::Acquiring, 0);
    lemma_run_concat(initial(count), first + spoken(i), last);
    lemma_run_concat(initial(count), first, spoken(i));
    assert(run(initial(count), first) == start);
    if i > 0 {
        lemma_run_spoken(count, i);
    }
}

/// A request whose utterances are all synthesised and appended, and whose sink
/// then drains, ends in success with every utterance appended and the engine
/// released.
pub proof fn lemma_all_spoken_succeeds(count: usize)
    ensures
        ({
            let q = run(initial(count), seq![Event::Completed] + spoken(count as nat) + seq![Event::Drained]);
            &&& q.phase == Phase::Succeeded
            &&& q.next == count
            &&& !q.engine_held
            &&& pending(q) == Action::Succeed
        }),
{
    reveal_with_fuel(run, 2);
    let first = seq![Event::Completed];
    let last = seq![Event::Drained];
    lemma_run_concat(initial(count), first + spoken(count as nat), last);
    lemma_run_concat(initial(count), first, spoken(count as nat));
    if count > 0 {
        lemma_run_spoken(count, count as nat);
    } else {
        assert(spoken(0) =~= Seq::<Event>::empty());
    }
}

/// A request without utterances appends nothing: once the sink is reset it
/// asks only to wait for the drain, and succeeds as soon as the sink is found
/// drained.
pub proof fn lemma_empty_request(p: Progress)
    requires
        p == initial(0),
    ensures
        transition(p, Event::Completed).1 == Action::WaitDrain,
        transition(p, Event::Completed).0.next == 0,
        transition(transition(p, Event::Completed).0, Event::Drained).1 == Action::Succeed,
        transition(transition(p, Event::Completed).0, Event::Drained).0.next == 0,
{
}

} // verus!
