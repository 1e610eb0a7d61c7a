//! The generation engine: the decisions of one cancellable, token-by-token
//! generation.
//!
//! The model runtime tokenizes, decodes and samples; the consumer receives
//! fragments and may ask to stop. Between them sits [`Generation`], a state
//! machine that is told what happened and answers with what to do next. It
//! accumulates the produced text, detects stop sequences, cleans every
//! fragment before it is emitted and ends each generation with exactly one
//! [`Action::Finish`].

use crate::binary32;
use crate::text::{contains, find, from_chars, remove_all, strip_all, to_chars};
use vstd::prelude::*;

verus! {

/// The literal substrings whose appearance in the produced text ends a
/// generation.
pub const STOP_SEQUENCES: [&'static str; 4] = ["<|im_end|>", "<|im_start|>", "</s>", "<|endoftext|>"];

/// The stop sequences as character sequences, in the order in which they are
/// removed from a fragment.
pub open spec fn stop_sequences() -> Seq<Seq<char>> {
    seq!["<|im_end|>"@, "<|im_start|>"@, "</s>"@, "<|endoftext|>"@]
}

/// Some stop sequence occurs in `text`.
pub open spec fn has_stop_sequence(text: Seq<char>) -> bool {
    exists|k: int| 0 <= k < stop_sequences().len() && contains(text, #[trigger] stop_sequences()[k])
}

/// `piece` with the stop sequences removed one after the other.
pub open spec fn without_stop_sequences(piece: Seq<char>) -> Seq<char> {
    remove_all(
        remove_all(
            remove_all(remove_all(piece, stop_sequences()[0]), stop_sequences()[1]),
            stop_sequences()[2],
        ),
        stop_sequences()[3],
    )
}

/// Whether some stop sequence occurs in `text`.
pub fn contains_stop_sequence(text: &str) -> (b: bool)
    ensures
        b == has_stop_sequence(text@),
{
    let chars = to_chars(text);
    let s0 = to_chars("<|im_end|>");
    let s1 = to_chars("<|im_start|>");
    let s2 = to_chars("</s>");
    let s3 = to_chars("<|endoftext|>");
    let b0 = find(&chars, &s0);
    let b1 = find(&chars, &s1);
    let b2 = find(&chars, &s2);
    let b3 = find(&chars, &s3);
    proof {
        if b0 {
            assert(contains(text@, stop_sequences()[0]));
        }
        if b1 {
            assert(contains(text@, stop_sequences()[1]));
        }
        if b2 {
            assert(contains(text@, stop_sequences()[2]));
        }
        if b3 {
            assert(contains(text@, stop_sequences()[3]));
        }
    }
    b0 || b1 || b2 || b3
}

/// `piece` with every stop sequence removed.
pub fn strip_stop_sequences(piece: &str) -> (clean: String)
    ensures
        clean@ == without_stop_sequences(piece@),
{
    let chars = to_chars(piece);
    let s0 = to_chars("<|im_end|>");
    let s1 = to_chars("<|im_start|>");
    let s2 = to_chars("</s>");
    let s3 = to_chars("<|endoftext|>");
    let c0 = strip_all(&chars, &s0);
    let c1 = strip_all(&c0, &s1);
    let c2 = strip_all(&c1, &s2);
    let c3 = strip_all(&c2, &s3);
    from_chars(&c3)
}

/// The counter that hands out a fresh seed for every random draw.
pub struct SeedCounter {
    pub next: u32,
}

/// The counter after one more draw; it wraps after the last 32-bit value.
pub open spec fn advanced(next: u32) -> u32 {
    if next == u32::MAX {
        0
    } else {
        (next + 1) as u32
    }
}

impl SeedCounter {
    /// A counter whose first seed is 42.
    pub fn new() -> (c: SeedCounter)
        ensures
            c.next == 42,
    {
        SeedCounter { next: 42 }
    }
}

/// The seed for the next draw; the counter moves on, so that no two
/// consecutive draws share a seed.
pub fn next_seed(counter: &mut SeedCounter) -> (seed: u32)
    ensures
        seed == old(counter).next,
        final(counter).next == advanced(old(counter).next),
        final(counter).next != seed,
{
    let seed: u32 = counter.next;
    counter.next = if seed == u32::MAX {
        0
    } else {
        seed + 1
    };
    seed
}

/// The seed of the `k`th draw after a counter stood at `start`.
pub open spec fn seed_after(start: u32, k: nat) -> u32 {
    ((start + k) % 0x1_0000_0000) as u32
}

/// Seeds are fresh: the counter hands out each seed after the one before,
/// and no two of any 4294967296 draws in a row get the same seed.
pub proof fn law_seeds_are_fresh(start: u32, i: nat, j: nat)
    requires
        i < j < i + 0x1_0000_0000,
    ensures
        seed_after(start, 0) == start,
        seed_after(start, i + 1) == advanced(seed_after(start, i)),
        seed_after(start, i) != seed_after(start, j),
{
    let a = (start + i) as int;
    let b = (start + j) as int;
    assert(a % 0x1_0000_0000 != b % 0x1_0000_0000) by {
        assert(a < b < a + 0x1_0000_0000);
        if a % 0x1_0000_0000 == b % 0x1_0000_0000 {
            assert((b - a) % 0x1_0000_0000 == 0) by (nonlinear_arith)
                requires
                    a % 0x1_0000_0000 == b % 0x1_0000_0000,
            ;
            assert(false) by (nonlinear_arith)
                requires
                    0 < b - a < 0x1_0000_0000,
                    (b - a) % 0x1_0000_0000 == 0,
            ;
        }
    }
    assert(seed_after(start, i + 1) == advanced(seed_after(start, i))) by {
        let v = ((start + i) % 0x1_0000_0000) as int;
        assert((start + i + 1) % 0x1_0000_0000 == if v == 0xffff_ffff {
            0int
        } else {
            v + 1
        }) by (nonlinear_arith)
            requires
                v == (start + i) % 0x1_0000_0000,
                start + i >= 0,
        ;
    }
}

/// The one signal by which a running generation is asked to stop.
pub struct CancelFlag {
    pub requested: bool,
}

impl CancelFlag {
    /// A flag that asks for nothing.
    pub fn new() -> (flag: CancelFlag)
        ensures
            !flag.requested,
    {
        CancelFlag { requested: false }
    }

    /// A new generation begins: an earlier request to stop is forgotten.
    pub fn reset(&mut self)
        ensures
            !final(self).requested,
    {
        self.requested = false;
    }

    /// Asks the running generation to stop at its next fragment.
    pub fn request(&mut self)
        ensures
            final(self).requested,
    {
        self.requested = true;
    }

    /// What the consumer does with a fragment: it passes the fragment on
    /// and lets the generation continue, unless a stop was requested; then
    /// the fragment is withheld and the generation is told not to continue.
    pub fn deliver(&self, fragment: String) -> (passed: Option<String>)
        ensures
            self.requested ==> passed is None,
            !self.requested ==> passed == Some(fragment),
    {
        if self.requested {
            None
        } else {
            Some(fragment)
        }
    }
}

/// How the next token is picked from the logits.
#[derive(Clone, Copy, Debug, PartialEq, Eq, Structural)]
pub enum SamplingPlan {
    /// Take the most probable token.
    Greedy,
    /// Scale the logits by the temperature and draw with the seed.
    Random { temperature: u32, seed: u32 },
}

/// A temperature, given by its single-precision bit pattern, asks for greedy
/// sampling when it is zero or negative.
pub open spec fn is_greedy(temperature: u32) -> bool {
    binary32::le(temperature, 0)
}

/// Decides how to sample at the given temperature. A greedy pick leaves the
/// counter alone; a random draw takes the next seed from it.
pub fn plan_sampling(temperature: u32, counter: &mut SeedCounter) -> (plan: SamplingPlan)
    ensures
        is_greedy(temperature) ==> plan == SamplingPlan::Greedy && final(counter).next == old(counter).next,
        !is_greedy(temperature) ==> plan == (SamplingPlan::Random {
            temperature,
            seed: old(counter).next,
        }) && final(counter).next == advanced(old(counter).next),
{
    if binary32::less_or_equal(temperature, 0) {
        SamplingPlan::Greedy
    } else {
        let seed = next_seed(counter);
        SamplingPlan::Random { temperature, seed }
    }
}

/// Why a generation failed.
#[derive(Debug)]
pub enum GenerationError {
    /// No model is loaded.
    ModelNotLoaded,
    /// The prompt has no tokens.
    EmptyPrompt,
    /// The runtime could not turn text into tokens or a token into text.
    TokenizeFailed(String),
    /// The runtime could not process a batch.
    DecodeFailed(String),
    /// The runtime could not pick a token.
    SampleFailed,
}

/// Why a generation ended without failing.
#[derive(Clone, Copy, Debug, PartialEq, Eq, Structural)]
pub enum StopReason {
    /// The runtime produced its end-of-sequence token.
    EndOfSequence,
    /// A stop sequence appeared in the produced text.
    StopSequence,
    /// The consumer asked not to continue.
    Cancelled,
    /// The token budget is used up.
    MaxTokens,
}

/// What the runtime reports after it was asked to sample.
#[derive(Debug)]
pub enum Sampled {
    /// No token could be picked.
    Failed,
    /// The picked token ends the sequence.
    EndOfSequence,
    /// The picked token and its text.
    Piece(String),
    /// The picked token has no text.
    PieceFailed(String),
}

/// What has to happen next.
#[derive(Debug)]
pub enum Action {
    /// Pick the next token and report it with [`Generation::on_sampled`].
    Sample,
    /// Hand the fragment to the consumer and report the answer with
    /// [`Generation::on_consumer`].
    Emit(String),
    /// Submit the token that was picked last and report the outcome with
    /// [`Generation::on_decoded`].
    Decode,
    /// The generation is over: announce it, then return this result.
    Finish(Result<StopReason, GenerationError>),
}

/// Where a generation stands.
#[derive(Clone, Copy, Debug, PartialEq, Eq, Structural)]
pub enum Phase {
    /// The prompt is being submitted.
    Prefill,
    /// A token is being picked.
    Sampling,
    /// A fragment is with the consumer; `stop_detected` tells whether the
    /// text so far holds a stop sequence.
    Emitting { stop_detected: bool },
    /// The picked token is being submitted.
    Decoding,
    /// Nothing is left to do.
    Done,
}

/// The state of a generation, as the contracts see it.
pub struct State {
    pub accumulated: Seq<char>,
    pub produced: nat,
    pub max_tokens: nat,
    pub phase: Phase,
}

/// What can be reported to a generation.
pub enum Event {
    /// The prompt was submitted (`ok`) or could not be.
    Prefilled { ok: bool },
    /// No token could be picked.
    SampleFailed,
    /// The picked token ends the sequence.
    EndOfSequence,
    /// The picked token has this text.
    Piece { text: Seq<char> },
    /// The picked token has no text.
    PieceFailed,
    /// The consumer took a fragment and answered.
    Consumer { keep_going: bool },
    /// The picked token was submitted (`ok`) or could not be.
    Decoded { ok: bool },
}

/// The report is the one the phase waits for.
pub open spec fn expects(phase: Phase, e: Event) -> bool {
    match e {
        Event::Prefilled { .. } => phase == Phase::Prefill,
        Event::SampleFailed | Event::EndOfSequence | Event::Piece { .. } | Event::PieceFailed => phase
            == Phase::Sampling,
        Event::Consumer { .. } => phase is Emitting,
        Event::Decoded { .. } => phase == Phase::Decoding,
    }
}

/// The phase that follows a token budget check.
pub open spec fn sample_or_finish(produced: nat, max_tokens: nat) -> Phase {
    if produced >= max_tokens {
        Phase::Done
    } else {
        Phase::Sampling
    }
}

/// The state after a report. A report that the phase does not wait for
/// changes nothing.
pub open spec fn next(s: State, e: Event) -> State {
    if !expects(s.phase, e) {
        s
    } else {
        match e {
            Event::Prefilled { ok } => State {
                phase: if ok {
                    sample_or_finish(s.produced, s.max_tokens)
                } else {
                    Phase::Done
                },
                ..s
            },
            Event::SampleFailed | Event::EndOfSequence | Event::PieceFailed => State {
                phase: Phase::Done,
                ..s
            },
            Event::Piece { text } => {
                let all = s.accumulated + text;
                State {
                    accumulated: all,
                    phase: if without_stop_sequences(text).len() > 0 {
                        Phase::Emitting { stop_detected: has_stop_sequence(all) }
                    } else if has_stop_sequence(all) {
                        Phase::Done
                    } else {
                        Phase::Decoding
                    },
                    ..s
                }
            },
            Event::Consumer { keep_going } => State {
                phase: if keep_going && !s.phase->stop_detected {
                    Phase::Decoding
                } else {
                    Phase::Done
                },
                ..s
            },
            Event::Decoded { ok } => if ok {
                State {
                    produced: s.produced + 1,
                    phase: sample_or_finish(s.produced + 1, s.max_tokens),
                    ..s
                }
            } else {
                State { phase: Phase::Done, ..s }
            },
        }
    }
}

/// The fragment that a report causes to be emitted, if any: the cleaned text
/// of a picked token, unless nothing is left of it.
pub open spec fn emitted(s: State, e: Event) -> Option<Seq<char>> {
    match e {
        Event::Piece { text } => if s.phase == Phase::Sampling && without_stop_sequences(text).len()
            > 0 {
            Some(without_stop_sequences(text))
        } else {
            None
        },
        _ => None,
    }
}

/// The fragments emitted while the reports arrive one after the other.
pub open spec fn fragments(s: State, events: Seq<Event>) -> Seq<Seq<char>>
    decreases events.len(),
{
    if events.len() == 0 {
        Seq::empty()
    } else {
        let rest = fragments(next(s, events[0]), events.skip(1));
        match emitted(s, events[0]) {
            Some(f) => seq![f] + rest,
            None => rest,
        }
    }
}

/// The number of reports that end the generation while they arrive one after
/// the other.
pub open spec fn finishes(s: State, events: Seq<Event>) -> nat
    decreases events.len(),
{
    if events.len() == 0 {
        0
    } else {
        let rest = finishes(next(s, events[0]), events.skip(1));
        if s.phase != Phase::Done && next(s, events[0]).phase == Phase::Done {
            1 + rest
        } else {
            rest
        }
    }
}

/// A finished generation emits nothing and finishes no second time, whatever
/// is reported to it.
pub proof fn law_done_is_final(s: State, events: Seq<Event>)
    requires
        s.phase == Phase::Done,
    ensures
        fragments(s, events) == Seq::<Seq<char>>::empty(),
        finishes(s, events) == 0,
    decreases events.len(),
{
    if events.len() > 0 {
        assert(next(s, events[0]) == s);
        law_done_is_final(s, events.skip(1));
    }
}

/// When the consumer declines, the fragment it was just given is the last
/// one: the generation finishes at once, and no later report brings another
/// fragment or another finish.
pub proof fn law_cancel_ends_emission(s: State, later: Seq<Event>)
    requires
        s.phase is Emitting,
    ensures
        next(s, Event::Consumer { keep_going: false }).phase == Phase::Done,
        fragments(next(s, Event::Consumer { keep_going: false }), later) == Seq::<
            Seq<char>,
        >::empty(),
        finishes(s, seq![Event::Consumer { keep_going: false }] + later) == 1,
{
    let cancel = Event::Consumer { keep_going: false };
    let after = next(s, cancel);
    law_done_is_final(after, later);
    let all = seq![cancel] + later;
    assert(all[0] == cancel);
    assert(all.skip(1) =~= later);
}

/// A generation finishes at most once, whatever is reported to it.
pub proof fn law_at_most_one_finish(s: State, events: Seq<Event>)
    ensures
        finishes(s, events) <= 1,
    decreases events.len(),
{
    if events.len() > 0 {
        let t = next(s, events[0]);
        if t.phase == Phase::Done {
            law_done_is_final(t, events.skip(1));
        } else {
            law_at_most_one_finish(t, events.skip(1));
        }
    }
}

/// The token budget bounds the generation: from a well-formed start no more
/// than `max_tokens` tokens are ever submitted.
pub proof fn law_budget_holds(s: State, e: Event)
    requires
        s.produced <= s.max_tokens,
        (s.phase == Phase::Sampling || s.phase is Emitting || s.phase == Phase::Decoding)
            ==> s.produced < s.max_tokens,
    ensures
        next(s, e).produced <= next(s, e).max_tokens,
        (next(s, e).phase == Phase::Sampling || next(s, e).phase is Emitting || next(s, e).phase
            == Phase::Decoding) ==> next(s, e).produced < next(s, e).max_tokens,
        next(s, e).max_tokens == s.max_tokens,
{
}

/// The report that a sampling outcome stands for.
pub open spec fn event_of(outcome: Sampled) -> Event {
    match outcome {
        Sampled::Failed => Event::SampleFailed,
        Sampled::EndOfSequence => Event::EndOfSequence,
        Sampled::Piece(text) => Event::Piece { text: text@ },
        Sampled::PieceFailed(_) => Event::PieceFailed,
    }
}

/// The fragment that an action hands to the consumer, if any.
pub open spec fn fragment_of(action: Action) -> Option<Seq<char>> {
    match action {
        Action::Emit(fragment) => Some(fragment@),
        _ => None,
    }
}

/// One generation in progress.
pub struct Generation {
    /// All text produced so far, stop sequences included.
    pub accumulated: String,
    /// Tokens submitted after the prompt.
    pub produced: usize,
    /// The most tokens this generation may produce.
    pub max_tokens: usize,
    pub phase: Phase,
}

impl Generation {
    /// The state as the contracts see it.
    pub open spec fn state(&self) -> State {
        State {
            accumulated: self.accumulated@,
            produced: self.produced as nat,
            max_tokens: self.max_tokens as nat,
            phase: self.phase,
        }
    }

    /// While a token is under way the budget is not used up.
    pub open spec fn wf(&self) -> bool {
        (self.phase == Phase::Sampling || self.phase is Emitting || self.phase == Phase::Decoding)
            ==> self.produced < self.max_tokens
    }

    /// Starts a generation. `tokenized` is what tokenizing the prompt gave:
    /// the number of tokens, or the runtime's complaint.
    ///
    /// Fails with `ModelNotLoaded` when no model is loaded, whatever else is
    /// passed; with `TokenizeFailed` when tokenizing failed; with
    /// `EmptyPrompt` when it gave no token. Otherwise the prompt is to be
    /// submitted and the outcome reported with [`Generation::on_prefill`].
    pub fn begin(model_loaded: bool, tokenized: Result<usize, String>, max_tokens: usize) -> (r:
        Result<Generation, GenerationError>)
        ensures
            !model_loaded ==> r == Err::<Generation, GenerationError>(
                GenerationError::ModelNotLoaded,
            ),
            model_loaded && tokenized is Err ==> r == Err::<Generation, GenerationError>(
                GenerationError::TokenizeFailed(tokenized->Err_0),
            ),
            model_loaded && tokenized == Ok::<usize, String>(0) ==> r == Err::<
                Generation,
                GenerationError,
            >(GenerationError::EmptyPrompt),
            model_loaded && tokenized is Ok && tokenized->Ok_0 > 0 ==> r is Ok && r->Ok_0.wf()
                && r->Ok_0.phase == Phase::Prefill && r->Ok_0.accumulated@ == Seq::<char>::empty()
                && r->Ok_0.produced == 0 && r->Ok_0.max_tokens == max_tokens,
    {
        if !model_loaded {
            return Err(GenerationError::ModelNotLoaded);
        }
        match tokenized {
            Err(detail) => Err(GenerationError::TokenizeFailed(detail)),
            Ok(count) => {
                if count == 0 {
                    Err(GenerationError::EmptyPrompt)
                } else {
                    Ok(
                        Generation {
                            accumulated: String::new(),
                            produced: 0,
                            max_tokens,
                            phase: Phase::Prefill,
                        },
                    )
                }
            },
        }
    }

    /// The prompt was submitted, or could not be.
    pub fn on_prefill(&mut self, result: Result<(), String>) -> (action: Action)
        requires
            old(self).phase == Phase::Prefill,
        ensures
            final(self).state() == next(old(self).state(), Event::Prefilled { ok: result is Ok }),
            final(self).wf(),
            final(self).accumulated@ == old(self).accumulated@,
            final(self).produced == old(self).produced,
            final(self).max_tokens == old(self).max_tokens,
            (action is Finish) <==> final(self).phase == Phase::Done,
            result is Err ==> action == Action::Finish(
                Err(GenerationError::DecodeFailed(result->Err_0)),
            ),
            result is Ok && old(self).produced >= old(self).max_tokens ==> action == Action::Finish(
                Ok(StopReason::MaxTokens),
            ),
            result is Ok && old(self).produced < old(self).max_tokens ==> action == Action::Sample
                && final(self).phase == Phase::Sampling,
    {
        match result {
            Err(detail) => {
                self.phase = Phase::Done;
                Action::Finish(Err(GenerationError::DecodeFailed(detail)))
            },
            Ok(_) => {
                if self.produced >= self.max_tokens {
                    self.phase = Phase::Done;
                    Action::Finish(Ok(StopReason::MaxTokens))
                } else {
                    self.phase = Phase::Sampling;
                    Action::Sample
                }
            },
        }
    }

    /// A token was picked, or could not be.
    ///
    /// The text of a picked token joins the accumulated text. The fragment is
    /// that text without stop sequences; it is emitted unless it is empty.
    /// Without a fragment the generation ends if the accumulated text now
    /// holds a stop sequence, and goes on to decode if it does not.
    pub fn on_sampled(&mut self, outcome: Sampled) -> (action: Action)
        requires
            old(self).wf(),
            old(self).phase == Phase::Sampling,
        ensures
            final(self).state() == next(old(self).state(), event_of(outcome)),
            emitted(old(self).state(), event_of(outcome)) == fragment_of(action),
            final(self).wf(),
            final(self).produced == old(self).produced,
            final(self).max_tokens == old(self).max_tokens,
            (action is Finish) <==> final(self).phase == Phase::Done,
            outcome is Failed ==> action == Action::Finish(Err(GenerationError::SampleFailed)),
            outcome is EndOfSequence ==> action == Action::Finish(Ok(StopReason::EndOfSequence)),
            outcome is PieceFailed ==> action == Action::Finish(
                Err(GenerationError::TokenizeFailed(outcome->PieceFailed_0)),
            ),
            !(outcome is Piece) ==> final(self).accumulated@ == old(self).accumulated@,
            outcome is Piece ==> {
                let piece = outcome->Piece_0@;
                let text = old(self).accumulated@ + piece;
                let clean = without_stop_sequences(piece);
                &&& final(self).accumulated@ == text
                &&& clean.len() > 0 ==> action is Emit && action->Emit_0@ == clean && final(self).phase == (Phase::Emitting { stop_detected: has_stop_sequence(text) })
                &&& clean.len() == 0 && has_stop_sequence(text) ==> action == Action::Finish(
                    Ok(StopReason::StopSequence),
                )
                &&& clean.len() == 0 && !has_stop_sequence(text) ==> action == Action::Decode
                    && final(self).phase == Phase::Decoding
            },
    {
        match outcome {
            Sampled::Failed => {
                self.phase = Phase::Done;
                Action::Finish(Err(GenerationError::SampleFailed))
            },
            Sampled::EndOfSequence => {
                self.phase = Phase::Done;
                Action::Finish(Ok(StopReason::EndOfSequence))
            },
            Sampled::PieceFailed(detail) => {
                self.phase = Phase::Done;
                Action::Finish(Err(GenerationError::TokenizeFailed(detail)))
            },
            Sampled::Piece(piece) => {
                self.accumulated.append(piece.as_str());
                let stop_detected = contains_stop_sequence(self.accumulated.as_str());
                let clean = strip_stop_sequences(piece.as_str());
                if clean.as_str().unicode_len() > 0 {
                    self.phase = Phase::Emitting { stop_detected };
                    Action::Emit(clean)
                } else if stop_detected {
                    self.phase = Phase::Done;
                    Action::Finish(Ok(StopReason::StopSequence))
                } else {
                    self.phase = Phase::Decoding;
                    Action::Decode
                }
            },
        }
    }

    /// The consumer took the fragment and said whether to continue.
    ///
    /// A refusal ends the generation, and so does a stop sequence seen
    /// before; both count as success.
    pub fn on_consumer(&mut self, keep_going: bool) -> (action: Action)
        requires
            old(self).wf(),
            old(self).phase is Emitting,
        ensures
            final(self).state() == next(old(self).state(), Event::Consumer { keep_going }),
            final(self).wf(),
            final(self).accumulated@ == old(self).accumulated@,
            final(self).produced == old(self).produced,
            final(self).max_tokens == old(self).max_tokens,
            (action is Finish) <==> final(self).phase == Phase::Done,
            !keep_going ==> action == Action::Finish(Ok(StopReason::Cancelled)),
            keep_going && old(self).phase->stop_detected ==> action == Action::Finish(
                Ok(StopReason::StopSequence),
            ),
            keep_going && !old(self).phase->stop_detected ==> action == Action::Decode && final(self).phase == Phase::Decoding,
    {
        let stop_detected = match self.phase {
            Phase::Emitting { stop_detected } => stop_detected,
            _ => false,
        };
        if !keep_going {
            self.phase = Phase::Done;
            Action::Finish(Ok(StopReason::Cancelled))
        } else if stop_detected {
            self.phase = Phase::Done;
            Action::Finish(Ok(StopReason::StopSequence))
        } else {
            self.phase = Phase::Decoding;
            Action::Decode
        }
    }

    /// The picked token was submitted, or could not be.
    pub fn on_decoded(&mut self, result: Result<(), String>) -> (action: Action)
        requires
            old(self).wf(),
            old(self).phase == Phase::Decoding,
        ensures
            final(self).state() == next(old(self).state(), Event::Decoded { ok: result is Ok }),
            final(self).wf(),
            final(self).accumulated@ == old(self).accumulated@,
            final(self).max_tokens == old(self).max_tokens,
            (action is Finish) <==> final(self).phase == Phase::Done,
            result is Err ==> action == Action::Finish(
                Err(GenerationError::DecodeFailed(result->Err_0)),
            ) && final(self).produced == old(self).produced,
            result is Ok ==> final(self).produced == old(self).produced + 1,
            result is Ok && old(self).produced + 1 >= old(self).max_tokens ==> action
                == Action::Finish(Ok(StopReason::MaxTokens)),
            result is Ok && old(self).produced + 1 < old(self).max_tokens ==> action
                == Action::Sample && final(self).phase == Phase::Sampling,
    {
        match result {
            Err(detail) => {
                self.phase = Phase::Done;
                Action::Finish(Err(GenerationError::DecodeFailed(detail)))
            },
            Ok(_) => {
                self.produced = self.produced + 1;
                if self.produced >= self.max_tokens {
                    self.phase = Phase::Done;
                    Action::Finish(Ok(StopReason::MaxTokens))
                } else {
                    self.phase = Phase::Sampling;
                    Action::Sample
                }
            },
        }
    }

    /// Whether the generation is as every report leaves it.
    pub fn is_well_formed(&self) -> (b: bool)
        ensures
            b == self.wf(),
    {
        match self.phase {
            Phase::Sampling => self.produced < self.max_tokens,
            Phase::Emitting { .. } => self.produced < self.max_tokens,
            Phase::Decoding => self.produced < self.max_tokens,
            _ => true,
        }
    }

    /// Whether the generation is over.
    pub fn is_finished(&self) -> (b: bool)
        ensures
            b == (self.phase == Phase::Done),
    {
        match self.phase {
            Phase::Done => true,
            _ => false,
        }
    }
}

} // verus!
