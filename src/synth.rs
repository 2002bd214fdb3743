use vstd::prelude::*;

use crate::segment::SENTENCE_MARKER;
use crate::text::{chars_of, copy_range, string_from_chars, trim, trim_bounds};

verus! {

/// `s` without one trailing sentence marker.
pub open spec fn strip_marker(s: Seq<char>) -> Seq<char> {
    if s.len() > 0 && s.last() == '~' {
        s.drop_last()
    } else {
        s
    }
}

/// The text that is sent to the speech backend for utterance `u`: trimmed of
/// whitespace, without the trailing sentence marker.
pub open spec fn speech_of(u: Seq<char>) -> Seq<char> {
    trim(strip_marker(trim(u)))
}

/// The text to synthesize for `utterance`; empty when there is nothing to say.
pub fn speech_text(utterance: &str) -> (r: String)
    ensures
        r@ == speech_of(utterance@),
{
    let chars = chars_of(utterance);
    let s = chars.as_slice();
    let (a, b) = trim_bounds(s, 0, chars.len());
    assert(s@.subrange(0, s@.len() as int) =~= s@);
    let ghost t = s@.subrange(a as int, b as int);
    let end = if b > a && s[b - 1] == SENTENCE_MARKER {
        assert(t.drop_last() =~= s@.subrange(a as int, b - 1));
        b - 1
    } else {
        b
    };
    assert(s@.subrange(a as int, end as int) == strip_marker(t));
    let (c, d) = trim_bounds(s, a, end);
    let v = copy_range(s, c, d);
    string_from_chars(v.as_slice())
}

/// What happens once every attempt at an utterance has failed.
#[derive(Clone, Copy, Debug, PartialEq, Eq, Structural)]
pub enum OnExhausted {
    /// The session fails: for sinks that must not miss a sentence.
    Fail,
    /// The utterance is dropped and the session goes on: for interactive playback.
    Continue,
}

/// How often a failed synthesis call is repeated, and what follows when it
/// keeps failing.
#[derive(Clone, Copy, Debug, PartialEq, Eq, Structural)]
pub struct RetryPolicy {
    /// Calls made after the first one fails; no delay between them.
    pub retries: u32,
    pub on_exhausted: OnExhausted,
}

impl RetryPolicy {
    /// One immediate retry, then the session fails.
    pub fn fatal() -> (r: RetryPolicy)
        ensures
            r.retries == 1,
            r.on_exhausted == OnExhausted::Fail,
    {
        RetryPolicy { retries: 1, on_exhausted: OnExhausted::Fail }
    }

    /// One immediate retry, then the utterance is dropped.
    pub fn lenient() -> (r: RetryPolicy)
        ensures
            r.retries == 1,
            r.on_exhausted == OnExhausted::Continue,
    {
        RetryPolicy { retries: 1, on_exhausted: OnExhausted::Continue }
    }
}

/// The next step for one utterance, as the model sees it.
pub ghost enum Action {
    Skip,
    Call(Seq<char>),
    Deliver(Seq<u8>),
    Drop,
    Fail,
}

/// The next step for one utterance.
#[derive(Debug)]
pub enum SynthesisStep {
    /// Nothing to say: no backend call and no audio, and the session goes on.
    Skip,
    /// Call the speech backend with this text and report the outcome.
    Call(String),
    /// The backend returned this clip: hand it to the assembler.
    Deliver(Vec<u8>),
    /// Every attempt failed: the utterance is dropped and the session goes on.
    Drop,
    /// Every attempt failed: the session fails.
    Fail,
}

impl SynthesisStep {
    pub open spec fn view(&self) -> Action {
        match self {
            SynthesisStep::Skip => Action::Skip,
            SynthesisStep::Call(t) => Action::Call(t@),
            SynthesisStep::Deliver(c) => Action::Deliver(c@),
            SynthesisStep::Drop => Action::Drop,
            SynthesisStep::Fail => Action::Fail,
        }
    }
}

/// The first step for utterance `u`.
pub open spec fn start_action(u: Seq<char>) -> Action {
    if speech_of(u).len() == 0 {
        Action::Skip
    } else {
        Action::Call(speech_of(u))
    }
}

/// The step after call number `calls` for `text` came back with `result`
/// (`None` for a failed call).
pub open spec fn result_action(
    text: Seq<char>,
    calls: nat,
    policy: RetryPolicy,
    result: Option<Seq<u8>>,
) -> Action {
    match result {
        Some(clip) => Action::Deliver(clip),
        None => if calls <= policy.retries {
            Action::Call(text)
        } else if policy.on_exhausted == OnExhausted::Fail {
            Action::Fail
        } else {
            Action::Drop
        },
    }
}

/// The steps taken for `text` once `calls` calls have been made, when the
/// backend answers with `results` in turn.
pub open spec fn run_from(
    text: Seq<char>,
    calls: nat,
    policy: RetryPolicy,
    results: Seq<Option<Seq<u8>>>,
) -> Seq<Action>
    decreases results.len(),
{
    if results.len() == 0 {
        seq![]
    } else {
        let a = result_action(text, calls, policy, results[0]);
        if a is Call {
            seq![a] + run_from(text, calls + 1, policy, results.drop_first())
        } else {
            seq![a]
        }
    }
}

/// Every step taken for utterance `u` when the backend answers with `results`
/// in turn.
pub open spec fn run(u: Seq<char>, policy: RetryPolicy, results: Seq<Option<Seq<u8>>>) -> Seq<
    Action,
> {
    let first = start_action(u);
    if first is Call {
        seq![first] + run_from(speech_of(u), 1, policy, results)
    } else {
        seq![first]
    }
}

/// The synthesis of one utterance, with its retries.
pub struct Synthesis {
    text: String,
    calls: u64,
    policy: RetryPolicy,
    finished: bool,
}

impl Synthesis {
    /// The text that is sent to the backend.
    pub closed spec fn text_spec(&self) -> Seq<char> {
        self.text@
    }

    /// How many backend calls have been asked for.
    pub closed spec fn calls_spec(&self) -> nat {
        self.calls as nat
    }

    pub closed spec fn policy_spec(&self) -> RetryPolicy {
        self.policy
    }

    /// Whether a final step has been given: no outcome is awaited.
    pub closed spec fn finished_spec(&self) -> bool {
        self.finished
    }

    pub closed spec fn wf(&self) -> bool {
        self.calls <= self.policy.retries as u64 + 1
    }

    /// Starts on `utterance`: asks for a call, or skips an utterance with nothing
    /// to say without any call.
    pub fn start(utterance: &str, policy: RetryPolicy) -> (r: (Synthesis, SynthesisStep))
        ensures
            r.0.wf(),
            r.0.text_spec() == speech_of(utterance@),
            r.0.policy_spec() == policy,
            r.1@ == start_action(utterance@),
            r.1@ is Call ==> r.0.calls_spec() == 1 && !r.0.finished_spec(),
            r.1@ is Skip ==> r.0.calls_spec() == 0 && r.0.finished_spec(),
    {
        let text = speech_text(utterance);
        if text.as_str().is_empty() {
            (Synthesis { text, calls: 0, policy, finished: true }, SynthesisStep::Skip)
        } else {
            let call = text.clone();
            (Synthesis { text, calls: 1, policy, finished: false }, SynthesisStep::Call(call))
        }
    }

    /// Takes the outcome of the call asked for last: the clip, or `None` when the
    /// call failed.
    pub fn on_result(&mut self, result: Option<Vec<u8>>) -> (r: SynthesisStep)
        requires
            old(self).wf(),
            !old(self).finished_spec(),
        ensures
            final(self).wf(),
            final(self).text_spec() == old(self).text_spec(),
            final(self).policy_spec() == old(self).policy_spec(),
            r@ == result_action(
                old(self).text_spec(),
                old(self).calls_spec(),
                old(self).policy_spec(),
                match result {
                    Some(c) => Some(c@),
                    None => None,
                },
            ),
            r@ is Call ==> final(self).calls_spec() == old(self).calls_spec() + 1
                && !final(self).finished_spec(),
            !(r@ is Call) ==> final(self).calls_spec() == old(self).calls_spec()
                && final(self).finished_spec(),
    {
        match result {
            Some(clip) => {
                self.finished = true;
                SynthesisStep::Deliver(clip)
            },
            None => {
                if self.calls <= self.policy.retries as u64 {
                    self.calls = self.calls + 1;
                    SynthesisStep::Call(self.text.clone())
                } else {
                    self.finished = true;
                    match self.policy.on_exhausted {
                        OnExhausted::Fail => SynthesisStep::Fail,
                        OnExhausted::Continue => SynthesisStep::Drop,
                    }
                }
            },
        }
    }

    pub fn calls(&self) -> (r: u64)
        ensures
            r == self.calls_spec(),
    {
        self.calls
    }

    pub fn is_finished(&self) -> (r: bool)
        ensures
            r == self.finished_spec(),
    {
        self.finished
    }
}

/// A backend that fails once and then answers with a clip is called exactly
/// twice for the utterance, and that clip is delivered once.
pub proof fn lemma_retry_after_one_failure(u: Seq<char>, policy: RetryPolicy, clip: Seq<u8>)
    requires
        speech_of(u).len() > 0,
        policy.retries >= 1,
    ensures
        run(u, policy, seq![None, Some(clip)]) == seq![
            Action::Call(speech_of(u)),
            Action::Call(speech_of(u)),
            Action::Deliver(clip),
        ],
{
    let results: Seq<Option<Seq<u8>>> = seq![None, Some(clip)];
    let t = speech_of(u);
    assert(results.drop_first() =~= seq![Some(clip)]);
    assert(results.drop_first().drop_first() =~= Seq::<Option<Seq<u8>>>::empty());
    assert(run_from(t, 2, policy, results.drop_first()) =~= seq![Action::Deliver(clip)]);
    assert(run_from(t, 1, policy, results) =~= seq![Action::Call(t), Action::Deliver(clip)]);
    assert(run(u, policy, results) =~= seq![Action::Call(t), Action::Call(t), Action::Deliver(clip)]);
}

/// An utterance with nothing to say is skipped: no backend call and no audio,
/// whatever the backend would have answered, and the session goes on.
pub proof fn lemma_empty_utterance_skipped(
    u: Seq<char>,
    policy: RetryPolicy,
    results: Seq<Option<Seq<u8>>>,
)
    requires
        speech_of(u).len() == 0,
    ensures
        run(u, policy, results) == seq![Action::Skip],
{
}

/// `utterance` without its trailing sentence marker: the text shown beside its
/// audio.
pub fn display_text(utterance: &str) -> (r: String)
    ensures
        r@ == strip_marker(utterance@),
{
    let chars = chars_of(utterance);
    let n = chars.len();
    let end = if n > 0 && chars[n - 1] == SENTENCE_MARKER {
        n - 1
    } else {
        n
    };
    let v = copy_range(chars.as_slice(), 0, end);
    proof {
        if end < n {
            assert(v@ =~= chars@.drop_last());
        } else {
            assert(v@ =~= chars@);
        }
    }
    string_from_chars(v.as_slice())
}

} // verus!
