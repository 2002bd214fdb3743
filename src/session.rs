use vstd::prelude::*;

use crate::assemble::{emitted, has_plain_header, StreamAssembler};
use crate::segment::{segment, BreakPolicy, Segmenter};
use crate::text::views;

verus! {

/// The life of one narration session.
#[derive(Clone, Copy, Debug, PartialEq, Eq, Structural)]
pub enum SessionState {
    /// Created; no token has arrived yet.
    Idle,
    /// Tokens are arriving and audio is produced.
    Streaming,
    /// The token source has ended; the last utterance is being spoken.
    Draining,
    /// Done: the output is complete.
    Closed,
    /// Ended by an unrecoverable error; the output already emitted stays, truncated.
    Failed,
}

pub open spec fn accepts_tokens(s: SessionState) -> bool {
    s == SessionState::Idle || s == SessionState::Streaming
}

pub open spec fn accepts_audio(s: SessionState) -> bool {
    s == SessionState::Streaming || s == SessionState::Draining
}

pub open spec fn is_terminal(s: SessionState) -> bool {
    s == SessionState::Closed || s == SessionState::Failed
}

/// One narration session: it cuts the arriving text into utterances and stitches
/// their audio into one stream, in order.
pub struct Session {
    state: SessionState,
    segmenter: Segmenter,
    assembler: StreamAssembler,
}

impl Session {
    pub closed spec fn state_spec(&self) -> SessionState {
        self.state
    }

    /// The text received and not yet handed out as an utterance.
    pub closed spec fn pending(&self) -> Seq<char> {
        self.segmenter.pending()
    }

    pub closed spec fn policy_spec(&self) -> BreakPolicy {
        self.segmenter.policy_spec()
    }

    /// Whether the next clip is the first of the stream.
    pub closed spec fn expects_first_clip(&self) -> bool {
        self.assembler.expects_first()
    }

    pub closed spec fn wf(&self) -> bool {
        self.segmenter.wf()
    }

    pub fn new(policy: BreakPolicy) -> (r: Session)
        ensures
            r.wf(),
            r.state_spec() == SessionState::Idle,
            r.pending() == Seq::<char>::empty(),
            r.policy_spec() == policy,
            r.expects_first_clip(),
    {
        Session {
            state: SessionState::Idle,
            segmenter: Segmenter::new(policy),
            assembler: StreamAssembler::new(),
        }
    }

    pub fn state(&self) -> (r: SessionState)
        ensures
            r == self.state_spec(),
    {
        self.state
    }

    /// A token arrived: the utterances it completes, in order. Refused, with
    /// nothing changed, once the token source has ended or the session is over.
    pub fn on_token(&mut self, token: &str) -> (r: Option<Vec<String>>)
        requires
            old(self).wf(),
        ensures
            final(self).wf(),
            final(self).policy_spec() == old(self).policy_spec(),
            final(self).expects_first_clip() == old(self).expects_first_clip(),
            accepts_tokens(old(self).state_spec()) ==> {
                let (us, rest) = segment(old(self).pending() + token@, old(self).policy_spec());
                &&& r matches Some(v) && views(v@) == us
                &&& final(self).pending() == rest
                &&& final(self).state_spec() == SessionState::Streaming
            },
            !accepts_tokens(old(self).state_spec()) ==> r is None && final(self).pending()
                == old(self).pending() && final(self).state_spec() == old(self).state_spec(),
    {
        if self.state == SessionState::Idle || self.state == SessionState::Streaming {
            self.state = SessionState::Streaming;
            Some(self.segmenter.push(token))
        } else {
            None
        }
    }

    /// The token source ended: the remaining text, as the last utterance (possibly
    /// empty). Refused, with nothing changed, unless tokens were still accepted.
    pub fn on_source_end(&mut self) -> (r: Option<String>)
        requires
            old(self).wf(),
        ensures
            final(self).wf(),
            final(self).policy_spec() == old(self).policy_spec(),
            final(self).expects_first_clip() == old(self).expects_first_clip(),
            accepts_tokens(old(self).state_spec()) ==> (r matches Some(u) && u@ == old(
                self,
            ).pending()) && final(self).pending() == Seq::<char>::empty()
                && final(self).state_spec() == SessionState::Draining,
            !accepts_tokens(old(self).state_spec()) ==> r is None && final(self).pending()
                == old(self).pending() && final(self).state_spec() == old(self).state_spec(),
    {
        if self.state == SessionState::Idle || self.state == SessionState::Streaming {
            self.state = SessionState::Draining;
            Some(self.segmenter.flush())
        } else {
            None
        }
    }

    /// The audio of the next utterance arrived: the bytes to write out. A clip
    /// that is not a PCM WAV file with the plain 44-byte header fails the session. Refused, with nothing
    /// changed, unless the session is streaming or draining.
    pub fn on_clip(&mut self, clip: Vec<u8>) -> (r: Option<Vec<u8>>)
        requires
            old(self).wf(),
        ensures
            final(self).wf(),
            final(self).policy_spec() == old(self).policy_spec(),
            final(self).pending() == old(self).pending(),
            accepts_audio(old(self).state_spec()) && has_plain_header(clip@) ==> (r matches Some(
                out,
            ) && out@ == emitted(clip@, old(self).expects_first_clip()))
                && !final(self).expects_first_clip() && final(self).state_spec() == old(
                self,
            ).state_spec(),
            accepts_audio(old(self).state_spec()) && !has_plain_header(clip@) ==> r is None
                && final(self).state_spec() == SessionState::Failed,
            !accepts_audio(old(self).state_spec()) ==> r is None && final(self).state_spec()
                == old(self).state_spec() && final(self).expects_first_clip() == old(
                self,
            ).expects_first_clip(),
    {
        if self.state == SessionState::Streaming || self.state == SessionState::Draining {
            match self.assembler.add(clip) {
                Ok(out) => Some(out),
                Err(_) => {
                    self.state = SessionState::Failed;
                    None
                },
            }
        } else {
            None
        }
    }

    /// The last utterance has been written out: the session is complete. Refused
    /// (`false`), with nothing changed, unless the session is draining.
    pub fn close(&mut self) -> (r: bool)
        ensures
            r == (old(self).state_spec() == SessionState::Draining),
            final(self).state_spec() == if r {
                SessionState::Closed
            } else {
                old(self).state_spec()
            },
            final(self).pending() == old(self).pending(),
            final(self).policy_spec() == old(self).policy_spec(),
            final(self).expects_first_clip() == old(self).expects_first_clip(),
            final(self).wf() == old(self).wf(),
    {
        if self.state == SessionState::Draining {
            self.state = SessionState::Closed;
            true
        } else {
            false
        }
    }

    /// An unrecoverable error: a failed token source, exhausted retries, or a sink
    /// that went away. Ends any session that is not over yet.
    pub fn fail(&mut self)
        ensures
            final(self).state_spec() == if is_terminal(old(self).state_spec()) {
                old(self).state_spec()
            } else {
                SessionState::Failed
            },
            final(self).pending() == old(self).pending(),
            final(self).policy_spec() == old(self).policy_spec(),
            final(self).expects_first_clip() == old(self).expects_first_clip(),
            final(self).wf() == old(self).wf(),
    {
        if self.state != SessionState::Closed && self.state != SessionState::Failed {
            self.state = SessionState::Failed;
        }
    }
}

} // verus!
