use vstd::prelude::*;

use base64::Engine;

verus! {

/// What the standard base64 alphabet, with padding, makes of `b`.
pub uninterp spec fn base64_standard(b: Seq<u8>) -> Seq<char>;

/// Relies on base64's `Engine::encode` with the `STANDARD` engine: the padded
/// encoding, four characters for each started group of three bytes.
#[verifier::external_body]
fn encode_standard(b: &[u8]) -> (r: String)
    requires
        4 * ((b@.len() + 2) / 3) <= usize::MAX,
    ensures
        r@ == base64_standard(b@),
        r@.len() == 4 * ((b@.len() + 2) / 3),
{
    base64::engine::general_purpose::STANDARD.encode(b)
}

/// Audio bytes that travel as base64 text.
pub struct Base64(Vec<u8>);

impl Base64 {
    pub fn new(bytes: Vec<u8>) -> (r: Base64)
        ensures
            r.bytes_spec() == bytes@,
    {
        Base64(bytes)
    }

    pub closed spec fn bytes_spec(&self) -> Seq<u8> {
        self.0@
    }

    pub fn bytes(&self) -> (r: &Vec<u8>)
        ensures
            r@ == self.bytes_spec(),
    {
        &self.0
    }

    /// The bytes in standard base64, with padding.
    pub fn encoded(&self) -> (r: String)
        requires
            4 * ((self.bytes_spec().len() + 2) / 3) <= usize::MAX,
        ensures
            r@ == base64_standard(self.bytes_spec()),
            r@.len() == 4 * ((self.bytes_spec().len() + 2) / 3),
    {
        encode_standard(self.0.as_slice())
    }
}

/// One piece of the story: the text of an utterance and its audio.
pub struct StoryChunk {
    text: String,
    audio: Base64,
}

impl StoryChunk {
    pub fn new(text: String, audio: Vec<u8>) -> (r: StoryChunk)
        ensures
            r.text_spec() == text@,
            r.audio_spec() == audio@,
    {
        StoryChunk { text, audio: Base64::new(audio) }
    }

    pub closed spec fn text_spec(&self) -> Seq<char> {
        self.text@
    }

    pub closed spec fn audio_spec(&self) -> Seq<u8> {
        self.audio.bytes_spec()
    }

    pub fn text(&self) -> (r: &String)
        ensures
            r@ == self.text_spec(),
    {
        &self.text
    }

    pub fn audio(&self) -> (r: &Base64)
        ensures
            r.bytes_spec() == self.audio_spec(),
    {
        &self.audio
    }
}

} // verus!
