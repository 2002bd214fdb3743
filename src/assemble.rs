use vstd::prelude::*;

verus! {

/// Length of the header of a PCM WAV clip.
pub const WAV_HEADER_LEN: usize = 44;

/// Offset of the RIFF chunk size: the length of the whole container.
pub const RIFF_SIZE_OFFSET: usize = 4;

/// Offset of the data chunk size: the length of the payload.
pub const DATA_SIZE_OFFSET: usize = 40;

/// The value written into both length fields of a stream whose length is unknown.
pub const UNKNOWN_LENGTH: u8 = 0xff;

/// Whether byte `i` of a header belongs to one of its two length fields.
pub open spec fn is_length_byte(i: int) -> bool {
    (4 <= i < 8) || (40 <= i < 44)
}

/// Clip `c` with both length fields of its header set to all ones.
pub open spec fn with_unknown_length(c: Seq<u8>) -> Seq<u8> {
    Seq::new(c.len(), |i: int| if is_length_byte(i) { 0xffu8 } else { c[i] })
}

/// The payload of clip `c`: what follows its header.
pub open spec fn payload(c: Seq<u8>) -> Seq<u8> {
    c.subrange(44, c.len() as int)
}

/// The bytes emitted for clip `c`.
pub open spec fn emitted(c: Seq<u8>, first: bool) -> Seq<u8> {
    if first {
        with_unknown_length(c)
    } else {
        payload(c)
    }
}

/// The stream emitted for `clips`, added one after another from the start of a
/// session.
pub open spec fn assembled(clips: Seq<Seq<u8>>) -> Seq<u8>
    decreases clips.len(),
{
    if clips.len() == 0 {
        seq![]
    } else {
        assembled(clips.drop_last()) + emitted(clips.last(), clips.len() == 1)
    }
}

/// Whether `c` starts with the plain 44-byte header of a PCM WAV file: a RIFF
/// "WAVE" container whose 16-byte "fmt " chunk has format tag 1 (integer PCM)
/// and is followed directly by the "data" chunk.
pub open spec fn has_plain_header(c: Seq<u8>) -> bool {
    &&& c.len() >= 44
    &&& c[0] == 0x52u8 && c[1] == 0x49u8 && c[2] == 0x46u8 && c[3] == 0x46u8
    &&& c[8] == 0x57u8 && c[9] == 0x41u8 && c[10] == 0x56u8 && c[11] == 0x45u8
    &&& c[12] == 0x66u8 && c[13] == 0x6du8 && c[14] == 0x74u8 && c[15] == 0x20u8
    &&& c[16] == 16u8 && c[17] == 0u8 && c[18] == 0u8 && c[19] == 0u8
    &&& c[20] == 1u8 && c[21] == 0u8
    &&& c[36] == 0x64u8 && c[37] == 0x61u8 && c[38] == 0x74u8 && c[39] == 0x61u8
}

/// Whether `c` starts with the plain 44-byte header of a PCM WAV file.
pub fn plain_header(c: &[u8]) -> (r: bool)
    ensures
        r == has_plain_header(c@),
{
    c.len() >= 44 && c[0] == 0x52 && c[1] == 0x49 && c[2] == 0x46 && c[3] == 0x46 && c[8] == 0x57
        && c[9] == 0x41 && c[10] == 0x56 && c[11] == 0x45 && c[12] == 0x66 && c[13] == 0x6d
        && c[14] == 0x74 && c[15] == 0x20 && c[16] == 16 && c[17] == 0 && c[18] == 0 && c[19]
        == 0 && c[20] == 1 && c[21] == 0 && c[36] == 0x64 && c[37] == 0x61 && c[38] == 0x74
        && c[39] == 0x61
}

/// Why a clip was refused.
#[derive(Clone, Copy, Debug, PartialEq, Eq, Structural)]
pub enum AssembleError {
    /// The clip is shorter than a WAV header.
    ClipTooShort,
    /// The clip's header is not the plain 44-byte PCM header, so the payload
    /// does not start at byte 44.
    NotPlainWav,
}

/// Stitches the clips of one session, each a WAV file of its own, into one
/// continuous WAV stream.
pub struct StreamAssembler {
    is_first_clip: bool,
}

impl StreamAssembler {
    /// Whether the next clip is the first of the session.
    pub closed spec fn expects_first(&self) -> bool {
        self.is_first_clip
    }

    pub fn new() -> (r: StreamAssembler)
        ensures
            r.expects_first(),
    {
        StreamAssembler { is_first_clip: true }
    }

    /// The bytes to emit for `clip`, which must be a PCM WAV file with the plain
    /// 44-byte header: the first clip whole, with both length
    /// fields of its header set to all ones; every later clip without its header.
    pub fn add(&mut self, clip: Vec<u8>) -> (r: Result<Vec<u8>, AssembleError>)
        ensures
            clip@.len() < WAV_HEADER_LEN ==> r == Err::<Vec<u8>, AssembleError>(
                AssembleError::ClipTooShort,
            ) && final(self).expects_first() == old(self).expects_first(),
            clip@.len() >= WAV_HEADER_LEN && !has_plain_header(clip@) ==> r == Err::<
                Vec<u8>,
                AssembleError,
            >(AssembleError::NotPlainWav) && final(self).expects_first()
                == old(self).expects_first(),
            has_plain_header(clip@) ==> (r matches Ok(out) && out@ == emitted(
                clip@,
                old(self).expects_first(),
            )) && !final(self).expects_first(),
    {
        if clip.len() < WAV_HEADER_LEN {
            return Err(AssembleError::ClipTooShort);
        }
        if !plain_header(clip.as_slice()) {
            return Err(AssembleError::NotPlainWav);
        }
        let mut clip = clip;
        let ghost original = clip@;
        if self.is_first_clip {
            self.is_first_clip = false;
            let mut i: usize = 0;
            while i < WAV_HEADER_LEN
                invariant
                    clip@.len() == original.len(),
                    original.len() >= 44,
                    forall|j: int|
                        0 <= j < clip@.len() ==> #[trigger] clip@[j] == if j < i && is_length_byte(
                            j,
                        ) {
                            0xffu8
                        } else {
                            original[j]
                        },
                decreases WAV_HEADER_LEN - i,
            {
                if (RIFF_SIZE_OFFSET <= i && i < RIFF_SIZE_OFFSET + 4) || (DATA_SIZE_OFFSET <= i
                    && i < DATA_SIZE_OFFSET + 4) {
                    clip.set(i, UNKNOWN_LENGTH);
                }
                i = i + 1;
            }
            assert(clip@ =~= with_unknown_length(original));
            Ok(clip)
        } else {
            let rest = clip.split_off(WAV_HEADER_LEN);
            Ok(rest)
        }
    }
}

/// For a session of two clips, the stream starts with the first clip's header
/// with both length fields set to all ones, and goes on with the first clip's
/// payload followed by the second clip's payload, whose header is left out.
pub proof fn lemma_two_clip_stream(c1: Seq<u8>, c2: Seq<u8>)
    requires
        c1.len() >= 44,
        c2.len() >= 44,
    ensures
        assembled(seq![c1, c2]).len() == c1.len() + c2.len() - 44,
        assembled(seq![c1, c2]).subrange(0, 44) == with_unknown_length(c1.subrange(0, 44)),
        assembled(seq![c1, c2]).subrange(44, assembled(seq![c1, c2]).len() as int) == payload(c1)
            + payload(c2),
{
    let clips = seq![c1, c2];
    assert(clips.drop_last() =~= seq![c1]);
    assert(seq![c1].drop_last() =~= Seq::<Seq<u8>>::empty());
    assert(assembled(Seq::<Seq<u8>>::empty()) =~= Seq::<u8>::empty());
    assert(seq![c1].last() == c1);
    assert(assembled(seq![c1]) =~= with_unknown_length(c1));
    let out = assembled(clips);
    assert(out =~= with_unknown_length(c1) + payload(c2));
    assert(out.subrange(44, out.len() as int) =~= payload(c1) + payload(c2));
    assert(out.subrange(0, 44) =~= with_unknown_length(c1.subrange(0, 44)));
}

/// The payloads of `clips`, in order.
pub open spec fn payloads(clips: Seq<Seq<u8>>) -> Seq<Seq<u8>> {
    clips.map_values(|c: Seq<u8>| payload(c))
}

/// Whether every clip holds a full header.
pub open spec fn all_headed(clips: Seq<Seq<u8>>) -> bool {
    forall|k: int| 0 <= k < clips.len() ==> (#[trigger] clips[k]).len() >= 44
}

/// For any number of clips, the stream is the first clip's header with both
/// length fields set to all ones, followed by the payload of every clip, in
/// order: nothing is lost, repeated or reordered.
pub proof fn lemma_stream_is_header_and_payloads(clips: Seq<Seq<u8>>)
    requires
        clips.len() >= 1,
        all_headed(clips),
    ensures
        assembled(clips) == with_unknown_length(clips[0]).subrange(0, 44) + payloads(
            clips,
        ).flatten(),
    decreases clips.len(),
{
    let c0 = clips[0];
    let header = with_unknown_length(c0).subrange(0, 44);
    assert(clips[0].len() >= 44);
    if clips.len() == 1 {
        assert(clips.drop_last() =~= Seq::<Seq<u8>>::empty());
        assert(assembled(Seq::<Seq<u8>>::empty()) =~= Seq::<u8>::empty());
        assert(payloads(clips) =~= seq![payload(c0)]);
        payloads(clips).lemma_flatten_one_element();
        assert(with_unknown_length(c0) =~= header + payload(c0));
        assert(assembled(clips) =~= with_unknown_length(c0));
    } else {
        let init = clips.drop_last();
        assert(init[0] == c0);
        assert forall|k: int| 0 <= k < init.len() implies (#[trigger] init[k]).len() >= 44 by {
            assert(init[k] == clips[k]);
        }
        lemma_stream_is_header_and_payloads(init);
        assert(clips.last() == clips[clips.len() - 1]);
        assert(payloads(clips) =~= payloads(init).push(payload(clips.last())));
        payloads(init).lemma_flatten_push(payload(clips.last()));
        assert(assembled(clips) =~= header + payloads(init).flatten() + payload(clips.last()));
    }
}

} // verus!
