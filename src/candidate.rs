//! The two candidate decoders (Shift_JIS and EUC-JP) and the rule that
//! takes a candidate out of the race.
use encoding_rs::Decoder;
use encoding_rs::DecoderResult;
use encoding_rs::EUC_JP;
use encoding_rs::SHIFT_JIS;
use vstd::prelude::*;
use vstd::slice::slice_subrange;

verus! {

#[verifier::external_type_specification]
#[verifier::external_body]
pub struct ExDecoder(Decoder);

/// How one call of a decoder ended.
#[derive(Clone, Copy, Debug, PartialEq, Eq, Structural)]
pub enum DecodeStatus {
    /// All input was consumed.
    InputEmpty,
    /// The output buffer had no room for the next unit.
    OutputFull,
    /// A malformed byte sequence was found.
    Malformed,
}

/// What one call of a decoder, into an output buffer of one UTF-16 unit,
/// reported: its status, how many units it wrote, and the unit in the buffer.
#[derive(Clone, Copy, Debug, PartialEq, Eq, Structural)]
pub struct DecodeStep {
    pub status: DecodeStatus,
    pub written: usize,
    pub unit: u16,
}

/// The bytes a decoder has been handed so far, one byte per call, each
/// call with `last` false.
pub uninterp spec fn decoder_input(d: Decoder) -> Seq<u8>;

/// Whether a decoder decodes Shift_JIS (else it decodes EUC-JP).
pub uninterp spec fn decoder_is_shift_jis(d: Decoder) -> bool;

/// Whether a decoder has reached the end of its input (a call with `last`
/// true reported `InputEmpty`); such a decoder must not be called again.
pub uninterp spec fn decoder_finished(d: Decoder) -> bool;

/// What `Decoder::decode_to_utf16_without_replacement` reports, writing into
/// a zeroed buffer of one unit, for a Shift_JIS (or else EUC-JP) decoder that
/// has been handed `handed` one byte per call, when it is given `src` and
/// `last`.
pub uninterp spec fn decode_step(shift_jis: bool, handed: Seq<u8>, src: Seq<u8>, last: bool) -> DecodeStep;

/// Relies on `Encoding::new_decoder_without_bom_handling` on `SHIFT_JIS`:
/// a fresh Shift_JIS decoder that has seen no input.
#[verifier::external_body]
fn new_shift_jis_decoder() -> (r: Decoder)
    ensures
        decoder_input(r) == Seq::<u8>::empty(),
        decoder_is_shift_jis(r),
        !decoder_finished(r),
{
    SHIFT_JIS.new_decoder_without_bom_handling()
}

/// Relies on `Encoding::new_decoder_without_bom_handling` on `EUC_JP`:
/// a fresh EUC-JP decoder that has seen no input.
#[verifier::external_body]
fn new_euc_jp_decoder() -> (r: Decoder)
    ensures
        decoder_input(r) == Seq::<u8>::empty(),
        !decoder_is_shift_jis(r),
        !decoder_finished(r),
{
    EUC_JP.new_decoder_without_bom_handling()
}

/// Relies on `Decoder::decode_to_utf16_without_replacement`, called with a
/// one-unit output buffer: its result depends on the decoder's encoding, the
/// bytes it was handed before, `src` and `last` alone. It panics on a decoder
/// that has finished, and finishes a decoder exactly when `last` is true and
/// the status is `InputEmpty`.
#[verifier::external_body]
fn decode_into_one_unit(d: &mut Decoder, src: &[u8], last: bool) -> (r: DecodeStep)
    requires
        !decoder_finished(*old(d)),
        last ==> src@.len() == 0,
        !last ==> src@.len() == 1,
    ensures
        r == decode_step(decoder_is_shift_jis(*old(d)), decoder_input(*old(d)), src@, last),
        decoder_is_shift_jis(*final(d)) == decoder_is_shift_jis(*old(d)),
        !last ==> decoder_input(*final(d)) == decoder_input(*old(d)) + src@,
        decoder_finished(*final(d)) == (last && r.status == DecodeStatus::InputEmpty),
{
    let mut output = [0u16; 1];
    let (result, _read, written) = d.decode_to_utf16_without_replacement(src, &mut output, last);
    let status = match result {
        DecoderResult::InputEmpty => DecodeStatus::InputEmpty,
        DecoderResult::OutputFull => DecodeStatus::OutputFull,
        DecoderResult::Malformed(_, _) => DecodeStatus::Malformed,
    };
    DecodeStep { status, written, unit: output[0] }
}

/// Whether a code unit lies in the half-width katakana block, U+FF61 to U+FF9F.
pub open spec fn is_half_width_katakana(u: u16) -> bool {
    0xFF61 <= u <= 0xFF9F
}

/// Whether a decoder's report takes its candidate out of the race: anything
/// but a clean consumption of the input, or a half-width katakana in the
/// output.
pub open spec fn step_disqualifies(step: DecodeStep) -> bool {
    step.status != DecodeStatus::InputEmpty || (step.written == 1 && is_half_width_katakana(step.unit))
}

/// Whether a Shift_JIS (or else EUC-JP) candidate that has been handed
/// `handed` drops out when given `src` and `last`.
pub open spec fn candidate_rejects(shift_jis: bool, handed: Seq<u8>, src: Seq<u8>, last: bool) -> bool {
    step_disqualifies(decode_step(shift_jis, handed, src, last))
}

/// Decides whether a decoder's report takes its candidate out of the race.
pub fn disqualifies(step: &DecodeStep) -> (r: bool)
    ensures
        r == step_disqualifies(*step),
{
    match step.status {
        DecodeStatus::InputEmpty => step.written == 1 && 0xFF61 <= step.unit && step.unit <= 0xFF9F,
        _ => true,
    }
}

/// A decoder for one candidate encoding, with what it has been handed.
pub struct Candidate {
    decoder: Decoder,
}

impl Candidate {
    /// The bytes this candidate has been handed.
    pub closed spec fn handed(&self) -> Seq<u8> {
        decoder_input(self.decoder)
    }

    /// Whether this candidate decodes Shift_JIS (else EUC-JP).
    pub closed spec fn is_shift_jis(&self) -> bool {
        decoder_is_shift_jis(self.decoder)
    }

    /// Whether this candidate can still be handed input.
    pub closed spec fn is_open(&self) -> bool {
        !decoder_finished(self.decoder)
    }

    pub fn new_shift_jis() -> (r: Candidate)
        ensures
            r.handed() == Seq::<u8>::empty(),
            r.is_shift_jis(),
            r.is_open(),
    {
        Candidate { decoder: new_shift_jis_decoder() }
    }

    pub fn new_euc_jp() -> (r: Candidate)
        ensures
            r.handed() == Seq::<u8>::empty(),
            !r.is_shift_jis(),
            r.is_open(),
    {
        Candidate { decoder: new_euc_jp_decoder() }
    }

    /// Hands `buffer[i]` to the candidate; returns whether it drops out.
    pub fn feed_byte(&mut self, buffer: &[u8], i: usize) -> (r: bool)
        requires
            old(self).is_open(),
            i < buffer@.len(),
        ensures
            r == candidate_rejects(old(self).is_shift_jis(), old(self).handed(), seq![buffer@[i as int]], false),
            final(self).handed() == old(self).handed().push(buffer@[i as int]),
            final(self).is_shift_jis() == old(self).is_shift_jis(),
            final(self).is_open(),
    {
        let n = buffer.len();
        let one = slice_subrange(buffer, i, i + 1);
        assert(one@ =~= seq![buffer@[i as int]]);
        let step = decode_into_one_unit(&mut self.decoder, one, false);
        disqualifies(&step)
    }

    /// Tells the candidate that its input has ended; returns whether it drops
    /// out. The candidate can take no more input afterwards.
    pub fn finish(&mut self) -> (r: bool)
        requires
            old(self).is_open(),
        ensures
            r == candidate_rejects(old(self).is_shift_jis(), old(self).handed(), Seq::<u8>::empty(), true),
            final(self).is_shift_jis() == old(self).is_shift_jis(),
    {
        let none: [u8; 0] = [];
        let src = none.as_slice();
        assert(src@ =~= Seq::<u8>::empty());
        let step = decode_into_one_unit(&mut self.decoder, src, true);
        disqualifies(&step)
    }
}

} // verus!
