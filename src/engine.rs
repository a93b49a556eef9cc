use vstd::prelude::*;
use crate::sink::{FragmentView, Output};
use iced_x86::{
    Decoder, DecoderError, DecoderOptions, Formatter, FormatterTextKind, IntelFormatter,
};

verus! {

/// Declares iced_x86's `FormatterTextKind` with its variants, so that verified
/// code can tell them apart.
#[verifier::external_type_specification]
pub struct ExFormatterTextKind(FormatterTextKind);

/// The length that the decoder gives the first instruction of `code`; the
/// address of the instruction plays no part in it.
pub uninterp spec fn decoded_len(code: Seq<u8>, bitness: u32) -> usize;

/// Whether `code` ends before its first instruction is complete.
pub uninterp spec fn ends_short(code: Seq<u8>, bitness: u32) -> bool;

/// The fragments that the formatter writes for the first instruction of `code` at
/// address `ip`, with the first operand placed at `column`.
pub uninterp spec fn formatted(code: Seq<u8>, ip: u64, bitness: u32, column: u32) -> Seq<
    FragmentView,
>;

/// Relies on iced_x86's `Decoder::with_ip` and `Decoder::decode` to decode the first
/// instruction of `code` at address `ip` (`Instruction::len` is 0 to 15 bytes, the
/// bytes read, whatever the address), on
/// `Decoder::last_error` to report `NoMoreBytes` when `code` ends inside it, and on
/// `IntelFormatter::format` to write its text, fragment by fragment and in display
/// order, through `Output::write`. `Decoder::with_ip` panics on any other bitness.
#[verifier::external_body]
pub(crate) fn decode_and_format(
    code: &[u8],
    ip: u64,
    bitness: u32,
    column: u32,
    out: &mut Output,
) -> (r: (usize, bool))
    requires
        bitness == 16 || bitness == 32 || bitness == 64,
    ensures
        r.0 == decoded_len(code@, bitness),
        r.0 <= 15,
        r.1 == ends_short(code@, bitness),
        final(out)@ == old(out)@ + formatted(code@, ip, bitness, column),
{
    let mut decoder = Decoder::with_ip(bitness, code, ip, DecoderOptions::NONE);
    let instruction = decoder.decode();
    let mut formatter = IntelFormatter::new();
    formatter.options_mut().set_first_operand_char_index(column);
    formatter.format(&instruction, out);
    (instruction.len(), decoder.last_error() == DecoderError::NoMoreBytes)
}

} // verus!
