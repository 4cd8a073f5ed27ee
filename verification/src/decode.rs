//! The boundary to the binary decoder. `wasmparser` frames the sections of
//! a module and decodes its instructions. Each call into it goes from the
//! module's bytes, and positions in them, to plain values, so that what it
//! yields has a name and the decoded module is a function of the bytes.

use crate::instr::{Effect, Instr};
use crate::interp::{to_unsigned, unsigned};
use crate::memory::{segments_of, DataSegment, Segment};
use crate::module::{constant_of, extract_i32_const, global_entry, global_of, Module, ModuleView};
use crate::value::AbstractValue;
use std::ops::Range;
use vstd::prelude::*;
use vstd::slice::{slice_subrange, slice_to_vec};
use wasmparser::{
    BinaryReader, BinaryReaderError, DataKind, DataSectionReader, FunctionBody,
    GlobalSectionReader, Operator, OperatorsReader, Parser, Payload,
};

verus! {

/// Why a module could not be decoded.
#[derive(Debug, Clone)]
pub struct DecodeError {
    /// What the decoder found wrong.
    pub message: String,
    /// The offset in the module at which it gave up.
    pub offset: u64,
}

/// A piece of a module, as the decoder frames it. A section or a function
/// body is given by the stretch of the module's bytes that holds it.
#[derive(Debug)]
pub enum Piece {
    /// A data section.
    Data(Range<u64>),
    /// A global section.
    Globals(Range<u64>),
    /// The body of one function.
    Body(Range<u64>),
    /// Any other piece.
    Other,
    /// The point at which the framing of the module is broken.
    Broken(DecodeError),
}

/// An entry of a data section: where its offset expression stands, if the
/// segment is active, and where its bytes end and how many they are.
#[derive(Debug)]
pub struct RawData {
    pub offset_expr: Option<Range<u64>>,
    pub data_end: u64,
    pub data_len: usize,
}

/// The pieces that `wasmparser` frames in a module, in the order of the binary.
pub uninterp spec fn framed_pieces(bytes: Seq<u8>) -> Seq<Piece>;

/// The entries that `wasmparser` reads in the data section that stands at
/// `start .. end`, or the error of the first that it cannot read.
pub uninterp spec fn framed_data(bytes: Seq<u8>, start: u64, end: u64) -> Result<
    Seq<RawData>,
    DecodeError,
>;

/// Where the initial-value expression of each global stands, as
/// `wasmparser` reads the global section at `start .. end`, or the error of
/// the first entry that it cannot read.
pub uninterp spec fn framed_globals(bytes: Seq<u8>, start: u64, end: u64) -> Result<
    Seq<Range<u64>>,
    DecodeError,
>;

/// Where each instruction of the function body at `start .. end` begins, as
/// `wasmparser` decodes them in turn behind the declarations of the locals;
/// `None` in place of the first that it cannot decode, which ends the list.
/// No list at all where the declarations cannot be read.
pub uninterp spec fn body_offsets(bytes: Seq<u8>, start: u64, end: u64) -> Option<
    Seq<Option<u64>>,
>;

/// Where each instruction of the constant expression at `start .. end`
/// begins; `None` in place of the first that cannot be decoded.
pub uninterp spec fn expression_offsets(bytes: Seq<u8>, start: u64, end: u64) -> Seq<Option<u64>>;

/// The instruction that `wasmparser` decodes at `at` in the bytes before
/// `end`, if it is one for constants and accesses to globals and locals.
pub uninterp spec fn variable_operator(bytes: Seq<u8>, at: usize, end: usize) -> Option<Instr>;

/// The instruction that `wasmparser` decodes at `at` in the bytes before
/// `end`, if it is one for calls, `drop`, `select`, `return` and `end`.
pub uninterp spec fn control_operator(bytes: Seq<u8>, at: usize, end: usize) -> Option<Instr>;

/// The instruction that `wasmparser` decodes at `at` in the bytes before
/// `end`, if it is one for 32-bit arithmetic and the test for zero.
pub uninterp spec fn arithmetic_operator(bytes: Seq<u8>, at: usize, end: usize) -> Option<Instr>;

/// The instruction that `wasmparser` decodes at `at` in the bytes before
/// `end`, if it is one for 32-bit comparisons.
pub uninterp spec fn comparison_operator(bytes: Seq<u8>, at: usize, end: usize) -> Option<Instr>;

/// The instruction that `wasmparser` decodes at `at` in the bytes before
/// `end`, if it is one for 32-bit bit operations.
pub uninterp spec fn bitwise_operator(bytes: Seq<u8>, at: usize, end: usize) -> Option<Instr>;

/// The instruction that `wasmparser` decodes at `at` in the bytes before
/// `end`, if it is one for loads of 32-bit integers and of floats.
pub uninterp spec fn narrow_load_operator(bytes: Seq<u8>, at: usize, end: usize) -> Option<Instr>;

/// The instruction that `wasmparser` decodes at `at` in the bytes before
/// `end`, if it is one for loads of 64-bit integers.
pub uninterp spec fn wide_load_operator(bytes: Seq<u8>, at: usize, end: usize) -> Option<Instr>;

/// The instruction that `wasmparser` decodes at `at` in the bytes before
/// `end`, if it is one for stores.
pub uninterp spec fn store_operator(bytes: Seq<u8>, at: usize, end: usize) -> Option<Instr>;

/// `Parser::new(0).parse_all`: the pieces of the module in the order of the
/// binary, each section and function body by its `range`. The list ends
/// with the piece that closes the module, or with the first error.
#[verifier::external_body]
fn module_pieces(bytes: &[u8]) -> (pieces: Vec<Piece>)
    ensures
        pieces@ == framed_pieces(bytes@),
{
    let payloads = Parser::new(0).parse_all(bytes);
    let pieces = payloads.map(|payload| match payload {
        Ok(Payload::DataSection(reader)) => Piece::Data(reader.range()),
        Ok(Payload::GlobalSection(reader)) => Piece::Globals(reader.range()),
        Ok(Payload::CodeSectionEntry(body)) => Piece::Body(body.range()),
        Ok(_) => Piece::Other,
        Err(e) => Piece::Broken(DecodeError { message: e.message().to_string(), offset: e.offset() }),
    });
    pieces.collect()
}

/// `DataSectionReader::new` on the bytes at `start .. end`, read through
/// with `SectionLimited::into_iter`: of each entry the range of its offset
/// expression, if it is `DataKind::Active`, the end of its `range` and the
/// length of its `data`; or the error of the first entry that cannot be read.
#[verifier::external_body]
fn data_entries(bytes: &[u8], start: u64, end: u64) -> (entries: Result<Vec<RawData>, DecodeError>)
    requires
        start <= end <= bytes@.len(),
    ensures
        match entries {
            Ok(list) => framed_data(bytes@, start, end) == Ok::<Seq<RawData>, DecodeError>(list@),
            Err(error) => framed_data(bytes@, start, end) == Err::<Seq<RawData>, DecodeError>(
                error,
            ),
        },
{
    let reader = BinaryReader::new(&bytes[start as usize..end as usize], start);
    let section = DataSectionReader::new(reader).and_then(|section| {
        let entries = section.into_iter().map(|entry| entry.map(|data| RawData {
            offset_expr: match data.kind {
                DataKind::Active { offset_expr, .. } => Some(offset_expr.get_binary_reader().range()),
                DataKind::Passive => None,
            },
            data_end: data.range.end,
            data_len: data.data.len(),
        }));
        entries.collect::<Result<Vec<RawData>, BinaryReaderError>>()
    });
    section.map_err(|e| DecodeError { message: e.message().to_string(), offset: e.offset() })
}

/// `GlobalSectionReader::new` on the bytes at `start .. end`, read through
/// with `SectionLimited::into_iter`: the range of the `init_expr` of each
/// global, or the error of the first entry that cannot be read.
#[verifier::external_body]
fn global_initializers(bytes: &[u8], start: u64, end: u64) -> (initializers: Result<
    Vec<Range<u64>>,
    DecodeError,
>)
    requires
        start <= end <= bytes@.len(),
    ensures
        match initializers {
            Ok(list) => framed_globals(bytes@, start, end) == Ok::<Seq<Range<u64>>, DecodeError>(
                list@,
            ),
            Err(error) => framed_globals(bytes@, start, end) == Err::<
                Seq<Range<u64>>,
                DecodeError,
            >(error),
        },
{
    let reader = BinaryReader::new(&bytes[start as usize..end as usize], start);
    let section = GlobalSectionReader::new(reader).and_then(|section| {
        let ranges = section.into_iter().map(|global| {
            global.map(|g| g.init_expr.get_binary_reader().range())
        });
        ranges.collect::<Result<Vec<Range<u64>>, BinaryReaderError>>()
    });
    section.map_err(|e| DecodeError { message: e.message().to_string(), offset: e.offset() })
}

/// `FunctionBody::get_operators_reader` on the bytes at `start .. end`, read
/// through with `OperatorsReader::into_iter_with_offsets`: the offset of
/// each instruction behind the declarations of the locals, `None` in place
/// of the first that cannot be decoded; no list where the declarations
/// cannot be read.
#[verifier::external_body]
fn body_operator_offsets(bytes: &[u8], start: u64, end: u64) -> (offsets: Option<Vec<Option<u64>>>)
    requires
        start <= end <= bytes@.len(),
    ensures
        match offsets {
            Some(list) => body_offsets(bytes@, start, end) == Some(list@),
            None => body_offsets(bytes@, start, end) is None,
        },
{
    let reader = BinaryReader::new(&bytes[start as usize..end as usize], start);
    let operators = FunctionBody::new(reader).get_operators_reader().ok()?;
    Some(operators.into_iter_with_offsets().map(|op| op.ok().map(|(_, at)| at)).collect())
}

/// `OperatorsReader::new` on the bytes at `start .. end`, read through with
/// `OperatorsReader::into_iter_with_offsets`: the offset of each
/// instruction, `None` in place of the first that cannot be decoded.
#[verifier::external_body]
fn expression_operator_offsets(bytes: &[u8], start: u64, end: u64) -> (offsets: Vec<Option<u64>>)
    requires
        start <= end <= bytes@.len(),
    ensures
        offsets@ == expression_offsets(bytes@, start, end),
{
    let reader = BinaryReader::new(&bytes[start as usize..end as usize], start);
    let operators = OperatorsReader::new(reader);
    operators.into_iter_with_offsets().map(|op| op.ok().map(|(_, at)| at)).collect()
}

/// `OperatorsReader::read` on the bytes from `at` to `end`: the variant of
/// `Operator` read there, if it is one for constants and accesses to globals and locals, as the instruction of
/// the same name; `None` for any other and where nothing can be read.
#[verifier::external_body]
fn variable_instr(bytes: &[u8], at: usize, end: usize) -> (instr: Option<Instr>)
    requires
        at <= end <= bytes@.len(),
    ensures
        instr == variable_operator(bytes@, at, end),
{
    match OperatorsReader::new(BinaryReader::new(&bytes[at..end], 0)).read() {
        Ok(Operator::I32Const { value }) => Some(Instr::I32Const(value)),
        Ok(Operator::I64Const { .. }) => Some(Instr::I64Const),
        Ok(Operator::F32Const { .. }) => Some(Instr::F32Const),
        Ok(Operator::F64Const { .. }) => Some(Instr::F64Const),
        Ok(Operator::GlobalGet { global_index }) => Some(Instr::GlobalGet(global_index)),
        Ok(Operator::LocalGet { local_index }) => Some(Instr::LocalGet(local_index)),
        Ok(Operator::LocalSet { local_index }) => Some(Instr::LocalSet(local_index)),
        Ok(Operator::LocalTee { local_index }) => Some(Instr::LocalTee(local_index)),
        _ => None,
    }
}

/// `OperatorsReader::read` on the bytes from `at` to `end`: the variant of
/// `Operator` read there, if it is one for calls, `drop`, `select`, `return` and `end`, as the instruction of
/// the same name; `None` for any other and where nothing can be read.
#[verifier::external_body]
fn control_instr(bytes: &[u8], at: usize, end: usize) -> (instr: Option<Instr>)
    requires
        at <= end <= bytes@.len(),
    ensures
        instr == control_operator(bytes@, at, end),
{
    match OperatorsReader::new(BinaryReader::new(&bytes[at..end], 0)).read() {
        Ok(Operator::Call { .. }) => Some(Instr::Call),
        Ok(Operator::CallIndirect { .. }) => Some(Instr::CallIndirect),
        Ok(Operator::Drop) => Some(Instr::Drop),
        Ok(Operator::Select) => Some(Instr::Select),
        Ok(Operator::Return) => Some(Instr::Return),
        Ok(Operator::End) => Some(Instr::End),
        _ => None,
    }
}

/// `OperatorsReader::read` on the bytes from `at` to `end`: the variant of
/// `Operator` read there, if it is one for 32-bit arithmetic and the test for zero, as the instruction of
/// the same name; `None` for any other and where nothing can be read.
#[verifier::external_body]
fn arithmetic_instr(bytes: &[u8], at: usize, end: usize) -> (instr: Option<Instr>)
    requires
        at <= end <= bytes@.len(),
    ensures
        instr == arithmetic_operator(bytes@, at, end),
{
    match OperatorsReader::new(BinaryReader::new(&bytes[at..end], 0)).read() {
        Ok(Operator::I32Add) => Some(Instr::I32Add),
        Ok(Operator::I32Sub) => Some(Instr::I32Sub),
        Ok(Operator::I32Mul) => Some(Instr::I32Mul),
        Ok(Operator::I32DivS) => Some(Instr::I32DivS),
        Ok(Operator::I32DivU) => Some(Instr::I32DivU),
        Ok(Operator::I32RemS) => Some(Instr::I32RemS),
        Ok(Operator::I32RemU) => Some(Instr::I32RemU),
        Ok(Operator::I32Eqz) => Some(Instr::I32Eqz),
        _ => None,
    }
}

/// `OperatorsReader::read` on the bytes from `at` to `end`: the variant of
/// `Operator` read there, if it is one for 32-bit comparisons, as the instruction of
/// the same name; `None` for any other and where nothing can be read.
#[verifier::external_body]
fn comparison_instr(bytes: &[u8], at: usize, end: usize) -> (instr: Option<Instr>)
    requires
        at <= end <= bytes@.len(),
    ensures
        instr == comparison_operator(bytes@, at, end),
{
    match OperatorsReader::new(BinaryReader::new(&bytes[at..end], 0)).read() {
        Ok(Operator::I32Eq) => Some(Instr::I32Eq),
        Ok(Operator::I32Ne) => Some(Instr::I32Ne),
        Ok(Operator::I32LtS) => Some(Instr::I32LtS),
        Ok(Operator::I32LtU) => Some(Instr::I32LtU),
        Ok(Operator::I32GtS) => Some(Instr::I32GtS),
        Ok(Operator::I32GtU) => Some(Instr::I32GtU),
        Ok(Operator::I32LeS) => Some(Instr::I32LeS),
        Ok(Operator::I32LeU) => Some(Instr::I32LeU),
        Ok(Operator::I32GeS) => Some(Instr::I32GeS),
        Ok(Operator::I32GeU) => Some(Instr::I32GeU),
        _ => None,
    }
}

/// `OperatorsReader::read` on the bytes from `at` to `end`: the variant of
/// `Operator` read there, if it is one for 32-bit bit operations, as the instruction of
/// the same name; `None` for any other and where nothing can be read.
#[verifier::external_body]
fn bitwise_instr(bytes: &[u8], at: usize, end: usize) -> (instr: Option<Instr>)
    requires
        at <= end <= bytes@.len(),
    ensures
        instr == bitwise_operator(bytes@, at, end),
{
    match OperatorsReader::new(BinaryReader::new(&bytes[at..end], 0)).read() {
        Ok(Operator::I32And) => Some(Instr::I32And),
        Ok(Operator::I32Or) => Some(Instr::I32Or),
        Ok(Operator::I32Xor) => Some(Instr::I32Xor),
        Ok(Operator::I32Shl) => Some(Instr::I32Shl),
        Ok(Operator::I32ShrS) => Some(Instr::I32ShrS),
        Ok(Operator::I32ShrU) => Some(Instr::I32ShrU),
        Ok(Operator::I32Rotl) => Some(Instr::I32Rotl),
        Ok(Operator::I32Rotr) => Some(Instr::I32Rotr),
        _ => None,
    }
}

/// `OperatorsReader::read` on the bytes from `at` to `end`: the variant of
/// `Operator` read there, if it is one for loads of 32-bit integers and of floats, as the instruction of
/// the same name; `None` for any other and where nothing can be read.
#[verifier::external_body]
fn narrow_load_instr(bytes: &[u8], at: usize, end: usize) -> (instr: Option<Instr>)
    requires
        at <= end <= bytes@.len(),
    ensures
        instr == narrow_load_operator(bytes@, at, end),
{
    match OperatorsReader::new(BinaryReader::new(&bytes[at..end], 0)).read() {
        Ok(Operator::I32Load { .. }) => Some(Instr::I32Load),
        Ok(Operator::F32Load { .. }) => Some(Instr::F32Load),
        Ok(Operator::F64Load { .. }) => Some(Instr::F64Load),
        Ok(Operator::I32Load8S { .. }) => Some(Instr::I32Load8S),
        Ok(Operator::I32Load8U { .. }) => Some(Instr::I32Load8U),
        Ok(Operator::I32Load16S { .. }) => Some(Instr::I32Load16S),
        Ok(Operator::I32Load16U { .. }) => Some(Instr::I32Load16U),
        _ => None,
    }
}

/// `OperatorsReader::read` on the bytes from `at` to `end`: the variant of
/// `Operator` read there, if it is one for loads of 64-bit integers, as the instruction of
/// the same name; `None` for any other and where nothing can be read.
#[verifier::external_body]
fn wide_load_instr(bytes: &[u8], at: usize, end: usize) -> (instr: Option<Instr>)
    requires
        at <= end <= bytes@.len(),
    ensures
        instr == wide_load_operator(bytes@, at, end),
{
    match OperatorsReader::new(BinaryReader::new(&bytes[at..end], 0)).read() {
        Ok(Operator::I64Load { .. }) => Some(Instr::I64Load),
        Ok(Operator::I64Load8S { .. }) => Some(Instr::I64Load8S),
        Ok(Operator::I64Load8U { .. }) => Some(Instr::I64Load8U),
        Ok(Operator::I64Load16S { .. }) => Some(Instr::I64Load16S),
        Ok(Operator::I64Load16U { .. }) => Some(Instr::I64Load16U),
        Ok(Operator::I64Load32S { .. }) => Some(Instr::I64Load32S),
        Ok(Operator::I64Load32U { .. }) => Some(Instr::I64Load32U),
        _ => None,
    }
}

/// `OperatorsReader::read` on the bytes from `at` to `end`: the variant of
/// `Operator` read there, if it is one for stores, as the instruction of
/// the same name; `None` for any other and where nothing can be read.
#[verifier::external_body]
fn store_instr(bytes: &[u8], at: usize, end: usize) -> (instr: Option<Instr>)
    requires
        at <= end <= bytes@.len(),
    ensures
        instr == store_operator(bytes@, at, end),
{
    match OperatorsReader::new(BinaryReader::new(&bytes[at..end], 0)).read() {
        Ok(Operator::I32Store { .. }) => Some(Instr::I32Store),
        Ok(Operator::I64Store { .. }) => Some(Instr::I64Store),
        Ok(Operator::F32Store { .. }) => Some(Instr::F32Store),
        Ok(Operator::F64Store { .. }) => Some(Instr::F64Store),
        Ok(Operator::I32Store8 { .. }) => Some(Instr::I32Store8),
        Ok(Operator::I32Store16 { .. }) => Some(Instr::I32Store16),
        Ok(Operator::I64Store8 { .. }) => Some(Instr::I64Store8),
        Ok(Operator::I64Store16 { .. }) => Some(Instr::I64Store16),
        Ok(Operator::I64Store32 { .. }) => Some(Instr::I64Store32),
        _ => None,
    }
}

/// The instruction at `at`: the one that the decoder tells apart there,
/// `Other` for any that the analysis does not model.
pub open spec fn instr_at(bytes: Seq<u8>, at: usize, end: usize) -> Instr {
    if let Some(instr) = variable_operator(bytes, at, end) {
        instr
    } else if let Some(instr) = control_operator(bytes, at, end) {
        instr
    } else if let Some(instr) = arithmetic_operator(bytes, at, end) {
        instr
    } else if let Some(instr) = comparison_operator(bytes, at, end) {
        instr
    } else if let Some(instr) = bitwise_operator(bytes, at, end) {
        instr
    } else if let Some(instr) = narrow_load_operator(bytes, at, end) {
        instr
    } else if let Some(instr) = wide_load_operator(bytes, at, end) {
        instr
    } else if let Some(instr) = store_operator(bytes, at, end) {
        instr
    } else {
        Instr::Other
    }
}

/// Whether `start .. end` is a stretch of the module's bytes.
pub open spec fn in_module(bytes: Seq<u8>, start: u64, end: u64) -> bool {
    start <= end <= bytes.len()
}

/// A list of instructions followed by what comes behind it, if anything does.
pub open spec fn followed_by(list: Seq<Instr>, rest: Option<Seq<Instr>>) -> Option<Seq<Instr>> {
    match rest {
        Some(more) => Some(list + more),
        None => None,
    }
}

/// The instructions at the offsets from index `k` on, up to and with the
/// first `return`: nothing behind it is read. There are none where, before
/// a `return`, an instruction could not be decoded or an offset lies
/// outside `start .. end`.
pub open spec fn code_from(
    bytes: Seq<u8>,
    offsets: Seq<Option<u64>>,
    start: u64,
    end: u64,
    k: int,
) -> Option<Seq<Instr>>
    decreases offsets.len() - k,
{
    if k < 0 || k >= offsets.len() {
        Some(Seq::empty())
    } else {
        match offsets[k] {
            Some(at) => if start <= at < end {
                let instr = instr_at(bytes, at as usize, end as usize);
                if instr.spec_effect() == Effect::Return {
                    Some(seq![instr])
                } else {
                    followed_by(seq![instr], code_from(bytes, offsets, start, end, k + 1))
                }
            } else {
                None
            },
            None => None,
        }
    }
}

/// The instructions of the constant expression at `span`.
pub open spec fn expression_code(bytes: Seq<u8>, span: Range<u64>) -> Option<Seq<Instr>> {
    if in_module(bytes, span.start, span.end) {
        code_from(
            bytes,
            expression_offsets(bytes, span.start, span.end),
            span.start,
            span.end,
            0,
        )
    } else {
        None
    }
}

/// The instructions of the function body at `span`; none for a body that
/// cannot be decoded.
pub open spec fn body_code(bytes: Seq<u8>, span: Range<u64>) -> Option<Seq<Instr>> {
    if in_module(bytes, span.start, span.end) {
        match body_offsets(bytes, span.start, span.end) {
            Some(offsets) => code_from(bytes, offsets, span.start, span.end, 0),
            None => None,
        }
    } else {
        None
    }
}

/// The segment that an entry of a data section places: the entry is active,
/// its offset is a single 32-bit constant, and its bytes lie in the module.
pub open spec fn segment_of(bytes: Seq<u8>, raw: RawData) -> Option<Segment> {
    match raw.offset_expr {
        Some(span) => match expression_code(bytes, span) {
            Some(code) => match constant_of(code) {
                Some(value) => if raw.data_len <= raw.data_end <= bytes.len() {
                    Some(
                        Segment {
                            offset: unsigned(value),
                            data: bytes.subrange(raw.data_end - raw.data_len, raw.data_end as int),
                        },
                    )
                } else {
                    None
                },
                None => None,
            },
            None => None,
        },
        None => None,
    }
}

/// The segments that the first `n` entries of a data section place, in order.
pub open spec fn segments_first(bytes: Seq<u8>, entries: Seq<RawData>, n: int) -> Seq<Segment>
    decreases n,
{
    if n <= 0 {
        Seq::empty()
    } else {
        let before = segments_first(bytes, entries, n - 1);
        match segment_of(bytes, entries[n - 1]) {
            Some(segment) => before.push(segment),
            None => before,
        }
    }
}

/// The entry of the global table for the initial-value expression at `span`.
pub open spec fn global_at(bytes: Seq<u8>, span: Range<u64>) -> AbstractValue {
    match expression_code(bytes, span) {
        Some(code) => global_of(code),
        None => AbstractValue::Unknown,
    }
}

/// The entries of the global table for the first `n` globals of a section:
/// one for each global, so that each keeps its index.
pub open spec fn globals_first(bytes: Seq<u8>, initializers: Seq<Range<u64>>, n: int) -> Seq<
    AbstractValue,
>
    decreases n,
{
    if n <= 0 {
        Seq::empty()
    } else {
        globals_first(bytes, initializers, n - 1).push(global_at(bytes, initializers[n - 1]))
    }
}

/// The module with one more piece read. A data section adds its segments
/// and a global section its globals; a function body adds its instructions
/// if it can be decoded, and nothing if it cannot. An entry of a section
/// that cannot be read, and a break in the framing, are errors.
pub open spec fn with_piece(bytes: Seq<u8>, module: ModuleView, piece: Piece) -> Result<
    ModuleView,
    DecodeError,
> {
    match piece {
        Piece::Data(span) => if in_module(bytes, span.start, span.end) {
            match framed_data(bytes, span.start, span.end) {
                Ok(entries) => Ok(
                    ModuleView {
                        segments: module.segments + segments_first(
                            bytes,
                            entries,
                            entries.len() as int,
                        ),
                        ..module
                    },
                ),
                Err(error) => Err(error),
            }
        } else {
            Ok(module)
        },
        Piece::Globals(span) => if in_module(bytes, span.start, span.end) {
            match framed_globals(bytes, span.start, span.end) {
                Ok(initializers) => Ok(
                    ModuleView {
                        globals: module.globals + globals_first(
                            bytes,
                            initializers,
                            initializers.len() as int,
                        ),
                        ..module
                    },
                ),
                Err(error) => Err(error),
            }
        } else {
            Ok(module)
        },
        Piece::Body(span) => match body_code(bytes, span) {
            Some(code) => Ok(ModuleView { functions: module.functions.push(code), ..module }),
            None => Ok(module),
        },
        Piece::Other => Ok(module),
        Piece::Broken(error) => Err(error),
    }
}

/// The module after the first `n` pieces, or the first error among them.
pub open spec fn module_first(bytes: Seq<u8>, pieces: Seq<Piece>, n: int) -> Result<
    ModuleView,
    DecodeError,
>
    decreases n,
{
    if n <= 0 {
        Ok(ModuleView { segments: Seq::empty(), globals: Seq::empty(), functions: Seq::empty() })
    } else {
        match module_first(bytes, pieces, n - 1) {
            Ok(module) => with_piece(bytes, module, pieces[n - 1]),
            Err(error) => Err(error),
        }
    }
}

/// The module that the bytes hold, or the error that its decoding ends with.
pub open spec fn module_of(bytes: Seq<u8>) -> Result<ModuleView, DecodeError> {
    module_first(bytes, framed_pieces(bytes), framed_pieces(bytes).len() as int)
}

/// An error among the first pieces is the error of the whole module.
proof fn lemma_error_stays(bytes: Seq<u8>, pieces: Seq<Piece>, k: int, n: int)
    requires
        0 <= k <= n,
        module_first(bytes, pieces, k) is Err,
    ensures
        module_first(bytes, pieces, n) == module_first(bytes, pieces, k),
    decreases n - k,
{
    if k < n {
        lemma_error_stays(bytes, pieces, k, n - 1);
    }
}

/// The instruction at `at` in the bytes before `end`.
pub fn decode_instr(bytes: &[u8], at: usize, end: usize) -> (instr: Instr)
    requires
        at <= end <= bytes@.len(),
    ensures
        instr == instr_at(bytes@, at, end),
{
    if let Some(instr) = variable_instr(bytes, at, end) {
        instr
    } else if let Some(instr) = control_instr(bytes, at, end) {
        instr
    } else if let Some(instr) = arithmetic_instr(bytes, at, end) {
        instr
    } else if let Some(instr) = comparison_instr(bytes, at, end) {
        instr
    } else if let Some(instr) = bitwise_instr(bytes, at, end) {
        instr
    } else if let Some(instr) = narrow_load_instr(bytes, at, end) {
        instr
    } else if let Some(instr) = wide_load_instr(bytes, at, end) {
        instr
    } else if let Some(instr) = store_instr(bytes, at, end) {
        instr
    } else {
        Instr::Other
    }
}

/// Whether `start .. end` is a stretch of the module's bytes.
fn lies_in(bytes: &[u8], start: u64, end: u64) -> (r: bool)
    ensures
        r == in_module(bytes@, start, end),
{
    start <= end && end <= bytes.len() as u64
}

/// The instructions at the given offsets, up to and with the first `return`.
fn instructions(bytes: &[u8], offsets: &Vec<Option<u64>>, start: u64, end: u64) -> (code: Option<
    Vec<Instr>,
>)
    requires
        in_module(bytes@, start, end),
    ensures
        match code_from(bytes@, offsets@, start, end, 0) {
            Some(list) => code matches Some(found) && found@ == list,
            None => code is None,
        },
{
    let ghost whole = code_from(bytes@, offsets@, start, end, 0);
    let total = bytes.len();
    let mut list: Vec<Instr> = Vec::new();
    let mut k: usize = 0;
    assert(whole == followed_by(list@, code_from(bytes@, offsets@, start, end, 0))) by {
        if whole is Some {
            assert(list@ + whole->0 =~= whole->0);
        }
    }
    while k < offsets.len()
        invariant
            k <= offsets.len(),
            in_module(bytes@, start, end),
            total == bytes@.len(),
            whole == code_from(bytes@, offsets@, start, end, 0),
            whole == followed_by(list@, code_from(bytes@, offsets@, start, end, k as int)),
        decreases offsets.len() - k,
    {
        let ghost rest = code_from(bytes@, offsets@, start, end, k + 1);
        match offsets[k] {
            Some(at) => {
                if start <= at && at < end {
                    let instr = decode_instr(bytes, at as usize, end as usize);
                    let ghost before = list@;
                    list.push(instr);
                    if instr.effect() == Effect::Return {
                        assert(before + seq![instr] =~= list@);
                        return Some(list);
                    }
                    proof {
                        if rest is Some {
                            assert(before + (seq![instr] + rest->0) =~= list@ + rest->0);
                        }
                    }
                } else {
                    return None;
                }
            },
            None => {
                return None;
            },
        }
        k = k + 1;
    }
    proof {
        assert(list@ + Seq::<Instr>::empty() =~= list@);
    }
    Some(list)
}

/// The instructions of the constant expression at `span`.
fn expression_instructions(bytes: &[u8], span: &Range<u64>) -> (code: Option<Vec<Instr>>)
    ensures
        match expression_code(bytes@, *span) {
            Some(list) => code matches Some(found) && found@ == list,
            None => code is None,
        },
{
    if lies_in(bytes, span.start, span.end) {
        let offsets = expression_operator_offsets(bytes, span.start, span.end);
        instructions(bytes, &offsets, span.start, span.end)
    } else {
        None
    }
}

/// The segment that an entry of a data section places, if it places one.
fn placed_entry(bytes: &[u8], raw: &RawData) -> (segment: Option<DataSegment>)
    ensures
        match segment_of(bytes@, *raw) {
            Some(s) => segment matches Some(found) && found@ == s,
            None => segment is None,
        },
{
    match &raw.offset_expr {
        Some(span) => match expression_instructions(bytes, span) {
            Some(code) => match extract_i32_const(code.as_slice()) {
                Some(value) => {
                    if raw.data_len as u64 <= raw.data_end && raw.data_end <= bytes.len() as u64 {
                        let end = raw.data_end as usize;
                        let data = slice_to_vec(slice_subrange(bytes, end - raw.data_len, end));
                        Some(DataSegment { offset: to_unsigned(value), data })
                    } else {
                        None
                    }
                },
                None => None,
            },
            None => None,
        },
        None => None,
    }
}

/// Adds the segments that the entries of a data section place, in order.
fn collect_data_segments(bytes: &[u8], entries: &Vec<RawData>, segments: &mut Vec<DataSegment>)
    ensures
        segments_of(final(segments)@) == segments_of(old(segments)@) + segments_first(
            bytes@,
            entries@,
            entries@.len() as int,
        ),
{
    let ghost held = segments_of(segments@);
    let mut i: usize = 0;
    assert(segments_of(segments@) =~= held + segments_first(bytes@, entries@, 0));
    while i < entries.len()
        invariant
            i <= entries.len(),
            segments_of(segments@) == held + segments_first(bytes@, entries@, i as int),
        decreases entries.len() - i,
    {
        let ghost before = segments_of(segments@);
        if let Some(segment) = placed_entry(bytes, &entries[i]) {
            segments.push(segment);
            assert(segments_of(segments@) =~= before.push(segment@));
            assert(before.push(segment@) =~= held + segments_first(bytes@, entries@, i + 1));
        }
        i = i + 1;
    }
}

/// Adds one entry to the global table for each global of a section.
fn collect_globals(bytes: &[u8], initializers: &Vec<Range<u64>>, globals: &mut Vec<AbstractValue>)
    ensures
        final(globals)@ == old(globals)@ + globals_first(
            bytes@,
            initializers@,
            initializers@.len() as int,
        ),
{
    let ghost held = globals@;
    let mut i: usize = 0;
    assert(globals@ =~= held + globals_first(bytes@, initializers@, 0));
    while i < initializers.len()
        invariant
            i <= initializers.len(),
            globals@ == held + globals_first(bytes@, initializers@, i as int),
        decreases initializers.len() - i,
    {
        let entry = match expression_instructions(bytes, &initializers[i]) {
            Some(code) => global_entry(code.as_slice()),
            None => AbstractValue::Unknown,
        };
        let ghost before = globals@;
        globals.push(entry);
        assert(before.push(entry) =~= held + globals_first(bytes@, initializers@, i + 1));
        i = i + 1;
    }
}

/// The instructions of the function body at `span`; none for a body that
/// cannot be decoded.
fn body_instructions(bytes: &[u8], span: &Range<u64>) -> (code: Option<Vec<Instr>>)
    ensures
        match body_code(bytes@, *span) {
            Some(list) => code matches Some(found) && found@ == list,
            None => code is None,
        },
{
    if lies_in(bytes, span.start, span.end) {
        match body_operator_offsets(bytes, span.start, span.end) {
            Some(offsets) => instructions(bytes, &offsets, span.start, span.end),
            None => None,
        }
    } else {
        None
    }
}

/// Reads one more piece into the module.
fn read_piece(bytes: &[u8], module: &mut Module, piece: &Piece) -> (done: Result<(), DecodeError>)
    ensures
        match with_piece(bytes@, old(module)@, *piece) {
            Ok(m) => done is Ok && final(module)@ == m,
            Err(error) => done == Err::<(), DecodeError>(error),
        },
{
    match piece {
        Piece::Data(span) => {
            if lies_in(bytes, span.start, span.end) {
                match data_entries(bytes, span.start, span.end) {
                    Ok(entries) => {
                        collect_data_segments(bytes, &entries, &mut module.segments);
                    },
                    Err(error) => {
                        return Err(error);
                    },
                }
            }
        },
        Piece::Globals(span) => {
            if lies_in(bytes, span.start, span.end) {
                match global_initializers(bytes, span.start, span.end) {
                    Ok(initializers) => {
                        collect_globals(bytes, &initializers, &mut module.globals);
                    },
                    Err(error) => {
                        return Err(error);
                    },
                }
            }
        },
        Piece::Body(span) => {
            if let Some(code) = body_instructions(bytes, span) {
                let ghost before = module@.functions;
                module.functions.push(code);
                assert(module@.functions =~= before.push(code@));
            }
        },
        Piece::Other => {},
        Piece::Broken(error) => {
            return Err(DecodeError { message: error.message.clone(), offset: error.offset });
        },
    }
    Ok(())
}

/// Decodes a module into the parts that the analysis reads. A module whose
/// framing is broken, or a section of which an entry cannot be read, is an
/// error; a function body that cannot be decoded is left out, and the rest
/// of the module is read on.
pub fn decode_module(bytes: &[u8]) -> (decoded: Result<Module, DecodeError>)
    ensures
        match module_of(bytes@) {
            Ok(m) => decoded matches Ok(module) && module@ == m,
            Err(error) => decoded matches Err(found) && found == error,
        },
{
    let pieces = module_pieces(bytes);
    let mut module = Module { segments: Vec::new(), globals: Vec::new(), functions: Vec::new() };
    let mut i: usize = 0;
    assert(module@.segments =~= Seq::<Segment>::empty());
    assert(module@.functions =~= Seq::<Seq<Instr>>::empty());
    while i < pieces.len()
        invariant
            i <= pieces.len(),
            pieces@ == framed_pieces(bytes@),
            module_first(bytes@, pieces@, i as int) == Ok::<ModuleView, DecodeError>(module@),
        decreases pieces.len() - i,
    {
        match read_piece(bytes, &mut module, &pieces[i]) {
            Ok(()) => {},
            Err(error) => {
                proof {
                    lemma_error_stays(bytes@, pieces@, i + 1, pieces@.len() as int);
                }
                return Err(error);
            },
        }
        i = i + 1;
    }
    Ok(module)
}

} // verus!
