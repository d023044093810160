//! The `std::*` path-call lowerings of the code generator, as far as they
//! decide: the checks they make before they emit a call into the C runtime
//! (how many arguments each call takes, which type each argument must have
//! once lowered), and the shape of the call they emit (how each argument is
//! prepared, which runtime function is called, when the call fails and what
//! its `IoError` cites, and how its value is made from what the runtime
//! returns).
//!
//! A lowering proceeds as: check the argument count; lower each argument in
//! order, check its type and prepare it; then emit the runtime call and
//! shape its result. The first check that fails decides the error.
use vstd::prelude::*;
use crate::decimal::{digits_of, u64_text};

verus! {

/// Types of lowered values that the checks distinguish.
#[derive(Debug, Clone, Copy, PartialEq, Eq)]
pub enum CodegenTy {
    Int,
    Bool,
    String,
    StringView,
    Bytes,
    BytesView,
    Unit,
}

#[derive(Debug, PartialEq, Eq)]
pub enum CodegenError {
    Unsupported(String),
    LlvmEmit(String),
}

pub enum SpecCodegenError {
    Unsupported(Seq<char>),
    LlvmEmit(Seq<char>),
}

impl View for CodegenError {
    type V = SpecCodegenError;

    open spec fn view(&self) -> SpecCodegenError {
        match self {
            CodegenError::Unsupported(s) => SpecCodegenError::Unsupported(s@),
            CodegenError::LlvmEmit(s) => SpecCodegenError::LlvmEmit(s@),
        }
    }
}

/// The `std::*` calls that lower to a runtime call.
#[derive(Debug, Clone, Copy, PartialEq, Eq)]
pub enum StdCall {
    BusLocalDispatch,
    CryptoSha1,
    CryptoSha256,
    CryptoHmacSha256,
    CryptoCrc32,
    FileOpen,
    FileWriteBytes,
    FileSeek,
    FileReadLine,
    FileClose,
    FileAtEof,
    RandSeedFromTime,
    RandNextInt,
}

/// What an argument must be once lowered.
#[derive(Debug, Clone, Copy, PartialEq, Eq)]
pub enum ParamKind {
    /// `String`, or a view of one.
    Text,
    /// `Bytes`, or a view of some.
    Bytes,
    /// `Int`, exactly.
    Int,
}

/// What a lowered call gives back.
#[derive(Debug, Clone, Copy, PartialEq, Eq)]
pub enum CallResult {
    /// A value of the given type.
    Value(CodegenTy),
    /// A fallible call whose success carries the given value (or nothing)
    /// and whose failure is an `IoError`.
    Fallible(Option<CodegenTy>),
    /// Nothing: the call stands as a statement.
    Nothing,
}

pub open spec fn call_path(c: StdCall) -> Seq<char> {
    match c {
        StdCall::BusLocalDispatch => "std::bus::__local_dispatch"@,
        StdCall::CryptoSha1 => "std::crypto::sha1"@,
        StdCall::CryptoSha256 => "std::crypto::sha256"@,
        StdCall::CryptoHmacSha256 => "std::crypto::hmac_sha256"@,
        StdCall::CryptoCrc32 => "std::crypto::crc32"@,
        StdCall::FileOpen => "std::io::file::__open"@,
        StdCall::FileWriteBytes => "std::io::file::__write_bytes"@,
        StdCall::FileSeek => "std::io::file::__seek"@,
        StdCall::FileReadLine => "std::io::file::__read_line"@,
        StdCall::FileClose => "std::io::file::__close"@,
        StdCall::FileAtEof => "std::io::file::__at_eof"@,
        StdCall::RandSeedFromTime => "std::rand::seed_from_time"@,
        StdCall::RandNextInt => "std::rand::next_int"@,
    }
}

/// The number of arguments each call takes.
pub open spec fn arity(c: StdCall) -> nat {
    match c {
        StdCall::RandSeedFromTime => 0,
        StdCall::CryptoSha1 | StdCall::CryptoSha256 | StdCall::CryptoCrc32 | StdCall::FileReadLine
        | StdCall::FileClose | StdCall::FileAtEof | StdCall::RandNextInt => 1,
        _ => 2,
    }
}

/// The middle of the wrong-count message, between the path and the count.
pub open spec fn arity_phrase(c: StdCall) -> Seq<char> {
    match c {
        StdCall::BusLocalDispatch => " takes 2 args (subject, bytes), got "@,
        StdCall::CryptoSha1 | StdCall::CryptoSha256 | StdCall::CryptoCrc32 => " takes 1 arg (b), got "@,
        StdCall::CryptoHmacSha256 => " takes 2 args (key, msg), got "@,
        StdCall::FileOpen => " takes 2 args (path, mode), got "@,
        StdCall::FileWriteBytes => " takes 2 args (fd, bytes), got "@,
        StdCall::FileSeek => " takes 2 args (fd, offset), got "@,
        StdCall::FileReadLine | StdCall::FileClose | StdCall::FileAtEof => " takes 1 arg (fd), got "@,
        StdCall::RandSeedFromTime => " takes 0 args, got "@,
        StdCall::RandNextInt => " takes 1 arg (max), got "@,
    }
}

/// The name of argument `i` of `c`, as messages cite it.
pub open spec fn param_name(c: StdCall, i: nat) -> Seq<char> {
    match c {
        StdCall::BusLocalDispatch => if i == 0 {
            "subject"@
        } else {
            "bytes"@
        },
        StdCall::CryptoSha1 | StdCall::CryptoSha256 | StdCall::CryptoCrc32 => "b"@,
        StdCall::CryptoHmacSha256 => if i == 0 {
            "key"@
        } else {
            "msg"@
        },
        StdCall::FileOpen => if i == 0 {
            "path"@
        } else {
            "mode"@
        },
        StdCall::FileWriteBytes => if i == 0 {
            "fd"@
        } else {
            "bytes"@
        },
        StdCall::FileSeek => if i == 0 {
            "fd"@
        } else {
            "offset"@
        },
        StdCall::FileReadLine | StdCall::FileClose | StdCall::FileAtEof => "fd"@,
        StdCall::RandSeedFromTime => Seq::empty(),
        StdCall::RandNextInt => "max"@,
    }
}

/// What argument `i` of `c` must be.
pub open spec fn param_kind(c: StdCall, i: nat) -> ParamKind {
    match c {
        StdCall::BusLocalDispatch => if i == 0 {
            ParamKind::Text
        } else {
            ParamKind::Bytes
        },
        StdCall::FileOpen => ParamKind::Text,
        StdCall::FileWriteBytes => if i == 0 {
            ParamKind::Int
        } else {
            ParamKind::Bytes
        },
        StdCall::FileSeek | StdCall::FileReadLine | StdCall::FileClose | StdCall::FileAtEof
        | StdCall::RandNextInt | StdCall::RandSeedFromTime => ParamKind::Int,
        _ => ParamKind::Bytes,
    }
}

pub open spec fn kind_accepts(k: ParamKind, ty: CodegenTy) -> bool {
    match k {
        ParamKind::Text => ty == CodegenTy::String || ty == CodegenTy::StringView,
        ParamKind::Bytes => ty == CodegenTy::Bytes || ty == CodegenTy::BytesView,
        ParamKind::Int => ty == CodegenTy::Int,
    }
}

pub open spec fn kind_text(k: ParamKind) -> Seq<char> {
    match k {
        ParamKind::Text => "String"@,
        ParamKind::Bytes => "Bytes"@,
        ParamKind::Int => "Int"@,
    }
}

/// How `{:?}` writes a type.
pub open spec fn ty_debug(ty: CodegenTy) -> Seq<char> {
    match ty {
        CodegenTy::Int => "Int"@,
        CodegenTy::Bool => "Bool"@,
        CodegenTy::String => "String"@,
        CodegenTy::StringView => "StringView"@,
        CodegenTy::Bytes => "Bytes"@,
        CodegenTy::BytesView => "BytesView"@,
        CodegenTy::Unit => "Unit"@,
    }
}

/// The message of a wrong argument count.
pub open spec fn arity_message(c: StdCall, got: nat) -> Seq<char> {
    call_path(c) + arity_phrase(c) + digits_of(got)
}

/// The message of a wrongly typed argument.
pub open spec fn arg_message(c: StdCall, i: nat, ty: CodegenTy) -> Seq<char> {
    call_path(c) + ": "@ + param_name(c, i) + " must be "@ + kind_text(param_kind(c, i)) + ", got "@
        + ty_debug(ty)
}

/// The runtime function a call becomes.
pub open spec fn runtime_symbol_of(c: StdCall) -> Seq<char> {
    match c {
        StdCall::BusLocalDispatch => "lotus_bus_dispatch_wire"@,
        StdCall::CryptoSha1 => "lotus_crypto_sha1"@,
        StdCall::CryptoSha256 => "lotus_crypto_sha256"@,
        StdCall::CryptoHmacSha256 => "lotus_crypto_hmac_sha256"@,
        StdCall::CryptoCrc32 => "lotus_crypto_crc32"@,
        StdCall::FileOpen => "lotus_file_open"@,
        StdCall::FileWriteBytes => "lotus_file_write_all"@,
        StdCall::FileSeek => "lotus_file_seek"@,
        StdCall::FileReadLine => "lotus_file_read_line_global"@,
        StdCall::FileClose => "lotus_file_close"@,
        StdCall::FileAtEof => "lotus_file_at_eof"@,
        StdCall::RandSeedFromTime => "lotus_rand_seed_from_time"@,
        StdCall::RandNextInt => "lotus_rand_next_int"@,
    }
}

/// What a lowered call gives back.
pub open spec fn result_of(c: StdCall) -> CallResult {
    match c {
        StdCall::BusLocalDispatch | StdCall::CryptoCrc32 | StdCall::FileClose | StdCall::RandNextInt =>
            CallResult::Value(CodegenTy::Int),
        StdCall::CryptoSha1 | StdCall::CryptoSha256 | StdCall::CryptoHmacSha256 => CallResult::Value(
            CodegenTy::Bytes,
        ),
        StdCall::FileOpen => CallResult::Fallible(Some(CodegenTy::Int)),
        StdCall::FileWriteBytes | StdCall::FileSeek => CallResult::Fallible(None),
        StdCall::FileReadLine => CallResult::Value(CodegenTy::String),
        StdCall::FileAtEof => CallResult::Value(CodegenTy::Bool),
        StdCall::RandSeedFromTime => CallResult::Nothing,
    }
}

/// How a checked argument is brought into the form the runtime function
/// takes. Prepared arguments are passed in argument order.
#[derive(Debug, Clone, Copy, PartialEq, Eq)]
pub enum ArgPrep {
    /// Passed as lowered: an `Int`, taken as a 64-bit integer.
    AsIs,
    /// A view is unpacked to the `String` or `Bytes` it views; a value that
    /// is no view is passed as it is.
    UnpackView,
    /// A `Bytes` (a view unpacked first) is passed as two values: the
    /// pointer to its body, `BYTES_LENGTH_PREFIX` bytes past its start, and
    /// its length, read from that prefix.
    BodyAndLength,
    /// An `Int` file descriptor is narrowed to its low 32 bits.
    NarrowToI32,
}

/// The size in bytes of the length prefix that starts every `Bytes`.
pub const BYTES_LENGTH_PREFIX: u64 = 8;

/// How the value of a lowered call is made from what the runtime returns.
#[derive(Debug, Clone, Copy, PartialEq, Eq)]
pub enum ResultShape {
    /// The runtime's return value as it is.
    AsReturned,
    /// The runtime's 32-bit status, sign-extended to an `Int`.
    SignExtendStatus,
    /// A `Bool`: true when the runtime's 32-bit status is 1 (no more bytes)
    /// or negative (an error, read as end of file so that a read-line loop
    /// over a broken descriptor ends); false otherwise.
    EndOfFileOrError,
    /// The constant `Int` 0; what the runtime returns is not used.
    ConstZero,
    /// No value.
    NoValue,
}

/// Where the `IoError` of a failed call takes its `path` from.
#[derive(Debug, Clone, Copy, PartialEq, Eq)]
pub enum ErrorPathSource {
    /// The prepared argument of that index.
    Argument(usize),
    /// The call's fixed label.
    Label,
}

/// What a runtime status means for the lowered call.
#[derive(Debug, Clone, Copy, PartialEq, Eq)]
pub enum StatusMeaning {
    /// The call failed: the `IoError` branch is taken.
    Failed,
    Int(i64),
    Bool(bool),
    Unit,
}

/// How argument `i` of `c` is prepared.
pub open spec fn arg_prep(c: StdCall, i: nat) -> ArgPrep {
    match c {
        StdCall::BusLocalDispatch => if i == 0 {
            ArgPrep::UnpackView
        } else {
            ArgPrep::BodyAndLength
        },
        StdCall::FileWriteBytes => if i == 0 {
            ArgPrep::NarrowToI32
        } else {
            ArgPrep::BodyAndLength
        },
        StdCall::FileSeek => if i == 0 {
            ArgPrep::NarrowToI32
        } else {
            ArgPrep::AsIs
        },
        StdCall::FileReadLine | StdCall::FileClose | StdCall::FileAtEof => ArgPrep::NarrowToI32,
        StdCall::RandNextInt | StdCall::RandSeedFromTime => ArgPrep::AsIs,
        _ => ArgPrep::UnpackView,
    }
}

/// Whether the caller's arena is made current before the runtime call, so
/// that what it allocates lives as long as the caller's values.
pub open spec fn sets_caller_arena(c: StdCall) -> bool {
    c == StdCall::FileReadLine
}

/// Whether the runtime returns a 32-bit status.
pub open spec fn returns_status(c: StdCall) -> bool {
    match c {
        StdCall::FileOpen | StdCall::FileWriteBytes | StdCall::FileSeek | StdCall::FileClose
        | StdCall::FileAtEof => true,
        _ => false,
    }
}

/// Whether the call fails, taking the `IoError` branch, exactly when the
/// runtime's status is negative.
pub open spec fn fails_on_negative(c: StdCall) -> bool {
    match c {
        StdCall::FileOpen | StdCall::FileWriteBytes | StdCall::FileSeek => true,
        _ => false,
    }
}

pub open spec fn result_shape(c: StdCall) -> ResultShape {
    match c {
        StdCall::FileOpen | StdCall::FileClose => ResultShape::SignExtendStatus,
        StdCall::FileAtEof => ResultShape::EndOfFileOrError,
        StdCall::BusLocalDispatch => ResultShape::ConstZero,
        StdCall::FileWriteBytes | StdCall::FileSeek | StdCall::RandSeedFromTime => ResultShape::NoValue,
        _ => ResultShape::AsReturned,
    }
}

pub open spec fn error_path_source(c: StdCall) -> Option<ErrorPathSource> {
    match c {
        StdCall::FileOpen => Some(ErrorPathSource::Argument(0)),
        StdCall::FileWriteBytes | StdCall::FileSeek => Some(ErrorPathSource::Label),
        _ => None,
    }
}

/// The fixed label a failed call cites as its `IoError` path.
pub open spec fn error_label(c: StdCall) -> Seq<char> {
    match c {
        StdCall::FileWriteBytes => "std::io::file::write_bytes"@,
        StdCall::FileSeek => "std::io::file::seek"@,
        _ => ""@,
    }
}

/// What the runtime status `status` of `c` means, for a call whose runtime
/// returns one.
pub open spec fn status_meaning(c: StdCall, status: i32) -> Option<StatusMeaning> {
    if !returns_status(c) {
        None
    } else if fails_on_negative(c) && status < 0 {
        Some(StatusMeaning::Failed)
    } else {
        match result_shape(c) {
            ResultShape::SignExtendStatus => Some(StatusMeaning::Int(status as i64)),
            ResultShape::EndOfFileOrError => Some(StatusMeaning::Bool(status == 1 || status < 0)),
            _ => Some(StatusMeaning::Unit),
        }
    }
}

/// The first failing check of a call whose arguments lower to `tys`: the
/// count, then each argument in order.
pub open spec fn first_arg_error(c: StdCall, tys: Seq<CodegenTy>, from: nat) -> Option<Seq<char>>
    decreases tys.len() - from,
{
    if from >= tys.len() {
        None
    } else if !kind_accepts(param_kind(c, from), tys[from as int]) {
        Some(arg_message(c, from, tys[from as int]))
    } else {
        first_arg_error(c, tys, from + 1)
    }
}

pub open spec fn call_check(c: StdCall, tys: Seq<CodegenTy>) -> Option<Seq<char>> {
    if tys.len() != arity(c) {
        Some(arity_message(c, tys.len()))
    } else {
        first_arg_error(c, tys, 0)
    }
}

impl CodegenTy {
    pub fn debug_text(&self) -> (r: &'static str)
        ensures
            r@ == ty_debug(*self),
    {
        match self {
            CodegenTy::Int => "Int",
            CodegenTy::Bool => "Bool",
            CodegenTy::String => "String",
            CodegenTy::StringView => "StringView",
            CodegenTy::Bytes => "Bytes",
            CodegenTy::BytesView => "BytesView",
            CodegenTy::Unit => "Unit",
        }
    }
}

impl StdCall {
    pub fn path(&self) -> (r: &'static str)
        ensures
            r@ == call_path(*self),
    {
        match self {
            StdCall::BusLocalDispatch => "std::bus::__local_dispatch",
            StdCall::CryptoSha1 => "std::crypto::sha1",
            StdCall::CryptoSha256 => "std::crypto::sha256",
            StdCall::CryptoHmacSha256 => "std::crypto::hmac_sha256",
            StdCall::CryptoCrc32 => "std::crypto::crc32",
            StdCall::FileOpen => "std::io::file::__open",
            StdCall::FileWriteBytes => "std::io::file::__write_bytes",
            StdCall::FileSeek => "std::io::file::__seek",
            StdCall::FileReadLine => "std::io::file::__read_line",
            StdCall::FileClose => "std::io::file::__close",
            StdCall::FileAtEof => "std::io::file::__at_eof",
            StdCall::RandSeedFromTime => "std::rand::seed_from_time",
            StdCall::RandNextInt => "std::rand::next_int",
        }
    }

    pub fn arity(&self) -> (r: usize)
        ensures
            r == arity(*self),
    {
        match self {
            StdCall::RandSeedFromTime => 0,
            StdCall::CryptoSha1 | StdCall::CryptoSha256 | StdCall::CryptoCrc32 | StdCall::FileReadLine
            | StdCall::FileClose | StdCall::FileAtEof | StdCall::RandNextInt => 1,
            _ => 2,
        }
    }

    fn arity_phrase(&self) -> (r: &'static str)
        ensures
            r@ == arity_phrase(*self),
    {
        match self {
            StdCall::BusLocalDispatch => " takes 2 args (subject, bytes), got ",
            StdCall::CryptoSha1 | StdCall::CryptoSha256 | StdCall::CryptoCrc32 => " takes 1 arg (b), got ",
            StdCall::CryptoHmacSha256 => " takes 2 args (key, msg), got ",
            StdCall::FileOpen => " takes 2 args (path, mode), got ",
            StdCall::FileWriteBytes => " takes 2 args (fd, bytes), got ",
            StdCall::FileSeek => " takes 2 args (fd, offset), got ",
            StdCall::FileReadLine | StdCall::FileClose | StdCall::FileAtEof => " takes 1 arg (fd), got ",
            StdCall::RandSeedFromTime => " takes 0 args, got ",
            StdCall::RandNextInt => " takes 1 arg (max), got ",
        }
    }

    /// The name of argument `i`.
    pub fn param_name(&self, i: usize) -> (r: &'static str)
        requires
            i < arity(*self),
        ensures
            r@ == param_name(*self, i as nat),
    {
        match self {
            StdCall::BusLocalDispatch => if i == 0 {
                "subject"
            } else {
                "bytes"
            },
            StdCall::CryptoSha1 | StdCall::CryptoSha256 | StdCall::CryptoCrc32 => "b",
            StdCall::CryptoHmacSha256 => if i == 0 {
                "key"
            } else {
                "msg"
            },
            StdCall::FileOpen => if i == 0 {
                "path"
            } else {
                "mode"
            },
            StdCall::FileWriteBytes => if i == 0 {
                "fd"
            } else {
                "bytes"
            },
            StdCall::FileSeek => if i == 0 {
                "fd"
            } else {
                "offset"
            },
            StdCall::FileReadLine | StdCall::FileClose | StdCall::FileAtEof => "fd",
            StdCall::RandSeedFromTime => "",
            StdCall::RandNextInt => "max",
        }
    }

    /// What argument `i` must be.
    pub fn param_kind(&self, i: usize) -> (r: ParamKind)
        requires
            i < arity(*self),
        ensures
            r == param_kind(*self, i as nat),
    {
        match self {
            StdCall::BusLocalDispatch => if i == 0 {
                ParamKind::Text
            } else {
                ParamKind::Bytes
            },
            StdCall::FileOpen => ParamKind::Text,
            StdCall::FileWriteBytes => if i == 0 {
                ParamKind::Int
            } else {
                ParamKind::Bytes
            },
            StdCall::FileSeek | StdCall::FileReadLine | StdCall::FileClose | StdCall::FileAtEof
            | StdCall::RandNextInt | StdCall::RandSeedFromTime => ParamKind::Int,
            _ => ParamKind::Bytes,
        }
    }

    /// The runtime function the call becomes.
    pub fn runtime_symbol(&self) -> (r: &'static str)
        ensures
            r@ == runtime_symbol_of(*self),
    {
        match self {
            StdCall::BusLocalDispatch => "lotus_bus_dispatch_wire",
            StdCall::CryptoSha1 => "lotus_crypto_sha1",
            StdCall::CryptoSha256 => "lotus_crypto_sha256",
            StdCall::CryptoHmacSha256 => "lotus_crypto_hmac_sha256",
            StdCall::CryptoCrc32 => "lotus_crypto_crc32",
            StdCall::FileOpen => "lotus_file_open",
            StdCall::FileWriteBytes => "lotus_file_write_all",
            StdCall::FileSeek => "lotus_file_seek",
            StdCall::FileReadLine => "lotus_file_read_line_global",
            StdCall::FileClose => "lotus_file_close",
            StdCall::FileAtEof => "lotus_file_at_eof",
            StdCall::RandSeedFromTime => "lotus_rand_seed_from_time",
            StdCall::RandNextInt => "lotus_rand_next_int",
        }
    }

    /// What the lowered call gives back.
    pub fn result(&self) -> (r: CallResult)
        ensures
            r == result_of(*self),
    {
        match self {
            StdCall::BusLocalDispatch | StdCall::CryptoCrc32 | StdCall::FileClose | StdCall::RandNextInt =>
                CallResult::Value(CodegenTy::Int),
            StdCall::CryptoSha1 | StdCall::CryptoSha256 | StdCall::CryptoHmacSha256 => CallResult::Value(
                CodegenTy::Bytes,
            ),
            StdCall::FileOpen => CallResult::Fallible(Some(CodegenTy::Int)),
            StdCall::FileWriteBytes | StdCall::FileSeek => CallResult::Fallible(None),
            StdCall::FileReadLine => CallResult::Value(CodegenTy::String),
            StdCall::FileAtEof => CallResult::Value(CodegenTy::Bool),
            StdCall::RandSeedFromTime => CallResult::Nothing,
        }
    }
}

impl StdCall {
    /// How argument `i` is prepared for the runtime call.
    pub fn arg_prep(&self, i: usize) -> (r: ArgPrep)
        requires
            i < arity(*self),
        ensures
            r == arg_prep(*self, i as nat),
    {
        match self {
            StdCall::BusLocalDispatch => if i == 0 {
                ArgPrep::UnpackView
            } else {
                ArgPrep::BodyAndLength
            },
            StdCall::FileWriteBytes => if i == 0 {
                ArgPrep::NarrowToI32
            } else {
                ArgPrep::BodyAndLength
            },
            StdCall::FileSeek => if i == 0 {
                ArgPrep::NarrowToI32
            } else {
                ArgPrep::AsIs
            },
            StdCall::FileReadLine | StdCall::FileClose | StdCall::FileAtEof => ArgPrep::NarrowToI32,
            StdCall::RandNextInt | StdCall::RandSeedFromTime => ArgPrep::AsIs,
            _ => ArgPrep::UnpackView,
        }
    }

    pub fn sets_caller_arena(&self) -> (r: bool)
        ensures
            r == sets_caller_arena(*self),
    {
        match self {
            StdCall::FileReadLine => true,
            _ => false,
        }
    }

    pub fn returns_status(&self) -> (r: bool)
        ensures
            r == returns_status(*self),
    {
        match self {
            StdCall::FileOpen | StdCall::FileWriteBytes | StdCall::FileSeek | StdCall::FileClose
            | StdCall::FileAtEof => true,
            _ => false,
        }
    }

    pub fn fails_on_negative(&self) -> (r: bool)
        ensures
            r == fails_on_negative(*self),
    {
        match self {
            StdCall::FileOpen | StdCall::FileWriteBytes | StdCall::FileSeek => true,
            _ => false,
        }
    }

    pub fn result_shape(&self) -> (r: ResultShape)
        ensures
            r == result_shape(*self),
    {
        match self {
            StdCall::FileOpen | StdCall::FileClose => ResultShape::SignExtendStatus,
            StdCall::FileAtEof => ResultShape::EndOfFileOrError,
            StdCall::BusLocalDispatch => ResultShape::ConstZero,
            StdCall::FileWriteBytes | StdCall::FileSeek | StdCall::RandSeedFromTime => ResultShape::NoValue,
            _ => ResultShape::AsReturned,
        }
    }

    pub fn error_path_source(&self) -> (r: Option<ErrorPathSource>)
        ensures
            r == error_path_source(*self),
    {
        match self {
            StdCall::FileOpen => Some(ErrorPathSource::Argument(0)),
            StdCall::FileWriteBytes | StdCall::FileSeek => Some(ErrorPathSource::Label),
            _ => None,
        }
    }

    pub fn error_label(&self) -> (r: &'static str)
        ensures
            r@ == error_label(*self),
    {
        match self {
            StdCall::FileWriteBytes => "std::io::file::write_bytes",
            StdCall::FileSeek => "std::io::file::seek",
            _ => "",
        }
    }

    /// What the runtime status `status` means for this call; `None` when
    /// its runtime returns no status.
    pub fn status_meaning(&self, status: i32) -> (r: Option<StatusMeaning>)
        ensures
            r == status_meaning(*self, status),
    {
        if !self.returns_status() {
            None
        } else if self.fails_on_negative() && status < 0 {
            Some(StatusMeaning::Failed)
        } else {
            match self.result_shape() {
                ResultShape::SignExtendStatus => Some(StatusMeaning::Int(status as i64)),
                ResultShape::EndOfFileOrError => Some(StatusMeaning::Bool(status == 1 || status < 0)),
                _ => Some(StatusMeaning::Unit),
            }
        }
    }
}

/// A file descriptor as the runtime takes it: the low 32 bits of the `Int`.
pub fn narrow_fd(fd: i64) -> (r: i32)
    ensures
        r == fd as i32,
{
    #[verifier::truncate]
    (fd as i32)
}

/// A value that a step of a call plan reads or writes.
#[derive(Debug, Clone, Copy, PartialEq, Eq, Hash)]
pub enum Slot {
    /// Argument `i` as lowered.
    Arg(usize),
    /// Argument `i`, a view, unpacked to what it views.
    Unpacked(usize),
    /// Argument `i` narrowed to its low 32 bits.
    Narrowed(usize),
    /// The length read from the prefix of the `Bytes` argument `i`.
    Length(usize),
    /// The pointer to the body of the `Bytes` argument `i`.
    Body(usize),
    /// What the runtime function returned.
    Returned,
    /// Whether the call failed.
    Failed,
    /// The value of the lowered call.
    Result,
    /// The call's fixed label, as a global string.
    Label,
}

/// One step of the code a lowered call emits, run in order.
#[derive(Debug, Clone, Copy, PartialEq, Eq)]
pub enum PlanOp {
    /// `Unpacked(i)` := the value viewed by `Arg(i)`.
    UnpackView(usize),
    /// `Narrowed(i)` := the low 32 bits of `Arg(i)`.
    NarrowToI32(usize),
    /// `Length(i)` := the 64-bit length stored at the start of `from`.
    LoadLength { from: Slot, arg: usize },
    /// `Body(i)` := the pointer `BYTES_LENGTH_PREFIX` bytes past `from`.
    BodyPointer { from: Slot, arg: usize },
    /// The caller's arena becomes the current one.
    SetCallerArena,
    /// Appends the slot to the runtime call's arguments.
    PassArg(Slot),
    /// `Returned` := the runtime function called on the arguments passed.
    CallRuntime,
    /// `Result` := `Returned`.
    ReturnedAsResult,
    /// `Result` := the 32-bit status `Returned`, sign-extended.
    SignExtendResult,
    /// `Result` := whether the status `Returned` is 1 or negative.
    EndOfFileOrErrorResult,
    /// `Result` := the `Int` 0.
    ZeroResult,
    /// `Failed` := whether the status `Returned` is negative.
    TestNegative,
    /// `Label` := a global string holding the call's error label.
    CiteLabel,
    /// Branches on `Failed` into the `IoError` path citing `path`; on
    /// success the call's value is `Result` when `value` holds.
    CompleteFallible { path: Slot, value: bool },
    /// The call's value is `Result` when `value` holds, else nothing.
    Finish { value: bool },
}

pub open spec fn is_view(ty: CodegenTy) -> bool {
    ty == CodegenTy::StringView || ty == CodegenTy::BytesView
}

/// The slot that holds argument `i` once a view is unpacked.
pub open spec fn ready_slot(i: usize, ty: CodegenTy) -> Slot {
    if is_view(ty) {
        Slot::Unpacked(i)
    } else {
        Slot::Arg(i)
    }
}

/// The steps that prepare argument `i`, lowered to type `ty`, and pass it.
pub open spec fn arg_ops(c: StdCall, i: usize, ty: CodegenTy) -> Seq<PlanOp> {
    let unpack = if is_view(ty) {
        seq![PlanOp::UnpackView(i)]
    } else {
        Seq::empty()
    };
    let src = ready_slot(i, ty);
    match arg_prep(c, i as nat) {
        ArgPrep::AsIs => seq![PlanOp::PassArg(Slot::Arg(i))],
        ArgPrep::UnpackView => unpack + seq![PlanOp::PassArg(src)],
        ArgPrep::BodyAndLength => unpack + seq![
            PlanOp::LoadLength { from: src, arg: i },
            PlanOp::BodyPointer { from: src, arg: i },
            PlanOp::PassArg(Slot::Body(i)),
            PlanOp::PassArg(Slot::Length(i)),
        ],
        ArgPrep::NarrowToI32 => seq![PlanOp::NarrowToI32(i), PlanOp::PassArg(Slot::Narrowed(i))],
    }
}

/// The steps for the first `k` arguments, in argument order.
pub open spec fn args_ops(c: StdCall, tys: Seq<CodegenTy>, k: nat) -> Seq<PlanOp>
    decreases k,
{
    if k == 0 {
        Seq::empty()
    } else {
        args_ops(c, tys, (k - 1) as nat) + arg_ops(c, (k - 1) as usize, tys[k - 1])
    }
}

/// The steps that make the call's value from what the runtime returned.
pub open spec fn shape_ops(c: StdCall) -> Seq<PlanOp> {
    match result_shape(c) {
        ResultShape::AsReturned => seq![PlanOp::ReturnedAsResult],
        ResultShape::SignExtendStatus => seq![PlanOp::SignExtendResult],
        ResultShape::EndOfFileOrError => seq![PlanOp::EndOfFileOrErrorResult],
        ResultShape::ConstZero => seq![PlanOp::ZeroResult],
        ResultShape::NoValue => Seq::empty(),
    }
}

/// The steps after the arguments: the runtime call, the value, and the
/// failure test of a fallible call.
pub open spec fn tail_ops(c: StdCall, tys: Seq<CodegenTy>) -> Seq<PlanOp> {
    let arena = if sets_caller_arena(c) {
        seq![PlanOp::SetCallerArena]
    } else {
        Seq::empty()
    };
    let value = result_shape(c) != ResultShape::NoValue;
    let finish = if fails_on_negative(c) {
        match error_path_source(c) {
            Some(ErrorPathSource::Argument(i)) => seq![
                PlanOp::TestNegative,
                PlanOp::CompleteFallible { path: ready_slot(i, tys[i as int]), value },
            ],
            _ => seq![
                PlanOp::TestNegative,
                PlanOp::CiteLabel,
                PlanOp::CompleteFallible { path: Slot::Label, value },
            ],
        }
    } else {
        seq![PlanOp::Finish { value }]
    };
    arena + seq![PlanOp::CallRuntime] + shape_ops(c) + finish
}

/// The whole plan of a call whose arguments lower to `tys`.
pub open spec fn plan_ops(c: StdCall, tys: Seq<CodegenTy>) -> Seq<PlanOp> {
    args_ops(c, tys, tys.len()) + tail_ops(c, tys)
}

fn push_arg_ops(out: &mut Vec<PlanOp>, c: StdCall, i: usize, ty: CodegenTy)
    requires
        i < arity(c),
    ensures
        final(out)@ == old(out)@ + arg_ops(c, i, ty),
{
    let view = match ty {
        CodegenTy::StringView | CodegenTy::BytesView => true,
        _ => false,
    };
    let src = if view {
        Slot::Unpacked(i)
    } else {
        Slot::Arg(i)
    };
    let ghost start = out@;
    match c.arg_prep(i) {
        ArgPrep::AsIs => {
            out.push(PlanOp::PassArg(Slot::Arg(i)));
        },
        ArgPrep::UnpackView => {
            if view {
                out.push(PlanOp::UnpackView(i));
            }
            out.push(PlanOp::PassArg(src));
        },
        ArgPrep::BodyAndLength => {
            if view {
                out.push(PlanOp::UnpackView(i));
            }
            out.push(PlanOp::LoadLength { from: src, arg: i });
            out.push(PlanOp::BodyPointer { from: src, arg: i });
            out.push(PlanOp::PassArg(Slot::Body(i)));
            out.push(PlanOp::PassArg(Slot::Length(i)));
        },
        ArgPrep::NarrowToI32 => {
            out.push(PlanOp::NarrowToI32(i));
            out.push(PlanOp::PassArg(Slot::Narrowed(i)));
        },
    }
    assert(out@ =~= start + arg_ops(c, i, ty));
}

/// The plan of a lowered call whose arguments lower to `tys`: the steps
/// that prepare and pass each argument in order, call the runtime, make
/// the call's value and, for a fallible call, test for failure. The checks
/// come first: a call that fails one gets that check's error.
pub fn call_plan(c: StdCall, tys: &[CodegenTy]) -> (r: Result<Vec<PlanOp>, CodegenError>)
    ensures
        match call_check(c, tys@) {
            None => r matches Ok(ops) && ops@ == plan_ops(c, tys@),
            Some(m) => r matches Err(e) && e@ == SpecCodegenError::Unsupported(m),
        },
{
    check_call(c, tys)?;
    let mut out: Vec<PlanOp> = Vec::new();
    let mut i: usize = 0;
    while i < tys.len()
        invariant
            tys@.len() == arity(c),
            call_check(c, tys@) is None,
            i <= tys@.len(),
            out@ == args_ops(c, tys@, i as nat),
        decreases tys@.len() - i,
    {
        push_arg_ops(&mut out, c, i, tys[i]);
        i = i + 1;
    }
    let ghost args_part = out@;
    if c.sets_caller_arena() {
        out.push(PlanOp::SetCallerArena);
    }
    out.push(PlanOp::CallRuntime);
    match c.result_shape() {
        ResultShape::AsReturned => out.push(PlanOp::ReturnedAsResult),
        ResultShape::SignExtendStatus => out.push(PlanOp::SignExtendResult),
        ResultShape::EndOfFileOrError => out.push(PlanOp::EndOfFileOrErrorResult),
        ResultShape::ConstZero => out.push(PlanOp::ZeroResult),
        ResultShape::NoValue => {},
    }
    let value = match c.result_shape() {
        ResultShape::NoValue => false,
        _ => true,
    };
    if c.fails_on_negative() {
        out.push(PlanOp::TestNegative);
        match c.error_path_source() {
            Some(ErrorPathSource::Argument(k)) => {
                let ty = tys[k];
                let path = match ty {
                    CodegenTy::StringView | CodegenTy::BytesView => Slot::Unpacked(k),
                    _ => Slot::Arg(k),
                };
                out.push(PlanOp::CompleteFallible { path, value });
            },
            _ => {
                out.push(PlanOp::CiteLabel);
                out.push(PlanOp::CompleteFallible { path: Slot::Label, value });
            },
        }
    } else {
        out.push(PlanOp::Finish { value });
    }
    assert(out@ =~= args_part + tail_ops(c, tys@));
    Ok(out)
}

/// A fallible call, a file open, write or seek, carries its value (for
/// an open, the descriptor) exactly when its status is not negative, and
/// fails otherwise, citing as `IoError` path the path argument of an
/// open or the call's fixed label.
pub proof fn law_fallible_calls_fail_on_negative_status(c: StdCall, status: i32)
    ensures
        (result_of(c) is Fallible) == fails_on_negative(c),
        (result_of(c) is Fallible) == (error_path_source(c) is Some),
        fails_on_negative(c) ==> (status_meaning(c, status) == Some(StatusMeaning::Failed) <==> status < 0),
        error_path_source(c) matches Some(ErrorPathSource::Argument(i)) ==> i < arity(c) && param_name(
            c,
            i as nat,
        ) == "path"@ && arg_prep(c, i as nat) == ArgPrep::UnpackView,
        error_path_source(c) == Some(ErrorPathSource::Label) ==> error_label(c).len() > 0,
        result_of(c) == CallResult::Fallible(Some(CodegenTy::Int)) ==> (status >= 0 ==> status_meaning(
            c,
            status,
        ) == Some(StatusMeaning::Int(status as i64))),
{
    reveal_strlit("path");
    reveal_strlit("std::io::file::write_bytes");
    reveal_strlit("std::io::file::seek");
}

impl ParamKind {
    pub fn accepts(&self, ty: CodegenTy) -> (r: bool)
        ensures
            r == kind_accepts(*self, ty),
    {
        match self {
            ParamKind::Text => match ty {
                CodegenTy::String | CodegenTy::StringView => true,
                _ => false,
            },
            ParamKind::Bytes => match ty {
                CodegenTy::Bytes | CodegenTy::BytesView => true,
                _ => false,
            },
            ParamKind::Int => match ty {
                CodegenTy::Int => true,
                _ => false,
            },
        }
    }

    fn text(&self) -> (r: &'static str)
        ensures
            r@ == kind_text(*self),
    {
        match self {
            ParamKind::Text => "String",
            ParamKind::Bytes => "Bytes",
            ParamKind::Int => "Int",
        }
    }
}

/// The argument-count check of a call given `got` arguments.
pub fn check_arity(c: StdCall, got: usize) -> (r: Result<(), CodegenError>)
    ensures
        r is Ok <==> got == arity(c),
        r matches Err(e) ==> e@ == SpecCodegenError::Unsupported(arity_message(c, got as nat)),
{
    if got == c.arity() {
        Ok(())
    } else {
        let mut msg = String::from_str(c.path());
        msg.append(c.arity_phrase());
        let n = u64_text(got as u64);
        msg.append(n.as_str());
        Err(CodegenError::Unsupported(msg))
    }
}

/// The type check of argument `i` of a call, once lowered to `ty`.
pub fn check_arg(c: StdCall, i: usize, ty: CodegenTy) -> (r: Result<(), CodegenError>)
    requires
        i < arity(c),
    ensures
        r is Ok <==> kind_accepts(param_kind(c, i as nat), ty),
        r matches Err(e) ==> e@ == SpecCodegenError::Unsupported(arg_message(c, i as nat, ty)),
{
    let k = c.param_kind(i);
    if k.accepts(ty) {
        Ok(())
    } else {
        let mut msg = String::from_str(c.path());
        msg.append(": ");
        msg.append(c.param_name(i));
        msg.append(" must be ");
        msg.append(k.text());
        msg.append(", got ");
        msg.append(ty.debug_text());
        proof {
            assert(msg@ =~= arg_message(c, i as nat, ty));
        }
        Err(CodegenError::Unsupported(msg))
    }
}

/// All checks of a call whose arguments lower to `tys`, in the order the
/// lowering makes them: `Ok` when every check passes, else the first
/// failure.
pub fn check_call(c: StdCall, tys: &[CodegenTy]) -> (r: Result<(), CodegenError>)
    ensures
        match call_check(c, tys@) {
            None => r is Ok,
            Some(m) => r matches Err(e) && e@ == SpecCodegenError::Unsupported(m),
        },
{
    check_arity(c, tys.len())?;
    let mut i: usize = 0;
    while i < tys.len()
        invariant
            tys@.len() == arity(c),
            i <= tys@.len(),
            first_arg_error(c, tys@, 0) == first_arg_error(c, tys@, i as nat),
        decreases tys@.len() - i,
    {
        check_arg(c, i, tys[i])?;
        i = i + 1;
    }
    Ok(())
}

/// A `String` or a view of one.
pub open spec fn is_text_ty(ty: CodegenTy) -> bool {
    ty == CodegenTy::String || ty == CodegenTy::StringView
}

/// A `Bytes` or a view of some.
pub open spec fn is_bytes_ty(ty: CodegenTy) -> bool {
    ty == CodegenTy::Bytes || ty == CodegenTy::BytesView
}

/// The argument lists each call's signature admits: the digests take
/// `Bytes` (`hmac_sha256` a key and a message), dispatch a subject and
/// `Bytes`, an open a path and a mode, a write a descriptor and `Bytes`, a
/// seek a descriptor and an offset, the one-descriptor calls and
/// `next_int` one `Int`, and `seed_from_time` nothing.
pub open spec fn signature_admits(c: StdCall, tys: Seq<CodegenTy>) -> bool {
    match c {
        StdCall::BusLocalDispatch => tys.len() == 2 && is_text_ty(tys[0]) && is_bytes_ty(tys[1]),
        StdCall::CryptoSha1 | StdCall::CryptoSha256 | StdCall::CryptoCrc32 => tys.len() == 1
            && is_bytes_ty(tys[0]),
        StdCall::CryptoHmacSha256 => tys.len() == 2 && is_bytes_ty(tys[0]) && is_bytes_ty(tys[1]),
        StdCall::FileOpen => tys.len() == 2 && is_text_ty(tys[0]) && is_text_ty(tys[1]),
        StdCall::FileWriteBytes => tys.len() == 2 && tys[0] == CodegenTy::Int && is_bytes_ty(tys[1]),
        StdCall::FileSeek => tys.len() == 2 && tys[0] == CodegenTy::Int && tys[1] == CodegenTy::Int,
        StdCall::FileReadLine | StdCall::FileClose | StdCall::FileAtEof | StdCall::RandNextInt =>
            tys.len() == 1 && tys[0] == CodegenTy::Int,
        StdCall::RandSeedFromTime => tys.len() == 0,
    }
}

proof fn lemma_first_arg_error_none(c: StdCall, tys: Seq<CodegenTy>, from: nat)
    ensures
        first_arg_error(c, tys, from) is None <==> (forall|i: int|
            from <= i < tys.len() ==> kind_accepts(param_kind(c, i as nat), #[trigger] tys[i])),
    decreases tys.len() - from,
{
    if from < tys.len() {
        lemma_first_arg_error_none(c, tys, from + 1);
    }
}

/// The checks accept a call exactly when its argument types fit the call's
/// signature; any other argument list is refused with an error.
pub proof fn law_checks_accept_exactly_the_signature(c: StdCall, tys: Seq<CodegenTy>)
    ensures
        call_check(c, tys) is None <==> signature_admits(c, tys),
{
    lemma_first_arg_error_none(c, tys, 0);
    if tys.len() == arity(c) {
        if tys.len() >= 1 {
            assert(tys[0] == tys[0]);
        }
        if tys.len() == 2 {
            assert(tys[1] == tys[1]);
        }
    }
}

/// The value of each call: a digest, a checksum, a line and a random
/// number are what the runtime function returns; an open's descriptor and
/// a close's status are the runtime's status sign-extended; end of file is
/// read from the status; a dispatch is the constant 0; a write, a seek and
/// a seeding give no value. The last two steps of every plan make and give
/// that value.
pub proof fn law_each_call_gives_its_value(c: StdCall, tys: Seq<CodegenTy>)
    ensures
        ({
            let ops = plan_ops(c, tys);
            let n = ops.len();
            &&& (c == StdCall::CryptoSha1 || c == StdCall::CryptoSha256 || c == StdCall::CryptoHmacSha256
                || c == StdCall::CryptoCrc32 || c == StdCall::FileReadLine || c == StdCall::RandNextInt)
                ==> result_shape(c) == ResultShape::AsReturned && ops[n - 2] == PlanOp::ReturnedAsResult
                && ops[n - 1] == (PlanOp::Finish { value: true })
            &&& c == StdCall::FileClose ==> result_shape(c) == ResultShape::SignExtendStatus
                && ops[n - 2] == PlanOp::SignExtendResult && ops[n - 1] == (PlanOp::Finish { value: true })
            &&& c == StdCall::FileAtEof ==> result_shape(c) == ResultShape::EndOfFileOrError
                && ops[n - 2] == PlanOp::EndOfFileOrErrorResult && ops[n - 1] == (PlanOp::Finish {
                value: true,
            })
            &&& c == StdCall::BusLocalDispatch ==> result_shape(c) == ResultShape::ConstZero && ops[n - 2]
                == PlanOp::ZeroResult && ops[n - 1] == (PlanOp::Finish { value: true })
            &&& c == StdCall::RandSeedFromTime ==> result_shape(c) == ResultShape::NoValue && ops[n - 2]
                == PlanOp::CallRuntime && ops[n - 1] == (PlanOp::Finish { value: false })
            &&& c == StdCall::FileOpen ==> result_shape(c) == ResultShape::SignExtendStatus && ops[n - 1] is CompleteFallible
                && ops[n - 1]->CompleteFallible_value
            &&& (c == StdCall::FileWriteBytes || c == StdCall::FileSeek) ==> result_shape(c)
                == ResultShape::NoValue && ops[n - 1] is CompleteFallible
                && !ops[n - 1]->CompleteFallible_value
        }),
{
}

/// End of file is reported for status 1 and for an error status, and not
/// for 0: a read-line loop over a broken descriptor ends.
pub proof fn law_end_of_file_on_one_or_error(status: i32)
    ensures
        status_meaning(StdCall::FileAtEof, status) == Some(StatusMeaning::Bool(status == 1 || status < 0)),
        status_meaning(StdCall::FileAtEof, 0i32) == Some(StatusMeaning::Bool(false)),
        status_meaning(StdCall::FileAtEof, -1i32) == Some(StatusMeaning::Bool(true)),
{
}

/// The slots a plan passes to the runtime function, in order.
pub open spec fn passed_slots(ops: Seq<PlanOp>) -> Seq<Slot>
    decreases ops.len(),
{
    if ops.len() == 0 {
        Seq::empty()
    } else {
        passed_slots(ops.drop_last()) + match ops.last() {
            PlanOp::PassArg(s) => seq![s],
            _ => Seq::empty(),
        }
    }
}

proof fn lemma_passed_slots_concat(a: Seq<PlanOp>, b: Seq<PlanOp>)
    ensures
        passed_slots(a + b) == passed_slots(a) + passed_slots(b),
    decreases b.len(),
{
    if b.len() == 0 {
        assert(a + b =~= a);
        assert(passed_slots(a) + passed_slots(b) =~= passed_slots(a));
    } else {
        assert((a + b).drop_last() =~= a + b.drop_last());
        assert((a + b).last() == b.last());
        lemma_passed_slots_concat(a, b.drop_last());
        assert(passed_slots(a) + passed_slots(b.drop_last()) + match b.last() {
            PlanOp::PassArg(s) => seq![s],
            _ => Seq::<Slot>::empty(),
        } =~= passed_slots(a) + passed_slots(b));
    }
}

proof fn lemma_arg_passed(c: StdCall, i: usize, ty: CodegenTy)
    ensures
        passed_slots(arg_ops(c, i, ty)) == match arg_prep(c, i as nat) {
            ArgPrep::AsIs => seq![Slot::Arg(i)],
            ArgPrep::UnpackView => seq![ready_slot(i, ty)],
            ArgPrep::BodyAndLength => seq![Slot::Body(i), Slot::Length(i)],
            ArgPrep::NarrowToI32 => seq![Slot::Narrowed(i)],
        },
{
    let ops = arg_ops(c, i, ty);
    reveal_with_fuel(passed_slots, 7);
    match arg_prep(c, i as nat) {
        ArgPrep::AsIs => {
            assert(ops.drop_last() =~= Seq::<PlanOp>::empty());
        },
        ArgPrep::UnpackView => {
            if is_view(ty) {
                assert(ops.drop_last().drop_last() =~= Seq::<PlanOp>::empty());
            } else {
                assert(ops.drop_last() =~= Seq::<PlanOp>::empty());
            }
        },
        ArgPrep::BodyAndLength => {
            let base = ops.drop_last().drop_last().drop_last().drop_last();
            if is_view(ty) {
                assert(base.drop_last() =~= Seq::<PlanOp>::empty());
            } else {
                assert(base =~= Seq::<PlanOp>::empty());
            }
        },
        ArgPrep::NarrowToI32 => {
            assert(ops.drop_last().drop_last() =~= Seq::<PlanOp>::empty());
        },
    }
}

proof fn lemma_tail_passes_nothing(c: StdCall, tys: Seq<CodegenTy>)
    ensures
        passed_slots(tail_ops(c, tys)) == Seq::<Slot>::empty(),
{
    let ops = tail_ops(c, tys);
    assert forall|k: int| 0 <= k <= ops.len() implies passed_slots(#[trigger] ops.take(k)) == Seq::<Slot>::empty() by {
        lemma_take_passes_nothing(ops, k);
    }
    assert(ops.take(ops.len() as int) =~= ops);
}

proof fn lemma_take_passes_nothing(ops: Seq<PlanOp>, k: int)
    requires
        0 <= k <= ops.len(),
        forall|j: int| 0 <= j < ops.len() ==> !(#[trigger] ops[j] is PassArg),
    ensures
        passed_slots(ops.take(k)) == Seq::<Slot>::empty(),
    decreases k,
{
    if k > 0 {
        assert(ops.take(k).drop_last() =~= ops.take(k - 1));
        assert(ops.take(k).last() == ops[k - 1]);
        lemma_take_passes_nothing(ops, k - 1);
        assert(Seq::<Slot>::empty() + Seq::<Slot>::empty() =~= Seq::<Slot>::empty());
    }
}

/// What each accepted call hands the runtime function, in order: a `Bytes`
/// argument goes as its body and then its length, a descriptor narrowed to
/// 32 bits, a text or digest input as itself (its view unpacked), an
/// offset or a bound as lowered. So dispatch passes the subject then the
/// body and length, an open the path then the mode, `hmac_sha256` the key
/// then the message, a write the descriptor then the body and length.
pub proof fn law_runtime_arguments_in_order(c: StdCall, tys: Seq<CodegenTy>)
    requires
        signature_admits(c, tys),
    ensures
        passed_slots(plan_ops(c, tys)) == match c {
            StdCall::BusLocalDispatch => seq![ready_slot(0, tys[0]), Slot::Body(1), Slot::Length(1)],
            StdCall::CryptoSha1 | StdCall::CryptoSha256 | StdCall::CryptoCrc32 => seq![ready_slot(0, tys[0])],
            StdCall::CryptoHmacSha256 | StdCall::FileOpen => seq![ready_slot(0, tys[0]), ready_slot(1, tys[1])],
            StdCall::FileWriteBytes => seq![Slot::Narrowed(0), Slot::Body(1), Slot::Length(1)],
            StdCall::FileSeek => seq![Slot::Narrowed(0), Slot::Arg(1)],
            StdCall::FileReadLine | StdCall::FileClose | StdCall::FileAtEof => seq![Slot::Narrowed(0)],
            StdCall::RandNextInt => seq![Slot::Arg(0)],
            StdCall::RandSeedFromTime => Seq::<Slot>::empty(),
        },
        ready_slot(0, CodegenTy::Int) == Slot::Arg(0),
{
    lemma_tail_passes_nothing(c, tys);
    lemma_passed_slots_concat(args_ops(c, tys, tys.len()), tail_ops(c, tys));
    let a0 = arg_ops(c, 0, tys[0]);
    if tys.len() >= 1 {
        lemma_arg_passed(c, 0, tys[0]);
        assert(args_ops(c, tys, 0) =~= Seq::<PlanOp>::empty());
        assert(args_ops(c, tys, 1) =~= a0);
    }
    if tys.len() == 2 {
        lemma_arg_passed(c, 1, tys[1]);
        lemma_passed_slots_concat(a0, arg_ops(c, 1, tys[1]));
        assert(args_ops(c, tys, 2) =~= a0 + arg_ops(c, 1, tys[1]));
    }
    if tys.len() == 0 {
        assert(args_ops(c, tys, 0) =~= Seq::<PlanOp>::empty());
        assert(passed_slots(Seq::<PlanOp>::empty()) + Seq::<Slot>::empty() =~= Seq::<Slot>::empty());
    } else if tys.len() == 1 {
        assert(passed_slots(a0) + Seq::<Slot>::empty() =~= passed_slots(a0));
    } else {
        assert(passed_slots(a0 + arg_ops(c, 1, tys[1])) + Seq::<Slot>::empty() =~= passed_slots(
            a0 + arg_ops(c, 1, tys[1]),
        ));
    }
}

} // verus!
