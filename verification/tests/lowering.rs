use hale::lowering::{
    call_plan, check_arg, check_arity, check_call, narrow_fd, ArgPrep, PlanOp, Slot, CallResult, CodegenError, CodegenTy, ErrorPathSource,
    ResultShape, StatusMeaning, StdCall, BYTES_LENGTH_PREFIX,
};

fn unsupported(s: &str) -> Result<(), CodegenError> {
    Err(CodegenError::Unsupported(s.to_string()))
}

#[test]
fn wrong_count_messages() {
    assert_eq!(
        check_arity(StdCall::BusLocalDispatch, 1),
        unsupported("std::bus::__local_dispatch takes 2 args (subject, bytes), got 1")
    );
    assert_eq!(check_arity(StdCall::CryptoSha1, 3), unsupported("std::crypto::sha1 takes 1 arg (b), got 3"));
    assert_eq!(
        check_arity(StdCall::CryptoHmacSha256, 0),
        unsupported("std::crypto::hmac_sha256 takes 2 args (key, msg), got 0")
    );
    assert_eq!(
        check_arity(StdCall::FileOpen, 12),
        unsupported("std::io::file::__open takes 2 args (path, mode), got 12")
    );
    assert_eq!(
        check_arity(StdCall::RandSeedFromTime, 1),
        unsupported("std::rand::seed_from_time takes 0 args, got 1")
    );
    assert_eq!(
        check_arity(StdCall::FileAtEof, 2),
        unsupported("std::io::file::__at_eof takes 1 arg (fd), got 2")
    );
    assert_eq!(check_arity(StdCall::RandNextInt, 1), Ok(()));
}

#[test]
fn wrong_type_messages() {
    assert_eq!(
        check_arg(StdCall::BusLocalDispatch, 0, CodegenTy::Int),
        unsupported("std::bus::__local_dispatch: subject must be String, got Int")
    );
    assert_eq!(
        check_arg(StdCall::BusLocalDispatch, 1, CodegenTy::StringView),
        unsupported("std::bus::__local_dispatch: bytes must be Bytes, got StringView")
    );
    assert_eq!(
        check_arg(StdCall::FileWriteBytes, 0, CodegenTy::Bool),
        unsupported("std::io::file::__write_bytes: fd must be Int, got Bool")
    );
    assert_eq!(
        check_arg(StdCall::RandNextInt, 0, CodegenTy::String),
        unsupported("std::rand::next_int: max must be Int, got String")
    );
    assert_eq!(
        check_arg(StdCall::CryptoHmacSha256, 1, CodegenTy::Unit),
        unsupported("std::crypto::hmac_sha256: msg must be Bytes, got Unit")
    );
}

#[test]
fn views_are_accepted_where_owned_values_are() {
    assert_eq!(check_arg(StdCall::FileOpen, 1, CodegenTy::StringView), Ok(()));
    assert_eq!(check_arg(StdCall::CryptoCrc32, 0, CodegenTy::BytesView), Ok(()));
    assert_eq!(check_arg(StdCall::FileSeek, 1, CodegenTy::Int), Ok(()));
}

#[test]
fn first_failure_decides() {
    assert_eq!(
        check_call(StdCall::FileOpen, &[CodegenTy::Int, CodegenTy::Int]),
        unsupported("std::io::file::__open: path must be String, got Int")
    );
    assert_eq!(
        check_call(StdCall::FileOpen, &[CodegenTy::String, CodegenTy::Int]),
        unsupported("std::io::file::__open: mode must be String, got Int")
    );
    assert_eq!(
        check_call(StdCall::FileOpen, &[CodegenTy::Int]),
        unsupported("std::io::file::__open takes 2 args (path, mode), got 1")
    );
    assert_eq!(check_call(StdCall::FileOpen, &[CodegenTy::String, CodegenTy::StringView]), Ok(()));
    assert_eq!(check_call(StdCall::RandSeedFromTime, &[]), Ok(()));
}

#[test]
fn runtime_symbols_and_results() {
    assert_eq!(StdCall::BusLocalDispatch.runtime_symbol(), "lotus_bus_dispatch_wire");
    assert_eq!(StdCall::FileWriteBytes.runtime_symbol(), "lotus_file_write_all");
    assert_eq!(StdCall::FileReadLine.runtime_symbol(), "lotus_file_read_line_global");
    assert_eq!(StdCall::BusLocalDispatch.result(), CallResult::Value(CodegenTy::Int));
    assert_eq!(StdCall::CryptoSha256.result(), CallResult::Value(CodegenTy::Bytes));
    assert_eq!(StdCall::FileOpen.result(), CallResult::Fallible(Some(CodegenTy::Int)));
    assert_eq!(StdCall::FileSeek.result(), CallResult::Fallible(None));
    assert_eq!(StdCall::FileAtEof.result(), CallResult::Value(CodegenTy::Bool));
    assert_eq!(StdCall::RandSeedFromTime.result(), CallResult::Nothing);
}

#[test]
fn argument_preparation_per_call() {
    assert_eq!(StdCall::BusLocalDispatch.arg_prep(0), ArgPrep::UnpackView);
    assert_eq!(StdCall::BusLocalDispatch.arg_prep(1), ArgPrep::BodyAndLength);
    assert_eq!(StdCall::FileWriteBytes.arg_prep(0), ArgPrep::NarrowToI32);
    assert_eq!(StdCall::FileWriteBytes.arg_prep(1), ArgPrep::BodyAndLength);
    assert_eq!(StdCall::FileSeek.arg_prep(0), ArgPrep::NarrowToI32);
    assert_eq!(StdCall::FileSeek.arg_prep(1), ArgPrep::AsIs);
    assert_eq!(StdCall::FileOpen.arg_prep(0), ArgPrep::UnpackView);
    assert_eq!(StdCall::FileOpen.arg_prep(1), ArgPrep::UnpackView);
    assert_eq!(StdCall::CryptoHmacSha256.arg_prep(0), ArgPrep::UnpackView);
    assert_eq!(StdCall::CryptoHmacSha256.arg_prep(1), ArgPrep::UnpackView);
    assert_eq!(StdCall::FileClose.arg_prep(0), ArgPrep::NarrowToI32);
    assert_eq!(StdCall::FileAtEof.arg_prep(0), ArgPrep::NarrowToI32);
    assert_eq!(StdCall::FileReadLine.arg_prep(0), ArgPrep::NarrowToI32);
    assert_eq!(StdCall::RandNextInt.arg_prep(0), ArgPrep::AsIs);
    assert_eq!(BYTES_LENGTH_PREFIX, 8);
}

#[test]
fn hmac_takes_key_then_message() {
    assert_eq!(StdCall::CryptoHmacSha256.param_name(0), "key");
    assert_eq!(StdCall::CryptoHmacSha256.param_name(1), "msg");
    assert_eq!(StdCall::CryptoHmacSha256.runtime_symbol(), "lotus_crypto_hmac_sha256");
}

#[test]
fn only_read_line_sets_the_caller_arena() {
    assert!(StdCall::FileReadLine.sets_caller_arena());
    assert!(!StdCall::FileOpen.sets_caller_arena());
    assert!(!StdCall::CryptoSha256.sets_caller_arena());
}

#[test]
fn result_shapes() {
    assert_eq!(StdCall::FileOpen.result_shape(), ResultShape::SignExtendStatus);
    assert_eq!(StdCall::FileClose.result_shape(), ResultShape::SignExtendStatus);
    assert_eq!(StdCall::FileAtEof.result_shape(), ResultShape::EndOfFileOrError);
    assert_eq!(StdCall::BusLocalDispatch.result_shape(), ResultShape::ConstZero);
    assert_eq!(StdCall::FileWriteBytes.result_shape(), ResultShape::NoValue);
    assert_eq!(StdCall::CryptoCrc32.result_shape(), ResultShape::AsReturned);
}

#[test]
fn failure_rules_and_error_paths() {
    assert!(StdCall::FileOpen.fails_on_negative());
    assert!(StdCall::FileWriteBytes.fails_on_negative());
    assert!(StdCall::FileSeek.fails_on_negative());
    assert!(!StdCall::FileClose.fails_on_negative());
    assert!(!StdCall::FileAtEof.fails_on_negative());
    assert_eq!(StdCall::FileOpen.error_path_source(), Some(ErrorPathSource::Argument(0)));
    assert_eq!(StdCall::FileWriteBytes.error_path_source(), Some(ErrorPathSource::Label));
    assert_eq!(StdCall::FileWriteBytes.error_label(), "std::io::file::write_bytes");
    assert_eq!(StdCall::FileSeek.error_label(), "std::io::file::seek");
    assert_eq!(StdCall::FileClose.error_path_source(), None);
}

#[test]
fn status_meanings() {
    assert_eq!(StdCall::FileOpen.status_meaning(7), Some(StatusMeaning::Int(7)));
    assert_eq!(StdCall::FileOpen.status_meaning(-1), Some(StatusMeaning::Failed));
    assert_eq!(StdCall::FileWriteBytes.status_meaning(0), Some(StatusMeaning::Unit));
    assert_eq!(StdCall::FileWriteBytes.status_meaning(-5), Some(StatusMeaning::Failed));
    assert_eq!(StdCall::FileSeek.status_meaning(-1), Some(StatusMeaning::Failed));
    assert_eq!(StdCall::FileClose.status_meaning(-1), Some(StatusMeaning::Int(-1)));
    assert_eq!(StdCall::FileClose.status_meaning(0), Some(StatusMeaning::Int(0)));
    assert_eq!(StdCall::FileAtEof.status_meaning(1), Some(StatusMeaning::Bool(true)));
    assert_eq!(StdCall::FileAtEof.status_meaning(0), Some(StatusMeaning::Bool(false)));
    assert_eq!(StdCall::FileAtEof.status_meaning(-1), Some(StatusMeaning::Bool(true)));
    assert_eq!(StdCall::FileAtEof.status_meaning(2), Some(StatusMeaning::Bool(false)));
    assert_eq!(StdCall::CryptoSha1.status_meaning(0), None);
}

#[test]
fn descriptors_are_narrowed_to_their_low_bits() {
    assert_eq!(narrow_fd(3), 3);
    assert_eq!(narrow_fd(-1), -1);
    assert_eq!(narrow_fd(0x1_0000_0005), 5);
    assert_eq!(narrow_fd(0xFFFF_FFFF), -1);
}

#[test]
fn plan_of_a_file_open_with_a_path_view() {
    let plan = call_plan(StdCall::FileOpen, &[CodegenTy::StringView, CodegenTy::String]).unwrap();
    assert_eq!(
        plan,
        vec![
            PlanOp::UnpackView(0),
            PlanOp::PassArg(Slot::Unpacked(0)),
            PlanOp::PassArg(Slot::Arg(1)),
            PlanOp::CallRuntime,
            PlanOp::SignExtendResult,
            PlanOp::TestNegative,
            PlanOp::CompleteFallible { path: Slot::Unpacked(0), value: true },
        ]
    );
}

#[test]
fn plan_of_a_write_passes_body_then_length() {
    let plan = call_plan(StdCall::FileWriteBytes, &[CodegenTy::Int, CodegenTy::BytesView]).unwrap();
    assert_eq!(
        plan,
        vec![
            PlanOp::NarrowToI32(0),
            PlanOp::PassArg(Slot::Narrowed(0)),
            PlanOp::UnpackView(1),
            PlanOp::LoadLength { from: Slot::Unpacked(1), arg: 1 },
            PlanOp::BodyPointer { from: Slot::Unpacked(1), arg: 1 },
            PlanOp::PassArg(Slot::Body(1)),
            PlanOp::PassArg(Slot::Length(1)),
            PlanOp::CallRuntime,
            PlanOp::TestNegative,
            PlanOp::CiteLabel,
            PlanOp::CompleteFallible { path: Slot::Label, value: false },
        ]
    );
}

#[test]
fn plan_of_dispatch_returns_zero() {
    let plan = call_plan(StdCall::BusLocalDispatch, &[CodegenTy::String, CodegenTy::Bytes]).unwrap();
    assert_eq!(
        plan,
        vec![
            PlanOp::PassArg(Slot::Arg(0)),
            PlanOp::LoadLength { from: Slot::Arg(1), arg: 1 },
            PlanOp::BodyPointer { from: Slot::Arg(1), arg: 1 },
            PlanOp::PassArg(Slot::Body(1)),
            PlanOp::PassArg(Slot::Length(1)),
            PlanOp::CallRuntime,
            PlanOp::ZeroResult,
            PlanOp::Finish { value: true },
        ]
    );
}

#[test]
fn plans_of_read_line_at_eof_hmac_and_seed() {
    assert_eq!(
        call_plan(StdCall::FileReadLine, &[CodegenTy::Int]).unwrap(),
        vec![
            PlanOp::NarrowToI32(0),
            PlanOp::PassArg(Slot::Narrowed(0)),
            PlanOp::SetCallerArena,
            PlanOp::CallRuntime,
            PlanOp::ReturnedAsResult,
            PlanOp::Finish { value: true },
        ]
    );
    assert_eq!(
        call_plan(StdCall::FileAtEof, &[CodegenTy::Int]).unwrap(),
        vec![
            PlanOp::NarrowToI32(0),
            PlanOp::PassArg(Slot::Narrowed(0)),
            PlanOp::CallRuntime,
            PlanOp::EndOfFileOrErrorResult,
            PlanOp::Finish { value: true },
        ]
    );
    assert_eq!(
        call_plan(StdCall::CryptoHmacSha256, &[CodegenTy::Bytes, CodegenTy::BytesView]).unwrap(),
        vec![
            PlanOp::PassArg(Slot::Arg(0)),
            PlanOp::UnpackView(1),
            PlanOp::PassArg(Slot::Unpacked(1)),
            PlanOp::CallRuntime,
            PlanOp::ReturnedAsResult,
            PlanOp::Finish { value: true },
        ]
    );
    assert_eq!(
        call_plan(StdCall::RandSeedFromTime, &[]).unwrap(),
        vec![PlanOp::CallRuntime, PlanOp::Finish { value: false }]
    );
}

#[test]
fn plan_of_a_bad_call_is_its_first_check_error() {
    assert_eq!(
        call_plan(StdCall::FileSeek, &[CodegenTy::Int]),
        Err(CodegenError::Unsupported("std::io::file::__seek takes 2 args (fd, offset), got 1".to_string()))
    );
    assert_eq!(
        call_plan(StdCall::FileSeek, &[CodegenTy::Bool, CodegenTy::String]),
        Err(CodegenError::Unsupported("std::io::file::__seek: fd must be Int, got Bool".to_string()))
    );
}
