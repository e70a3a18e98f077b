use txn_pipeline::args::{ArgumentsView, TransactionArgument};
use txn_pipeline::command::ExecuteCommand;
use txn_pipeline::errors::{ConfigIssue, PipelineError};
use txn_pipeline::genesis_config::ChainId;
use txn_pipeline::ids::{AccountAddress, ByteCodeOrScriptFunction, FunctionId};
use txn_pipeline::payload::{build_payload, select_artifact, CompiledArtifact, Package, ScriptData, TransactionPayload};
use txn_pipeline::status::{
    gate_dry_run, gate_execution_outcome, AbortLocation, DryRunRejected, KeptVMStatus,
    TransactionStatus, TransactionVMStatus,
};
use txn_pipeline::txn::{assemble_raw_transaction, default_gas_token};

fn sender() -> AccountAddress {
    AccountAddress::parse("0x1").unwrap()
}

fn a_function() -> FunctionId {
    FunctionId::parse("0x1::TransferScripts::peer_to_peer").unwrap()
}

#[test]
fn both_script_and_function_reference_is_ambiguous() {
    let script = CompiledArtifact { bytecode: vec![1, 2, 3], is_script: true };
    let r = build_payload(Some(script), Some(a_function()), vec![], vec![]);
    assert_eq!(
        r,
        Err(PipelineError::ConfigError(ConfigIssue::AmbiguousTarget))
    );
}

#[test]
fn neither_script_nor_function_reference_is_missing() {
    let r = build_payload(None, None, vec![], vec![]);
    assert_eq!(r, Err(PipelineError::ConfigError(ConfigIssue::MissingTarget)));
}

#[test]
fn a_script_artifact_builds_a_script_payload() {
    let script = CompiledArtifact { bytecode: vec![1, 2, 3], is_script: true };
    let args = vec![TransactionArgument::U64(9)];
    match build_payload(Some(script), None, vec![], args).unwrap() {
        TransactionPayload::Script(s) => {
            assert_eq!(s.code, vec![1, 2, 3]);
            assert_eq!(s.args, vec![bcs::to_bytes(&9u64).unwrap()]);
        }
        other => panic!("expected a script payload, got {:?}", other),
    }
}

#[test]
fn a_module_artifact_builds_a_package_with_initializer() {
    let module = CompiledArtifact { bytecode: vec![7, 7], is_script: false };
    match build_payload(Some(module), Some(a_function()), vec![], vec![]).unwrap() {
        TransactionPayload::Package(p) => {
            assert_eq!(p.modules.len(), 1);
            assert_eq!(p.modules[0].code, vec![7, 7]);
            let init = p.init_script.expect("initializer call expected");
            assert_eq!(init.function.as_str(), "peer_to_peer");
        }
        other => panic!("expected a package payload, got {:?}", other),
    }
}

#[test]
fn a_function_reference_alone_builds_a_call() {
    match build_payload(None, Some(a_function()), vec![], vec![]).unwrap() {
        TransactionPayload::ScriptFunction(call) => {
            assert_eq!(call.module.name().as_str(), "TransferScripts");
            assert_eq!(call.function.as_str(), "peer_to_peer");
        }
        other => panic!("expected a function call payload, got {:?}", other),
    }
}

#[test]
fn assembled_transaction_uses_sequence_number_and_chain_clock() {
    // sender at sequence number 5, gas (max 1000000, price 1),
    // timeout 3000 against chain time 1000
    let payload = match build_payload(None, Some(a_function()), vec![], vec![]).unwrap() {
        p @ TransactionPayload::ScriptFunction(_) => p,
        other => panic!("unexpected payload {:?}", other),
    };
    let txn = assemble_raw_transaction(
        sender(),
        5,
        payload,
        1000000,
        1,
        default_gas_token(),
        3000,
        1000,
        ChainId::new(254),
    );
    assert_eq!(txn.sequence_number, 5);
    assert_eq!(txn.expiration_timestamp_secs, 4000);
    assert_eq!(txn.max_gas_amount, 1000000);
    assert_eq!(txn.gas_unit_price, 1);
    assert_eq!(txn.chain_id.id(), 254);
    assert_eq!(txn.gas_token_code, "0x1::STC::STC");
}

#[test]
fn planning_fails_without_an_account_resource() {
    let r = ExecuteCommand::plan_transaction(
        sender(),
        None,
        Some(a_function()),
        vec![],
        vec![],
        1000000,
        1,
        3000,
        ChainId::test(),
        None,
        Some(1000),
    );
    assert_eq!(r, Err(PipelineError::AccountNotFound));
}

#[test]
fn planning_fails_without_a_chain_clock() {
    let r = ExecuteCommand::plan_transaction(
        sender(),
        None,
        Some(a_function()),
        vec![],
        vec![],
        1000000,
        1,
        3000,
        ChainId::test(),
        Some(5),
        None,
    );
    assert_eq!(r, Err(PipelineError::ClockUnavailable));
}

#[test]
fn planning_builds_the_full_transaction() {
    let txn = ExecuteCommand::plan_transaction(
        sender(),
        None,
        Some(a_function()),
        vec![],
        vec![],
        1000000,
        1,
        3000,
        ChainId::test(),
        Some(5),
        Some(1000),
    )
    .unwrap();
    assert_eq!(txn.sequence_number, 5);
    assert_eq!(txn.expiration_timestamp_secs, 4000);
    assert!(matches!(txn.payload, TransactionPayload::ScriptFunction(_)));
}

#[test]
fn classification_covers_every_outcome() {
    // discard with status code 4
    assert_eq!(
        gate_execution_outcome(TransactionStatus::Discard(4)),
        Err(DryRunRejected::Discarded { status_code: 4 })
    );
    // kept but out of gas
    assert_eq!(
        gate_execution_outcome(TransactionStatus::Keep(KeptVMStatus::OutOfGas)),
        Err(DryRunRejected::OutOfGas)
    );
    // kept and executed: eligible for submission
    assert_eq!(
        gate_execution_outcome(TransactionStatus::Keep(KeptVMStatus::Executed)),
        Ok(())
    );
    // kept but aborted: the abort code is carried through
    assert_eq!(
        gate_execution_outcome(TransactionStatus::Keep(KeptVMStatus::MoveAbort(
            AbortLocation::Script,
            42
        ))),
        Err(DryRunRejected::Aborted { location: AbortLocation::Script, abort_code: 42 })
    );
    // kept with an execution failure: the site is carried through
    assert_eq!(
        gate_execution_outcome(TransactionStatus::Keep(KeptVMStatus::ExecutionFailure {
            location: AbortLocation::Script,
            function: 3,
            code_offset: 17,
        })),
        Err(DryRunRejected::ExecutionFailed {
            location: AbortLocation::Script,
            function: 3,
            code_offset: 17,
        })
    );
    // kept with a miscellaneous error
    assert_eq!(
        gate_execution_outcome(TransactionStatus::Keep(KeptVMStatus::MiscellaneousError)),
        Err(DryRunRejected::Miscellaneous)
    );
}

#[test]
fn gate_on_classified_statuses() {
    assert_eq!(gate_dry_run(TransactionVMStatus::Executed), Ok(()));
    assert_eq!(
        gate_dry_run(TransactionVMStatus::Discard { status_code: 9 }),
        Err(DryRunRejected::Discarded { status_code: 9 })
    );
    assert_eq!(
        gate_dry_run(TransactionVMStatus::MiscellaneousError),
        Err(DryRunRejected::Miscellaneous)
    );
}

#[test]
fn script_data_enforces_its_shape() {
    let as_script = ScriptData {
        code: ByteCodeOrScriptFunction::ByteCode(vec![1, 2]),
        type_args: vec![],
        args: ArgumentsView::BCS(vec![]),
    };
    assert_eq!(
        as_script.into_script_function(),
        Err(PipelineError::ConfigError(ConfigIssue::NotAFunctionCall))
    );

    let as_call = ScriptData {
        code: ByteCodeOrScriptFunction::ScriptFunction(a_function()),
        type_args: vec![],
        args: ArgumentsView::BCS(vec![]),
    };
    assert_eq!(
        as_call.into_script(),
        Err(PipelineError::ConfigError(ConfigIssue::NotAScript))
    );

    let ok_call = ScriptData {
        code: ByteCodeOrScriptFunction::ScriptFunction(a_function()),
        type_args: vec![],
        args: ArgumentsView::BCS(vec![vec![7]]),
    };
    let call = ok_call.into_script_function().unwrap();
    assert_eq!(call.function.as_str(), "peer_to_peer");
    assert_eq!(call.args, vec![vec![7]]);

    assert_eq!(
        Package::new(vec![], None),
        Err(PipelineError::ConfigError(ConfigIssue::EmptyPackage))
    );
}

#[test]
fn only_the_last_compiled_unit_is_used() {
    let units = vec![
        CompiledArtifact { bytecode: vec![1], is_script: false },
        CompiledArtifact { bytecode: vec![2], is_script: false },
        CompiledArtifact { bytecode: vec![3], is_script: true },
    ];
    let chosen = select_artifact(units).unwrap();
    assert_eq!(chosen.bytecode, vec![3]);
    assert!(chosen.is_script);
    assert_eq!(
        select_artifact(vec![]),
        Err(PipelineError::ConfigError(ConfigIssue::NoCompiledUnit))
    );
}
