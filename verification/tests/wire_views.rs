use txn_pipeline::args::TransactionArgument;
use txn_pipeline::canonical::encode_payload;
use txn_pipeline::chain::{
    Block, BlockBody, BlockHeader, BlockHeaderExtra, BlockMetadata, BlockMetadataView,
    BlockTransactionsView, BlockView, Transaction, TransactionView, U256,
};
use txn_pipeline::command::{ExecuteCommand, ExecuteResultView};
use txn_pipeline::errors::PipelineError;
use txn_pipeline::genesis_config::{ChainId, ConsensusStrategy, StdlibVersion};
use txn_pipeline::hash::{AuthenticationKey, HashValue};
use txn_pipeline::ids::AccountAddress;
use txn_pipeline::output::{
    AccessPath, ContractEvent, EventKey, TransactionInfo, TransactionInfoView, TransactionOutput,
    TransactionOutputView, WriteOp, WriteOpView,
};
use txn_pipeline::payload::{build_payload, TransactionPayload};
use txn_pipeline::status::{KeptVMStatus, TransactionStatus, TransactionVMStatus};
use txn_pipeline::txn::{
    assemble_raw_transaction, default_gas_token, DryRunTransactionRequest, RawUserTransactionView,
    SignedUserTransaction, TransactionAuthenticator, TransactionRequest,
};
use txn_pipeline::typetag::TypeTag;
use txn_pipeline::views::{BytesView, StrView};

fn hash(seed: u8) -> HashValue {
    HashValue::new(vec![seed; 32]).unwrap()
}

fn a_signed_txn(seq: u64, id_seed: u8) -> SignedUserTransaction {
    let payload = build_payload(
        None,
        Some("0x1::M::f".parse().unwrap()),
        vec![TypeTag::U64],
        vec![TransactionArgument::U8(9)],
    )
    .unwrap();
    let raw = assemble_raw_transaction(
        AccountAddress::parse("0x1").unwrap(),
        seq,
        payload,
        1000000,
        1,
        default_gas_token(),
        3000,
        1000,
        ChainId::test(),
    );
    let auth = TransactionAuthenticator::Ed25519 { public_key: vec![1; 32], signature: vec![2; 64] };
    SignedUserTransaction::new(raw, auth, hash(id_seed))
}

fn a_header(number: u64, hash_seed: u8) -> BlockHeader {
    BlockHeader {
        block_hash: hash(hash_seed),
        parent_hash: hash(0),
        timestamp: 77,
        number,
        author: AccountAddress::parse("0x2").unwrap(),
        author_auth_key: Some(AuthenticationKey::new(vec![3; 32]).unwrap()),
        txn_accumulator_root: hash(4),
        block_accumulator_root: hash(5),
        state_root: hash(6),
        gas_used: 88,
        difficulty: U256::new(vec![0; 32]).unwrap(),
        body_hash: hash(7),
        chain_id: ChainId::new(254),
        nonce: 11,
        extra: BlockHeaderExtra::new(vec![0, 0, 0, 0]).unwrap(),
    }
}

#[test]
fn payload_serialization_is_deterministic_and_tagged() {
    let payload = build_payload(None, Some("0x1::M::f".parse().unwrap()), vec![], vec![]).unwrap();
    let once = encode_payload(&payload);
    let twice = encode_payload(&payload);
    assert_eq!(once, twice);
    // a function call payload carries variant index 2
    assert_eq!(once[0], 2);
    // then the 16 raw address bytes of 0x1
    assert_eq!(once[1..17], 1u128.to_be_bytes()[..]);
    // then the module name as a length-prefixed string
    assert_eq!(once[17], 1);
    assert_eq!(once[18], b'M');
}

#[test]
fn raw_transaction_view_serializes_the_payload() {
    let txn = a_signed_txn(5, 9);
    let expected_payload = encode_payload(&txn.raw_txn.payload);
    let view = RawUserTransactionView::from_raw(txn.raw_txn);
    assert_eq!(view.sequence_number, StrView(5));
    assert_eq!(view.payload.0, expected_payload);
    assert_eq!(view.chain_id, 255);
    assert_eq!(view.expiration_timestamp_secs.0, 4000);
}

#[test]
fn transaction_request_renders_a_function_call() {
    let txn = a_signed_txn(5, 9);
    let request = TransactionRequest::from_raw(txn.raw_txn);
    assert_eq!(request.sequence_number, Some(5));
    assert_eq!(request.max_gas_amount, Some(1000000));
    assert!(request.modules.is_empty());
    let script = request.script.expect("script data expected");
    assert_eq!(script.code.to_literal_string(), "0x1::M::f");
}

#[test]
fn transaction_view_numbers_user_transactions_from_one() {
    let t1 = a_signed_txn(5, 21);
    let t2 = a_signed_txn(6, 22);
    let block = Block {
        header: a_header(40, 31),
        body: BlockBody { transactions: vec![t1, t2], uncles: None },
    };
    let subject = a_signed_txn(6, 22);
    let view = TransactionView::new(Transaction::UserTransaction(subject), &block).unwrap();
    assert_eq!(view.transaction_index, 2);
    assert_eq!(view.block_number.0, 40);
    assert!(view.block_metadata.is_none());
    assert!(view.user_transaction.is_some());
}

#[test]
fn transaction_view_gives_metadata_index_zero() {
    let block = Block {
        header: a_header(40, 31),
        body: BlockBody { transactions: vec![], uncles: None },
    };
    let meta = BlockMetadata::new(
        hash(1),
        77,
        AccountAddress::parse("0x2").unwrap(),
        None,
        0,
        40,
        ChainId::new(254),
        10,
    );
    let view = TransactionView::new(Transaction::BlockMetadata(meta, hash(8)), &block).unwrap();
    assert_eq!(view.transaction_index, 0);
    assert!(view.block_metadata.is_some());
    assert!(view.user_transaction.is_none());
}

#[test]
fn transaction_view_fails_for_a_foreign_transaction() {
    let block = Block {
        header: a_header(40, 31),
        body: BlockBody { transactions: vec![a_signed_txn(5, 21)], uncles: None },
    };
    let stranger = a_signed_txn(9, 99);
    let r = TransactionView::new(Transaction::UserTransaction(stranger), &block);
    assert_eq!(r.err(), Some(PipelineError::TransactionMissingFromBlock));
}

#[test]
fn block_view_thin_and_full_share_the_hashes() {
    let block_full = Block {
        header: a_header(40, 31),
        body: BlockBody { transactions: vec![a_signed_txn(5, 21)], uncles: None },
    };
    let block_thin = Block {
        header: a_header(40, 31),
        body: BlockBody { transactions: vec![a_signed_txn(5, 21)], uncles: None },
    };
    let full = BlockView::try_from_block(block_full, false);
    let thin = BlockView::try_from_block(block_thin, true);
    assert!(matches!(full.body, BlockTransactionsView::Full(_)));
    assert!(matches!(thin.body, BlockTransactionsView::Hashes(_)));
    assert_eq!(full.body.txn_hashes(), thin.body.txn_hashes());
    assert_eq!(full.header, thin.header);
}

#[test]
fn metadata_view_round_trips() {
    let meta = BlockMetadata::new(
        hash(1),
        77,
        AccountAddress::parse("0x2").unwrap(),
        None,
        3,
        40,
        ChainId::new(254),
        10,
    );
    let view = BlockMetadataView::from_metadata(meta);
    assert_eq!(view.number.0, 40);
    assert_eq!(view.chain_id, 254);
    let back = view.into_metadata();
    assert_eq!(back.number, 40);
    assert_eq!(back.uncles, 3);
    assert_eq!(back.chain_id.id(), 254);
}

#[test]
fn transaction_output_view_classifies_and_renders() {
    let output = TransactionOutput {
        write_set: vec![
            (
                AccessPath {
                    address: AccountAddress::parse("0x2").unwrap(),
                    path: "0/Account".to_string(),
                },
                WriteOp::Value(vec![1, 2]),
            ),
            (
                AccessPath {
                    address: AccountAddress::parse("0x2").unwrap(),
                    path: "1/Balance".to_string(),
                },
                WriteOp::Deletion,
            ),
        ],
        events: vec![ContractEvent {
            key: EventKey { bytes: vec![9; 24] },
            sequence_number: 2,
            type_tag: TypeTag::U8,
            event_data: vec![5],
        }],
        gas_used: 600,
        status: TransactionStatus::Keep(KeptVMStatus::Executed),
    };
    let view = TransactionOutputView::from_output(output);
    assert_eq!(view.gas_used.0, 600);
    assert_eq!(view.status, TransactionVMStatus::Executed);
    assert_eq!(view.events.len(), 1);
    assert_eq!(view.events[0].event_seq_number.0, 2);
    assert_eq!(view.write_set.len(), 2);
    assert!(matches!(view.write_set[0].action, WriteOpView::Value(_)));
    assert!(matches!(view.write_set[1].action, WriteOpView::Deletion));
}

#[test]
fn transaction_info_view_locates_the_record() {
    let t = a_signed_txn(5, 21);
    let txn_hash = t.id().duplicate();
    let block = Block {
        header: a_header(40, 31),
        body: BlockBody { transactions: vec![t], uncles: None },
    };
    let info = TransactionInfo {
        transaction_hash: txn_hash,
        state_root_hash: hash(1),
        event_root_hash: hash(2),
        gas_used: 600,
        status: KeptVMStatus::Executed,
    };
    let view = TransactionInfoView::new(info, &block);
    assert_eq!(view.transaction_index, 1);
    assert_eq!(view.status, TransactionVMStatus::Executed);

    // a record not among the block's user transactions is the metadata txn
    let meta_info = TransactionInfo {
        transaction_hash: hash(77),
        state_root_hash: hash(1),
        event_root_hash: hash(2),
        gas_used: 0,
        status: KeptVMStatus::Executed,
    };
    let meta_view = TransactionInfoView::new(meta_info, &block);
    assert_eq!(meta_view.transaction_index, 0);
}

#[test]
fn finalize_reports_each_mode() {
    let output = TransactionOutputView {
        events: vec![],
        gas_used: StrView(0),
        status: TransactionVMStatus::Executed,
        write_set: vec![],
    };
    // dry run: the simulated output comes back, nothing is broadcast
    match ExecuteCommand::finalize(true, false, hash(1), output, None).unwrap() {
        ExecuteResultView::DryRun(_) => {}
        other => panic!("expected a dry-run result, got {:?}", other),
    }
    // broadcast without blocking: just the identifier
    let output2 = TransactionOutputView {
        events: vec![],
        gas_used: StrView(0),
        status: TransactionVMStatus::Executed,
        write_set: vec![],
    };
    match ExecuteCommand::finalize(false, false, hash(1), output2, None).unwrap() {
        ExecuteResultView::Run(o) => {
            assert_eq!(o.txn_hash, hash(1));
            assert!(o.block_number.is_none());
        }
        other => panic!("expected a run result, got {:?}", other),
    }
    // blocking: the including block comes back
    let output3 = TransactionOutputView {
        events: vec![],
        gas_used: StrView(0),
        status: TransactionVMStatus::Executed,
        write_set: vec![],
    };
    match ExecuteCommand::finalize(false, true, hash(1), output3, Some((12, hash(13)))).unwrap() {
        ExecuteResultView::Run(o) => {
            assert_eq!(o.block_number, Some(12));
            assert_eq!(o.block_id, Some(hash(13)));
        }
        other => panic!("expected a run result, got {:?}", other),
    }
    // blocking with no inclusion observed: a confirmation timeout
    let output4 = TransactionOutputView {
        events: vec![],
        gas_used: StrView(0),
        status: TransactionVMStatus::Executed,
        write_set: vec![],
    };
    assert_eq!(
        ExecuteCommand::finalize(false, true, hash(1), output4, None),
        Err(PipelineError::ConfirmationTimeout)
    );
}

#[test]
fn chain_config_scalars_round_trip() {
    assert_eq!(StdlibVersion::new(3).as_string(), "3");
    assert_eq!(StdlibVersion::Latest.as_string(), "latest");
    assert_eq!(StdlibVersion::parse("latest").unwrap(), StdlibVersion::Latest);
    assert_eq!(StdlibVersion::parse("3").unwrap(), StdlibVersion::Version(3));
    assert_eq!(StdlibVersion::new(3).version(), 3);
    assert_eq!(StdlibVersion::Latest.version(), 0);
    assert!(StdlibVersion::parse("newest").is_err());

    assert_eq!(ConsensusStrategy::Dummy.value(), 0);
    assert_eq!(ConsensusStrategy::Argon.value(), 1);
    assert_eq!(ConsensusStrategy::Keccak.value(), 2);
    assert_eq!(ConsensusStrategy::CryptoNight.value(), 3);
    assert_eq!(ConsensusStrategy::CryptoNight.as_text(), "cryptonight");
    assert_eq!(
        ConsensusStrategy::parse("keccak").unwrap(),
        ConsensusStrategy::Keccak
    );
    assert!(ConsensusStrategy::parse("sha3").is_err());

    assert_eq!(ChainId::new(254).id(), 254);
    assert_eq!(ChainId::test().id(), 255);
    assert_eq!(ChainId::parse("254").unwrap(), ChainId::new(254));
    assert!(ChainId::parse("256").is_err());
    assert!(ChainId::parse("x").is_err());
    assert_eq!(ChainId::new(7).as_text(), "7");
}

#[test]
fn bytes_view_uses_bare_hex() {
    let v = BytesView::new(vec![0x4c, 0xd2]);
    assert_eq!(v.to_hex_text(), "4cd2");
    assert_eq!(BytesView::parse("4cd2").unwrap(), v);
    // a 0x prefix is not part of this shape
    assert!(BytesView::parse("0x4cd2").is_err());
    assert_eq!(v.inner(), &vec![0x4c, 0xd2]);
    assert_eq!(v.into_inner(), vec![0x4c, 0xd2]);
}

#[test]
fn hash_values_render_and_parse() {
    let h = hash(0xab);
    let text = h.to_hex_string();
    assert!(text.starts_with("0x"));
    assert_eq!(HashValue::parse(&text).unwrap(), h);
    assert!(HashValue::parse("0xabcd").is_err());
}

#[test]
fn dry_run_request_carries_the_public_key() {
    let txn = a_signed_txn(5, 9);
    let request = DryRunTransactionRequest::from_signed(txn);
    assert_eq!(request.sender_public_key, Some(vec![1; 32]));
    assert_eq!(request.transaction.sequence_number, Some(5));
    assert!(request.transaction.script.is_some());
}
