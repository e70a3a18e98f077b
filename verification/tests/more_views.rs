use txn_pipeline::chain::{
    BlockHeader, BlockHeaderExtra, EpochUncleSummary, EpochUncleSummaryView, UncleSummary,
    UncleSummaryView, U256,
};
use txn_pipeline::command::ExecutionOutputView;
use txn_pipeline::genesis_config::{ChainId, ConsensusStrategy, StdlibVersion};
use txn_pipeline::hash::HashValue;
use txn_pipeline::ids::{AccountAddress, Identifier};
use txn_pipeline::node::{
    AccumulatorInfo, BlockInfo, ChainInfo, ChainInfoView, ChainStatus, PeerInfo, PeerInfoView,
};
use txn_pipeline::resource::{
    AnnotatedMoveStruct, AnnotatedMoveStructView, AnnotatedMoveValue, AnnotatedMoveValueView,
};
use txn_pipeline::state_proof::{SparseMerkleProof, StateProof, StateWithProof, StateWithProofView};
use txn_pipeline::typetag::{StructTag, TypeTag};
use txn_pipeline::views::StrView;

fn hash(seed: u8) -> HashValue {
    HashValue::new(vec![seed; 32]).unwrap()
}

fn ident(name: &str) -> Identifier {
    Identifier::new(name.to_string()).unwrap()
}

#[test]
fn type_tags_render_like_source_text() {
    assert_eq!(TypeTag::Bool.to_literal_string(), "bool");
    assert_eq!(TypeTag::U8.to_literal_string(), "u8");
    assert_eq!(TypeTag::U64.to_literal_string(), "u64");
    assert_eq!(TypeTag::U128.to_literal_string(), "u128");
    assert_eq!(TypeTag::Address.to_literal_string(), "address");
    assert_eq!(TypeTag::Signer.to_literal_string(), "signer");
    assert_eq!(
        TypeTag::Vector(Box::new(TypeTag::U64)).to_literal_string(),
        "vector<u64>"
    );

    let plain = StructTag {
        address: AccountAddress::parse("0x1").unwrap(),
        module: ident("Account"),
        name: ident("Balance"),
        type_params: vec![],
    };
    assert_eq!(plain.to_literal_string(), "0x1::Account::Balance");

    let generic = StructTag {
        address: AccountAddress::parse("0x1").unwrap(),
        module: ident("Table"),
        name: ident("Table"),
        type_params: vec![TypeTag::U64, TypeTag::Vector(Box::new(TypeTag::U8))],
    };
    assert_eq!(
        TypeTag::Struct(generic).to_literal_string(),
        "0x1::Table::Table<u64, vector<u8>>"
    );
}

#[test]
fn state_with_proof_view_round_trips() {
    let proof = StateProof::new(
        Some(vec![1, 2, 3]),
        SparseMerkleProof { leaf: Some((hash(1), hash(2))), siblings: vec![hash(3), hash(4)] },
        SparseMerkleProof { leaf: None, siblings: vec![] },
    );
    let swp = StateWithProof::new(Some(vec![9]), proof);
    let view = StateWithProofView::from_state(swp);
    assert_eq!(view.state, Some(StrView(vec![9])));
    assert_eq!(view.account_state, Some(StrView(vec![1, 2, 3])));

    let extracted = view.state_proof();
    assert_eq!(extracted.account_state, Some(vec![1, 2, 3]));
    assert_eq!(extracted.account_proof.siblings.len(), 2);
    assert!(extracted.account_proof.leaf.is_some());

    let back = view.into_state();
    assert_eq!(back.state, Some(vec![9]));
    assert_eq!(back.proof.account_state, Some(vec![1, 2, 3]));
}

#[test]
fn annotated_values_render_recursively() {
    let value = AnnotatedMoveValue::Struct(AnnotatedMoveStruct {
        abilities: 3,
        type_: StructTag {
            address: AccountAddress::parse("0x1").unwrap(),
            module: ident("Account"),
            name: ident("Balance"),
            type_params: vec![],
        },
        value: vec![
            (ident("token"), AnnotatedMoveValue::U128(7)),
            (
                ident("flags"),
                AnnotatedMoveValue::Vector(vec![
                    AnnotatedMoveValue::Bool(true),
                    AnnotatedMoveValue::Bool(false),
                ]),
            ),
            (ident("blob"), AnnotatedMoveValue::Bytes(vec![0xde, 0xad])),
        ],
    });
    match AnnotatedMoveValueView::from_value(value) {
        AnnotatedMoveValueView::Struct(s) => {
            assert_eq!(s.abilities, 3);
            assert_eq!(s.value.len(), 3);
            assert_eq!(s.value[0].0.as_str(), "token");
            assert_eq!(s.value[0].1, AnnotatedMoveValueView::U128(StrView(7)));
            match &s.value[1].1 {
                AnnotatedMoveValueView::Vector(elems) => {
                    assert_eq!(elems.len(), 2);
                    assert_eq!(elems[0], AnnotatedMoveValueView::Bool(true));
                }
                other => panic!("expected a vector view, got {:?}", other),
            }
            assert_eq!(
                s.value[2].1,
                AnnotatedMoveValueView::Bytes(StrView(vec![0xde, 0xad]))
            );
        }
        other => panic!("expected a struct view, got {:?}", other),
    }
}

fn an_accumulator() -> AccumulatorInfo {
    AccumulatorInfo {
        accumulator_root: hash(1),
        frozen_subtree_roots: vec![hash(2)],
        num_leaves: 10,
        num_nodes: 19,
    }
}

fn a_chain_info() -> ChainInfo {
    ChainInfo {
        chain_id: ChainId::new(254),
        genesis_hash: hash(9),
        status: ChainStatus {
            head: BlockHeader {
                block_hash: hash(5),
                parent_hash: hash(4),
                timestamp: 1,
                number: 2,
                author: AccountAddress::parse("0x2").unwrap(),
                author_auth_key: None,
                txn_accumulator_root: hash(6),
                block_accumulator_root: hash(7),
                state_root: hash(8),
                gas_used: 0,
                difficulty: U256::new(vec![0; 32]).unwrap(),
                body_hash: hash(10),
                chain_id: ChainId::new(254),
                nonce: 0,
                extra: BlockHeaderExtra::new(vec![0; 4]).unwrap(),
            },
            info: BlockInfo {
                block_id: hash(5),
                total_difficulty: U256::new(vec![0; 32]).unwrap(),
                txn_accumulator_info: an_accumulator(),
                block_accumulator_info: an_accumulator(),
            },
        },
    }
}

#[test]
fn chain_info_view_carries_the_head() {
    let view = ChainInfoView::from_info(a_chain_info());
    assert_eq!(view.chain_id, 254);
    assert_eq!(view.genesis_hash, hash(9));
    assert_eq!(view.head.number.0, 2);
    assert_eq!(view.block_info.txn_accumulator_info.num_leaves, 10);
}

#[test]
fn peer_info_view_joins_protocol_lists() {
    let peer = PeerInfo {
        peer_id: vec![1, 2],
        chain_info: a_chain_info(),
        notif_protocols: vec!["a".to_string(), "b".to_string(), "c".to_string()],
        rpc_protocols: vec!["solo".to_string()],
    };
    let view = PeerInfoView::from_peer(peer);
    assert_eq!(view.notif_protocols, "a,b,c");
    assert_eq!(view.rpc_protocols, "solo");

    let empty_peer = PeerInfo {
        peer_id: vec![],
        chain_info: a_chain_info(),
        notif_protocols: vec![],
        rpc_protocols: vec![],
    };
    let empty_view = PeerInfoView::from_peer(empty_peer);
    assert_eq!(empty_view.notif_protocols, "");
}

#[test]
fn uncle_summaries_render_their_numbers() {
    let s = UncleSummary { uncles: 3, sum: 10, avg: 3, time_sum: 40, time_avg: 13 };
    let v = UncleSummaryView::from_summary(s);
    assert_eq!(v.uncles, StrView(3));
    assert_eq!(v.time_avg, StrView(13));
    let e = EpochUncleSummary { epoch: 7, number_summary: s, epoch_summary: s };
    let ev = EpochUncleSummaryView::from_summary(e);
    assert_eq!(ev.epoch, StrView(7));
    assert_eq!(ev.number_summary, v);
}

#[test]
fn execution_output_starts_without_a_block() {
    let o = ExecutionOutputView::new(hash(1));
    assert_eq!(o.txn_hash, hash(1));
    assert!(o.block_number.is_none());
    assert!(o.block_id.is_none());
}

#[test]
fn chain_config_defaults() {
    assert_eq!(StdlibVersion::default(), StdlibVersion::Latest);
    assert_eq!(ConsensusStrategy::default(), ConsensusStrategy::Dummy);
}

#[test]
fn type_tags_parse_back_from_their_renderings() {
    let samples = vec![
        TypeTag::Bool,
        TypeTag::U8,
        TypeTag::U64,
        TypeTag::U128,
        TypeTag::Address,
        TypeTag::Signer,
        TypeTag::Vector(Box::new(TypeTag::Vector(Box::new(TypeTag::U8)))),
        TypeTag::Struct(StructTag {
            address: AccountAddress::parse("0x1").unwrap(),
            module: ident("Account"),
            name: ident("Balance"),
            type_params: vec![],
        }),
    ];
    for tag in samples {
        let rendered = tag.to_literal_string();
        assert_eq!(TypeTag::parse(&rendered).unwrap(), tag);
    }
}

#[test]
fn malformed_type_tags_are_rejected() {
    assert!(TypeTag::parse("int").is_err());
    assert!(TypeTag::parse("vector<u8").is_err());
    assert!(TypeTag::parse("vector<>").is_err());
    assert!(TypeTag::parse("0x1::M").is_err());
    assert!(TypeTag::parse("").is_err());
}

#[test]
fn struct_tag_parse_requires_a_struct() {
    let st = StructTag::parse("0x1::Account::Balance").unwrap();
    assert_eq!(st.module.as_str(), "Account");
    assert_eq!(st.name.as_str(), "Balance");
    assert!(st.type_params.is_empty());
    assert!(StructTag::parse("u64").is_err());
    assert!(StructTag::parse("vector<u8>").is_err());
    assert!(StructTag::parse("junk").is_err());
}

#[test]
fn parameterized_struct_tags_round_trip() {
    let token = TypeTag::Struct(StructTag {
        address: AccountAddress::parse("0x1").unwrap(),
        module: ident("STC"),
        name: ident("STC"),
        type_params: vec![],
    });
    let balance = TypeTag::Struct(StructTag {
        address: AccountAddress::parse("0x1").unwrap(),
        module: ident("Account"),
        name: ident("Balance"),
        type_params: vec![token],
    });
    let rendered = balance.to_literal_string();
    assert_eq!(rendered, "0x1::Account::Balance<0x1::STC::STC>");
    assert_eq!(TypeTag::parse(&rendered).unwrap(), balance);

    let table = TypeTag::Struct(StructTag {
        address: AccountAddress::parse("0x1").unwrap(),
        module: ident("Table"),
        name: ident("Table"),
        type_params: vec![TypeTag::U64, TypeTag::Vector(Box::new(TypeTag::U8)), balance],
    });
    let rendered = table.to_literal_string();
    assert_eq!(
        rendered,
        "0x1::Table::Table<u64, vector<u8>, 0x1::Account::Balance<0x1::STC::STC>>"
    );
    assert_eq!(TypeTag::parse(&rendered).unwrap(), table);

    let nested = TypeTag::Vector(Box::new(table));
    assert_eq!(TypeTag::parse(&nested.to_literal_string()).unwrap(), nested);
}

#[test]
fn parameterized_struct_tag_parse_rejects_malformed_lists() {
    assert!(TypeTag::parse("0x1::Table::Table<u64").is_err());
    assert!(TypeTag::parse("0x1::Table::Table<>").is_err());
    assert!(TypeTag::parse("0x1::Table::Table<u64,bool>").is_err());
    assert!(TypeTag::parse("0x1::Table::Table<u64, >").is_err());
    let st = StructTag::parse("0x1::Account::Balance<0x1::STC::STC>").unwrap();
    assert_eq!(st.name.as_str(), "Balance");
    assert_eq!(st.type_params.len(), 1);
}
