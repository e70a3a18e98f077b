use txn_pipeline::args::{
    convert_txn_args, parse_transaction_argument, ArgumentsView, TransactionArgument,
};
use txn_pipeline::errors::PipelineError;
use txn_pipeline::ids::AccountAddress;

#[test]
fn literals_parse_to_their_typed_values() {
    assert_eq!(
        parse_transaction_argument("true").unwrap(),
        TransactionArgument::Bool(true)
    );
    assert_eq!(
        parse_transaction_argument("false").unwrap(),
        TransactionArgument::Bool(false)
    );
    assert_eq!(
        parse_transaction_argument("5u8").unwrap(),
        TransactionArgument::U8(5)
    );
    assert_eq!(
        parse_transaction_argument("42").unwrap(),
        TransactionArgument::U64(42)
    );
    assert_eq!(
        parse_transaction_argument("42u64").unwrap(),
        TransactionArgument::U64(42)
    );
    assert_eq!(
        parse_transaction_argument("42u128").unwrap(),
        TransactionArgument::U128(42)
    );
    assert_eq!(
        parse_transaction_argument("18446744073709551615").unwrap(),
        TransactionArgument::U64(u64::MAX)
    );
    assert_eq!(
        parse_transaction_argument("x\"4cd2\"").unwrap(),
        TransactionArgument::U8Vector(vec![0x4c, 0xd2])
    );
    assert_eq!(
        parse_transaction_argument("0x1").unwrap(),
        TransactionArgument::Address(AccountAddress::parse("0x1").unwrap())
    );
}

#[test]
fn a_hex_literal_is_always_an_address_never_bytes() {
    // `0x4cd2` could be two raw bytes, but inbound it is an address;
    // raw bytes must be written `x"4cd2"`.
    match parse_transaction_argument("0x4cd2").unwrap() {
        TransactionArgument::Address(_) => {}
        other => panic!("expected an address, got {:?}", other),
    }
}

#[test]
fn malformed_literals_are_rejected() {
    assert_eq!(parse_transaction_argument(""), Err(PipelineError::DecodeError));
    assert_eq!(parse_transaction_argument("maybe"), Err(PipelineError::DecodeError));
    assert_eq!(parse_transaction_argument("256u8"), Err(PipelineError::DecodeError));
    assert_eq!(
        parse_transaction_argument("18446744073709551616"),
        Err(PipelineError::DecodeError)
    );
    assert_eq!(parse_transaction_argument("x\"4c\"extra"), Err(PipelineError::DecodeError));
    assert_eq!(parse_transaction_argument("x\"4c2\""), Err(PipelineError::DecodeError));
}

#[test]
fn literal_display_is_the_exact_inverse_of_parse() {
    for text in ["true", "false", "5u8", "42", "42u128", "x\"4cd2\"", "0x1"] {
        let arg = parse_transaction_argument(text).unwrap();
        assert_eq!(arg.to_literal_string(), text);
    }
}

#[test]
fn canonical_bytes_match_the_reference_serializer() {
    assert_eq!(
        TransactionArgument::U8(7).to_bcs_bytes(),
        bcs::to_bytes(&7u8).unwrap()
    );
    assert_eq!(
        TransactionArgument::U64(u64::MAX).to_bcs_bytes(),
        bcs::to_bytes(&u64::MAX).unwrap()
    );
    assert_eq!(
        TransactionArgument::U128(u128::MAX).to_bcs_bytes(),
        bcs::to_bytes(&u128::MAX).unwrap()
    );
    assert_eq!(
        TransactionArgument::Bool(true).to_bcs_bytes(),
        bcs::to_bytes(&true).unwrap()
    );
    let long: Vec<u8> = (0u8..=255).collect();
    assert_eq!(
        TransactionArgument::U8Vector(long.clone()).to_bcs_bytes(),
        bcs::to_bytes(&long).unwrap()
    );
}

#[test]
fn address_bytes_are_the_sixteen_raw_bytes() {
    let a = AccountAddress::parse("0x1").unwrap();
    let mut expected = vec![0u8; 16];
    expected[15] = 1;
    assert_eq!(TransactionArgument::Address(a).to_bcs_bytes(), expected);
}

#[test]
fn convert_txn_args_encodes_each_argument() {
    let args = vec![
        TransactionArgument::U8(1),
        TransactionArgument::U64(2),
        TransactionArgument::Bool(false),
    ];
    let buffers = convert_txn_args(&args);
    assert_eq!(buffers.len(), 3);
    assert_eq!(buffers[0], vec![1u8]);
    assert_eq!(buffers[1], bcs::to_bytes(&2u64).unwrap());
    assert_eq!(buffers[2], vec![0u8]);
}

#[test]
fn outbound_arguments_always_render_as_canonical_bytes() {
    // a literal decoded from an inbound request ...
    let arg = parse_transaction_argument("5u8").unwrap();
    let inbound = ArgumentsView::HumanReadable(vec![arg]);
    // ... is re-encoded outbound in its canonical bytes form,
    // never as the original literal text
    let wire = inbound.to_wire_strings();
    assert_eq!(wire, vec!["0x05".to_string()]);

    // the outbound form of a pre-serialized view with the same bytes is identical
    let bytes_form = ArgumentsView::BCS(vec![vec![0x05]]);
    assert_eq!(bytes_form.to_wire_strings(), wire);
}

#[test]
fn outbound_rendering_of_mixed_arguments() {
    let args = vec![
        parse_transaction_argument("true").unwrap(),
        parse_transaction_argument("258u64").unwrap(),
    ];
    let view = ArgumentsView::HumanReadable(args);
    assert_eq!(
        view.to_wire_strings(),
        vec!["0x01".to_string(), "0x0201000000000000".to_string()]
    );
}
