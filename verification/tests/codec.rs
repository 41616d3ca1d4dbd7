use sp_mvm::result::Error;
use sp_mvm::tx::{decode_transaction, encode_transaction, ScriptTransaction};

#[test]
fn empty_input_is_not_an_envelope() {
    assert!(matches!(
        decode_transaction(&Vec::new()),
        Err(Error::TransactionValidationError)
    ));
}

#[test]
fn minimal_envelope_has_exact_bytes() {
    let t = ScriptTransaction {
        signers_count: 0,
        code: Vec::new(),
        args: Vec::new(),
        type_args: Vec::new(),
    };
    let bytes = encode_transaction(&t);
    assert_eq!(bytes, vec![0, 0, 0, 0, 0, 0, 0, 0, 0, 0, 0, 0, 0]);
    let back = decode_transaction(&bytes).unwrap();
    assert_eq!(back.signers_count, 0);
    assert!(back.code.is_empty());
    assert!(back.args.is_empty());
    assert!(back.type_args.is_empty());
}

#[test]
fn envelope_round_trips() {
    let t = ScriptTransaction {
        signers_count: 1,
        code: vec![1, 2, 3, 4, 5],
        args: vec![vec![9], vec![], vec![7, 8]],
        type_args: vec![vec![0xF0, 0x0D]],
    };
    let bytes = encode_transaction(&t);
    let back = decode_transaction(&bytes).unwrap();
    assert_eq!(back, t);
}

#[test]
fn length_prefixes_are_little_endian() {
    let t = ScriptTransaction {
        signers_count: 2,
        code: vec![0xAB; 258],
        args: Vec::new(),
        type_args: Vec::new(),
    };
    let bytes = encode_transaction(&t);
    // signer count, then the code length 258 = 0x102 little-endian.
    assert_eq!(&bytes[0..5], &[2, 0x02, 0x01, 0, 0]);
}

#[test]
fn trailing_bytes_are_rejected() {
    let t = ScriptTransaction {
        signers_count: 0,
        code: vec![1],
        args: Vec::new(),
        type_args: Vec::new(),
    };
    let mut bytes = encode_transaction(&t);
    bytes.push(0);
    assert!(matches!(
        decode_transaction(&bytes),
        Err(Error::TransactionValidationError)
    ));
}

#[test]
fn truncated_envelope_is_rejected() {
    let t = ScriptTransaction {
        signers_count: 0,
        code: vec![1, 2, 3],
        args: vec![vec![4]],
        type_args: Vec::new(),
    };
    let bytes = encode_transaction(&t);
    for cut in 0..bytes.len() {
        let shorter = bytes[..cut].to_vec();
        assert!(
            matches!(
                decode_transaction(&shorter),
                Err(Error::TransactionValidationError)
            ),
            "prefix of length {} decoded",
            cut
        );
    }
}

#[test]
fn declared_length_past_end_is_rejected() {
    // A code chunk claiming 300 bytes with only 2 present.
    let bytes = vec![0u8, 0x2C, 0x01, 0, 0, 1, 2];
    assert!(matches!(
        decode_transaction(&bytes),
        Err(Error::TransactionValidationError)
    ));
}
