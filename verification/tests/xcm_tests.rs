use sp_mvm::pipeline::Origin;
use sp_mvm::result::DispatchError;
use sp_mvm::xcm_poc::{
    encode_execute_call, execute_on_parachain, xcm_event_for, Event, EXECUTE_CALL_INDEX,
    FORWARD_WEIGHT_BOUND,
};

#[test]
fn forwarding_requires_a_signed_origin() {
    assert!(matches!(
        execute_on_parachain(&Origin::Unsigned, 200, &vec![1]),
        Err(DispatchError::BadOrigin)
    ));
    assert!(matches!(
        execute_on_parachain(&Origin::Root, 200, &vec![1]),
        Err(DispatchError::BadOrigin)
    ));
}

#[test]
fn forwarded_call_has_exact_encoding_and_weight_bound() {
    let (call, weight) =
        execute_on_parachain(&Origin::Signed(vec![5]), 200, &vec![0xAB, 0xCD]).unwrap();
    assert_eq!(weight, 1_000_000);
    let mut expected = vec![EXECUTE_CALL_INDEX];
    expected.extend_from_slice(&[2, 0, 0, 0]); // payload length, little-endian
    expected.extend_from_slice(&[0xAB, 0xCD]); // payload
    expected.extend_from_slice(&[0x40, 0x42, 0x0F, 0, 0, 0, 0, 0]); // 1_000_000 little-endian
    assert_eq!(call, expected);
    assert_eq!(call, encode_execute_call(&vec![0xAB, 0xCD], FORWARD_WEIGHT_BOUND));
}

#[test]
fn relay_outcome_decides_the_event() {
    let e = xcm_event_for(&Ok(()), 200, vec![1, 2, 3]);
    assert_eq!(e, Event::PingSent { para_id: 200, payload_len: 3 });

    let e = xcm_event_for(&Err(7), 200, vec![1, 2, 3]);
    assert_eq!(
        e,
        Event::ErrorSendingPing { error: 7, para_id: 200, payload: vec![1, 2, 3] }
    );
}
