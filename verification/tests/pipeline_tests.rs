use sp_mvm::event::{Event, EventLog};
use sp_mvm::gas::GAS_AMOUNT_MAX_VALUE;
use sp_mvm::mvm::VmLifecycle;
use sp_mvm::pipeline::{
    execute, finish_publish_module, make_context, prepare_execute, prepare_publish_module,
    prepare_std_module, publish_module, publish_std, resolve_signers, Origin,
};
use sp_mvm::result::{
    from_validation_error, from_vm_result, DispatchError, Error, VmResult, VmStatus,
};
use sp_mvm::tx::{encode_transaction, ScriptTransaction};

fn script_bytes(signers: u8) -> Vec<u8> {
    encode_transaction(&ScriptTransaction {
        signers_count: signers,
        code: vec![1, 2, 3],
        args: vec![vec![4]],
        type_args: Vec::new(),
    })
}

fn ok_res(gas: u64) -> VmResult {
    VmResult { status: VmStatus::Executed, gas_used: gas }
}

fn abort_res(code: u64, gas: u64) -> VmResult {
    VmResult { status: VmStatus::Abort(code), gas_used: gas }
}

#[test]
fn zero_signer_script_from_unsigned_origin_succeeds() {
    let mut l = VmLifecycle::new();
    let prepared = prepare_execute(
        &mut l,
        &script_bytes(0),
        1_000,
        1,
        &Origin::Unsigned,
        5,
        1_000_000,
    )
    .unwrap();
    assert_eq!(prepared.script.signers.len(), 0);
    assert_eq!(prepared.gas.limit, 1_000);
    assert_eq!(prepared.ctx.height, 5);
    assert_eq!(prepared.ctx.timestamp, 1_000_000);
    // The VM reports success; the outcome is a success billing the gas.
    let out = from_vm_result(&ok_res(40));
    assert!(out.result.is_ok());
    assert_eq!(out.gas_used, 40);
}

#[test]
fn one_signer_script_from_unsigned_origin_fails_signer_check() {
    let mut l = VmLifecycle::new();
    let r = prepare_execute(
        &mut l,
        &script_bytes(1),
        1_000,
        1,
        &Origin::Unsigned,
        5,
        6,
    );
    assert_eq!(r.err(), Some(Error::TransactionSignersNumError));
    // A validation failure bills zero gas.
    let out = from_validation_error(Error::TransactionSignersNumError);
    assert_eq!(out.gas_used, 0);
    assert_eq!(out.result, Err(Error::TransactionSignersNumError));
}

#[test]
fn one_signer_script_from_signed_origin_resolves_the_signer() {
    let mut l = VmLifecycle::new();
    let prepared = prepare_execute(
        &mut l,
        &script_bytes(1),
        1_000,
        1,
        &Origin::Signed(vec![0xAA, 0xBB]),
        1,
        2,
    )
    .unwrap();
    assert_eq!(prepared.script.signers.len(), 1);
    let mut expected = vec![0u8; 30];
    expected.extend_from_slice(&[0xAA, 0xBB]);
    assert_eq!(prepared.script.signers[0].bytes, expected);
}

#[test]
fn declared_two_signers_is_a_mismatch_even_when_signed() {
    let mut l = VmLifecycle::new();
    let r = prepare_execute(
        &mut l,
        &script_bytes(2),
        1_000,
        1,
        &Origin::Signed(vec![1]),
        1,
        2,
    );
    assert_eq!(r.err(), Some(Error::TransactionSignersNumError));
}

#[test]
fn signer_resolution_cases() {
    assert_eq!(resolve_signers(0, &Origin::Root).unwrap().len(), 0);
    assert_eq!(resolve_signers(0, &Origin::Signed(vec![1])).unwrap().len(), 0);
    assert_eq!(
        resolve_signers(1, &Origin::Root).err(),
        Some(Error::TransactionSignersNumError)
    );
    assert_eq!(
        resolve_signers(1, &Origin::Signed(vec![9u8; 33])).err(),
        Some(Error::NumConversionError)
    );
    assert_eq!(resolve_signers(1, &Origin::Signed(vec![9])).unwrap().len(), 1);
}

#[test]
fn malformed_envelope_fails_validation() {
    let mut l = VmLifecycle::new();
    let r = prepare_execute(&mut l, &vec![1, 2], 1_000, 1, &Origin::Unsigned, 1, 2);
    assert_eq!(r.err(), Some(Error::TransactionValidationError));
}

#[test]
fn signer_mismatch_reported_even_with_oversized_gas() {
    // The signer check precedes the gas check: a mismatch is reported as
    // such even when the gas pair is also unrepresentable.
    let mut l = VmLifecycle::new();
    let r = prepare_execute(
        &mut l,
        &script_bytes(1),
        GAS_AMOUNT_MAX_VALUE + 1,
        1,
        &Origin::Unsigned,
        1,
        2,
    );
    assert_eq!(r.err(), Some(Error::TransactionSignersNumError));
}

#[test]
fn oversized_gas_fails_once_signers_resolve() {
    let mut l = VmLifecycle::new();
    let r = prepare_execute(
        &mut l,
        &script_bytes(0),
        GAS_AMOUNT_MAX_VALUE + 1,
        1,
        &Origin::Unsigned,
        1,
        2,
    );
    assert_eq!(r.err(), Some(Error::InvalidGasAmountMaxValue));
}

#[test]
fn over_long_signer_reported_before_gas_in_publish() {
    let mut l = VmLifecycle::new();
    let r = prepare_publish_module(
        &mut l,
        &Origin::Signed(vec![1u8; 33]),
        vec![1],
        GAS_AMOUNT_MAX_VALUE + 1,
        1,
    );
    assert!(matches!(
        r,
        Err(DispatchError::Pallet(Error::NumConversionError))
    ));
}

#[test]
fn unrepresentable_block_context_is_a_conversion_error() {
    let mut l = VmLifecycle::new();
    let r = prepare_execute(
        &mut l,
        &script_bytes(0),
        1_000,
        1,
        &Origin::Unsigned,
        u128::from(u64::MAX) + 1,
        2,
    );
    assert_eq!(r.err(), Some(Error::NumConversionError));
    assert_eq!(
        make_context(1, u128::from(u64::MAX) + 1).err(),
        Some(Error::NumConversionError)
    );
    let ctx = make_context(3, 4).unwrap();
    assert_eq!(ctx.height, 3);
    assert_eq!(ctx.timestamp, 4);
}

#[test]
fn publish_module_requires_a_signed_origin() {
    let mut l = VmLifecycle::new();
    let r = prepare_publish_module(&mut l, &Origin::Unsigned, vec![1], 100, 1);
    assert!(matches!(r, Err(DispatchError::BadOrigin)));
    let r = prepare_publish_module(&mut l, &Origin::Root, vec![1], 100, 1);
    assert!(matches!(r, Err(DispatchError::BadOrigin)));
}

#[test]
fn publish_module_addresses_the_signer() {
    let mut l = VmLifecycle::new();
    let (tx, gas) =
        prepare_publish_module(&mut l, &Origin::Signed(vec![7]), vec![1, 2], 100, 3).unwrap();
    assert_eq!(tx.code, vec![1, 2]);
    let mut expected = vec![0u8; 31];
    expected.push(7);
    assert_eq!(tx.owner.bytes, expected);
    assert_eq!(gas.limit, 100);
    assert_eq!(gas.price, 3);
}

#[test]
fn publish_module_emits_event_only_on_success() {
    let mut events = EventLog::new();
    let out = finish_publish_module(&ok_res(12), vec![7], &mut events);
    assert!(out.result.is_ok());
    assert_eq!(out.gas_used, 12);
    assert_eq!(events.events, vec![Event::ModulePublished { publisher: vec![7] }]);

    let mut events = EventLog::new();
    let out = finish_publish_module(&abort_res(4016, 9), vec![7], &mut events);
    assert_eq!(out.result, Err(Error::ScriptValidationError));
    assert_eq!(out.gas_used, 9);
    assert!(events.events.is_empty());
}

#[test]
fn std_module_attempt_is_owned_by_the_reserved_address() {
    let (tx, gas) = prepare_std_module(vec![8, 9], 70, 3).unwrap();
    assert_eq!(tx.code, vec![8, 9]);
    let mut expected = vec![0u8; 31];
    expected.push(1);
    assert_eq!(tx.owner.bytes, expected);
    assert_eq!(gas.limit, 70);
    assert_eq!(gas.price, 3);
    assert_eq!(
        prepare_std_module(vec![8], GAS_AMOUNT_MAX_VALUE + 1, 3).err(),
        Some(Error::InvalidGasAmountMaxValue)
    );
}

#[test]
fn publish_std_requires_root() {
    let mut l = VmLifecycle::new();
    let mut events = EventLog::new();
    let r = publish_std(
        &mut l,
        &Origin::Signed(vec![1]),
        &vec![vec![1]],
        100,
        1,
        &vec![ok_res(1)],
        &mut events,
    );
    assert!(matches!(r, Err(DispatchError::BadOrigin)));
    assert!(events.events.is_empty());
}

#[test]
fn publish_std_stops_at_first_failure_and_bills_attempted_gas() {
    let mut l = VmLifecycle::new();
    let mut events = EventLog::new();
    let modules = vec![vec![1], vec![2], vec![3]];
    // The second module fails; the third is never attempted, so the VM
    // reports cover exactly the two attempts.
    let results = vec![ok_res(10), abort_res(4001, 5)];
    let (out, attempts) =
        publish_std(&mut l, &Origin::Root, &modules, 100, 1, &results, &mut events).unwrap();
    // Exactly one success before the failure: one event.
    assert_eq!(events.events, vec![Event::StdModulePublished]);
    // Gas across both attempted modules, failure included.
    assert_eq!(out.gas_used, 15);
    assert_eq!(out.result, Err(Error::ScriptValidationError));
    // Exactly the two attempted publications were handed to the VM, in
    // order, each owned by the reserved system address and budgeted with
    // the remaining gas.
    assert_eq!(attempts.len(), 2);
    assert_eq!(attempts[0].0.code, vec![1]);
    assert_eq!(attempts[1].0.code, vec![2]);
    for (tx, _) in &attempts {
        assert_eq!(tx.owner.bytes[31], 1);
        assert!(tx.owner.bytes[..31].iter().all(|b| *b == 0));
    }
    assert_eq!(attempts[0].1.limit, 100);
    assert_eq!(attempts[1].1.limit, 90);
    assert_eq!(attempts[0].1.price, 1);
    assert_eq!(attempts[1].1.price, 1);
}

#[test]
fn publish_std_all_successes_bills_total_and_emits_per_module() {
    let mut l = VmLifecycle::new();
    let mut events = EventLog::new();
    let modules = vec![vec![1], vec![2], vec![3]];
    let results = vec![ok_res(10), ok_res(20), ok_res(30)];
    let (out, attempts) =
        publish_std(&mut l, &Origin::Root, &modules, 100, 1, &results, &mut events).unwrap();
    assert_eq!(events.events.len(), 3);
    assert!(events.events.iter().all(|e| *e == Event::StdModulePublished));
    assert_eq!(out.gas_used, 60);
    assert!(out.result.is_ok());
    assert_eq!(attempts.len(), 3);
    assert_eq!(attempts[0].1.limit, 100);
    assert_eq!(attempts[1].1.limit, 90);
    assert_eq!(attempts[2].1.limit, 70);
}

#[test]
fn publish_std_empty_batch_is_a_successful_no_op() {
    let mut l = VmLifecycle::new();
    let mut events = EventLog::new();
    let (out, attempts) = publish_std(
        &mut l,
        &Origin::Root,
        &Vec::new(),
        100,
        1,
        &Vec::new(),
        &mut events,
    )
    .unwrap();
    assert!(events.events.is_empty());
    assert_eq!(out.gas_used, 0);
    assert!(out.result.is_ok());
    assert!(attempts.is_empty());
}

#[test]
fn publish_std_rejects_an_unrepresentable_budget() {
    let mut l = VmLifecycle::new();
    let mut events = EventLog::new();
    // The first budget is already unrepresentable, so nothing reaches the
    // VM and there are no reports.
    let r = publish_std(
        &mut l,
        &Origin::Root,
        &vec![vec![1]],
        GAS_AMOUNT_MAX_VALUE + 1,
        1,
        &Vec::new(),
        &mut events,
    );
    assert!(matches!(
        r,
        Err(DispatchError::Pallet(Error::InvalidGasAmountMaxValue))
    ));
    assert!(events.events.is_empty());
}

#[test]
fn execute_end_to_end_zero_signer_unsigned_succeeds() {
    let mut l = VmLifecycle::new();
    let out = execute(
        &mut l,
        &script_bytes(0),
        1_000,
        1,
        &Origin::Unsigned,
        5,
        6,
        &ok_res(33),
    )
    .unwrap();
    assert!(out.result.is_ok());
    assert_eq!(out.gas_used, 33);
}

#[test]
fn execute_end_to_end_signer_mismatch_fails_before_the_vm() {
    let mut l = VmLifecycle::new();
    let r = execute(
        &mut l,
        &script_bytes(1),
        1_000,
        1,
        &Origin::Unsigned,
        5,
        6,
        &ok_res(33),
    );
    assert_eq!(r.err(), Some(Error::TransactionSignersNumError));
}

#[test]
fn publish_module_end_to_end() {
    let mut l = VmLifecycle::new();
    let mut events = EventLog::new();
    let out = publish_module(
        &mut l,
        Origin::Signed(vec![9]),
        vec![1, 2, 3],
        500,
        2,
        &ok_res(21),
        &mut events,
    )
    .unwrap();
    assert!(out.result.is_ok());
    assert_eq!(out.gas_used, 21);
    assert_eq!(events.events, vec![Event::ModulePublished { publisher: vec![9] }]);

    // A VM abort bills its gas and deposits nothing.
    let mut events = EventLog::new();
    let out = publish_module(
        &mut l,
        Origin::Signed(vec![9]),
        vec![1, 2, 3],
        500,
        2,
        &abort_res(4002, 13),
        &mut events,
    )
    .unwrap();
    assert_eq!(out.result, Err(Error::ScriptValidationError));
    assert_eq!(out.gas_used, 13);
    assert!(events.events.is_empty());

    // An unsigned origin never reaches the VM.
    let mut events = EventLog::new();
    let r = publish_module(
        &mut l,
        Origin::Unsigned,
        vec![1],
        500,
        2,
        &ok_res(1),
        &mut events,
    );
    assert!(matches!(r, Err(DispatchError::BadOrigin)));
    assert!(events.events.is_empty());
}

#[test]
fn vm_abort_is_translated_with_its_gas() {
    let out = from_vm_result(&abort_res(4008, 77));
    assert_eq!(out.result, Err(Error::ScriptValidationError));
    assert_eq!(out.gas_used, 77);
}
