//! The per-extrinsic transaction pipeline: decode the envelope, resolve
//! signers, build the gas budget, obtain the process-wide VM, and translate
//! the VM's reported outcome — with validation failures detected before any
//! gas is spent, and the fail-fast batch policy for privileged module
//! publication.
//!
//! The VM invocation itself is the opaque collaborator's step: each entry
//! point here either prepares everything the VM call needs, or takes the
//! VM's reported result as an argument and finishes the dispatch, so the
//! surrounding decisions are verified for every outcome the VM could report.

use vstd::prelude::*;
use crate::addr::{AccountAddress, ADDRESS_LENGTH, padded_address, account_to_address, core_address, core_code_address};
use crate::event::{Event, EventLog};
use crate::gas::{GasBudget, new_budget, new_budget_spec};
use crate::mvm::{VmLifecycle, get_or_create_step};
use crate::result::{
    Error,
    DispatchError,
    DispatchOutcome,
    VmResult,
    vm_ok,
    all_ok,
    total_gas,
    first_fail,
    is_ok,
    from_vm_results,
    from_vm_result,
    lemma_total_gas_take_succ,
    lemma_total_gas_nonneg,
    lemma_first_fail_char,
};
use crate::tx::{ScriptTransaction, decode_transaction, parse_envelope, views_of};

verus! {

/// The origin a call was dispatched from: the privileged root origin, an
/// account's signature, or no authorization at all.
#[derive(Clone, Debug, PartialEq, Eq)]
pub enum Origin {
    Root,
    Signed(Vec<u8>),
    Unsigned,
}

/// The execution context handed to the VM: the current block height and
/// block timestamp, in the VM's numeric domain.
#[derive(Clone, Copy, Debug, PartialEq, Eq, Structural)]
pub struct ExecutionContext {
    pub timestamp: u64,
    pub height: u64,
}

/// What building the context yields: the converted pair when both values are
/// representable in the VM's numeric domain, and a conversion error —
/// never a silent truncation — otherwise.
pub open spec fn make_context_spec(height: u128, time: u128) -> Result<ExecutionContext, Error> {
    if height <= u64::MAX && time <= u64::MAX {
        Ok(ExecutionContext { timestamp: time as u64, height: height as u64 })
    } else {
        Err(Error::NumConversionError)
    }
}

/// Converts the chain's block height and timestamp into the VM's numeric
/// domain.
pub fn make_context(height: u128, time: u128) -> (r: Result<ExecutionContext, Error>)
    ensures
        r == make_context_spec(height, time),
{
    if height > u64::MAX as u128 || time > u64::MAX as u128 {
        Err(Error::NumConversionError)
    } else {
        Ok(ExecutionContext { timestamp: time as u64, height: height as u64 })
    }
}

/// What signer resolution yields. A script declaring zero signers needs
/// none, whatever the origin; one declaring signers needs a signed origin
/// resolving to exactly the declared number of addresses (one, since a
/// single signature carries one account), and any mismatch is a hard
/// validation failure, never truncated or padded.
pub open spec fn resolve_signers_spec(declared: u8, origin: Origin) -> Result<Seq<Seq<u8>>, Error> {
    if declared == 0 {
        Ok(Seq::empty())
    } else {
        match origin {
            Origin::Signed(acc) => if acc@.len() > ADDRESS_LENGTH {
                Err(Error::NumConversionError)
            } else if declared == 1 {
                Ok(seq![padded_address(acc@)])
            } else {
                Err(Error::TransactionSignersNumError)
            },
            _ => Err(Error::TransactionSignersNumError),
        }
    }
}

/// Resolves the declared number of signer addresses from the call's origin.
pub fn resolve_signers(declared: u8, origin: &Origin) -> (r: Result<Vec<AccountAddress>, Error>)
    ensures
        (r is Ok) == (resolve_signers_spec(declared, *origin) is Ok),
        r matches Ok(v) ==> (resolve_signers_spec(declared, *origin) matches Ok(s) && v@.len()
            == s.len() && (forall|i: int|
            0 <= i < s.len() ==> (#[trigger] v@[i])@ == s[i] && v@[i].wf())),
        r matches Err(e) ==> resolve_signers_spec(declared, *origin) == Err::<Seq<Seq<u8>>, Error>(
            e,
        ),
{
    if declared == 0 {
        let v: Vec<AccountAddress> = Vec::new();
        return Ok(v);
    }
    match origin {
        Origin::Signed(acc) => match account_to_address(acc) {
            Ok(a) => if declared == 1 {
                let mut v: Vec<AccountAddress> = Vec::new();
                v.push(a);
                Ok(v)
            } else {
                Err(Error::TransactionSignersNumError)
            },
            Err(e) => Err(e),
        },
        _ => Err(Error::TransactionSignersNumError),
    }
}

/// Law: whenever the declared signer count cannot be met by the origin — a
/// nonzero count without a signature, or a count a single signature cannot
/// cover — resolution fails with the signer-mismatch error, never by
/// truncating or padding the signer list. Combined with
/// `crate::result::from_validation_error`, such an execution is rejected
/// before the VM runs and bills zero gas.
pub proof fn lemma_signer_count_mismatch_rejected(declared: u8, origin: Origin)
    requires
        declared != 0,
        origin matches Origin::Signed(acc) ==> acc@.len() <= ADDRESS_LENGTH && declared != 1,
    ensures
        resolve_signers_spec(declared, origin) == Err::<Seq<Seq<u8>>, Error>(
            Error::TransactionSignersNumError,
        ),
{
}

/// A script invocation ready for the VM: the decoded envelope parts plus the
/// resolved signer addresses.
pub struct PreparedScript {
    pub code: Vec<u8>,
    pub args: Vec<Vec<u8>>,
    pub type_args: Vec<Vec<u8>>,
    pub signers: Vec<AccountAddress>,
}

/// Everything a script execution hands the VM: the script, the validated gas
/// budget, and the execution context.
pub struct PreparedExecution {
    pub script: PreparedScript,
    pub gas: GasBudget,
    pub ctx: ExecutionContext,
}

/// The validation phase of script execution: decodes the envelope, resolves
/// signers against the declared count, validates the gas budget, converts the
/// block context, and obtains the process-wide VM. Every failure here is
/// detected before the VM runs, so no gas is spent on it; the checks happen
/// in exactly this order, and the first failure is the one reported.
pub fn prepare_execute(
    lifecycle: &mut VmLifecycle,
    tx_bc: &Vec<u8>,
    gas_limit: u64,
    gas_price: u64,
    origin: &Origin,
    height: u128,
    time: u128,
) -> (r: Result<PreparedExecution, Error>)
    requires
        old(lifecycle).wf(),
    ensures
        final(lifecycle).wf(),
        r is Err ==> *final(lifecycle) == *old(lifecycle),
        r is Ok ==> get_or_create_step(*old(lifecycle), *final(lifecycle)),
        parse_envelope(tx_bc@) is None ==> r == Err::<PreparedExecution, Error>(
            Error::TransactionValidationError,
        ),
        parse_envelope(tx_bc@) matches Some(p) ==> (match resolve_signers_spec(p.0, *origin) {
            Err(e) => r == Err::<PreparedExecution, Error>(e),
            Ok(signers) => match new_budget_spec(gas_limit, gas_price) {
                Err(e) => r == Err::<PreparedExecution, Error>(e),
                Ok(gas) => match make_context_spec(height, time) {
                    Err(e) => r == Err::<PreparedExecution, Error>(e),
                    Ok(ctx) => r matches Ok(pe) && pe.gas == gas && pe.ctx == ctx
                        && pe.script.code@ == p.1 && views_of(pe.script.args@) == p.2 && views_of(
                        pe.script.type_args@,
                    ) == p.3 && pe.script.signers@.len() == signers.len() && (forall|i: int|
                        0 <= i < signers.len() ==> (#[trigger] pe.script.signers@[i])@
                            == signers[i]),
                },
            },
        }),
{
    let t = match decode_transaction(tx_bc) {
        Err(e) => {
            return Err(e);
        },
        Ok(t) => t,
    };
    let signers = match resolve_signers(t.signers_count, origin) {
        Err(e) => {
            return Err(e);
        },
        Ok(s) => s,
    };
    let gas = match new_budget(gas_limit, gas_price) {
        Err(e) => {
            return Err(e);
        },
        Ok(g) => g,
    };
    let ctx = match make_context(height, time) {
        Err(e) => {
            return Err(e);
        },
        Ok(c) => c,
    };
    let _ = lifecycle.try_get_or_create_move_vm();
    let ScriptTransaction { signers_count: _, code, args, type_args } = t;
    Ok(PreparedExecution { script: PreparedScript { code, args, type_args, signers }, gas, ctx })
}

/// A module publication ready for the VM: the code blob and the address that
/// will own it.
pub struct ModuleTx {
    pub code: Vec<u8>,
    pub owner: AccountAddress,
}

/// The validation phase of a user module publication: requires a signed
/// origin, addresses the module to the signer's resolved address, validates
/// the gas budget, and obtains the VM — in exactly this order, the first
/// failure reported.
pub fn prepare_publish_module(
    lifecycle: &mut VmLifecycle,
    origin: &Origin,
    module_bc: Vec<u8>,
    gas_limit: u64,
    gas_price: u64,
) -> (r: Result<(ModuleTx, GasBudget), DispatchError>)
    requires
        old(lifecycle).wf(),
    ensures
        final(lifecycle).wf(),
        r is Err ==> *final(lifecycle) == *old(lifecycle),
        r is Ok ==> get_or_create_step(*old(lifecycle), *final(lifecycle)),
        !(origin is Signed) ==> r == Err::<(ModuleTx, GasBudget), DispatchError>(
            DispatchError::BadOrigin,
        ),
        origin matches Origin::Signed(acc) ==> (if acc@.len() > ADDRESS_LENGTH {
            r == Err::<(ModuleTx, GasBudget), DispatchError>(
                DispatchError::Pallet(Error::NumConversionError),
            )
        } else {
            match new_budget_spec(gas_limit, gas_price) {
                Err(e) => r == Err::<(ModuleTx, GasBudget), DispatchError>(
                    DispatchError::Pallet(e),
                ),
                Ok(gas) => r matches Ok(p) && p.0.code@ == module_bc@ && p.0.owner@
                    == padded_address(acc@) && p.1 == gas,
            }
        }),
{
    let acc = match origin {
        Origin::Signed(acc) => acc,
        _ => {
            return Err(DispatchError::BadOrigin);
        },
    };
    let owner = match account_to_address(acc) {
        Err(e) => {
            return Err(DispatchError::Pallet(e));
        },
        Ok(a) => a,
    };
    let gas = match new_budget(gas_limit, gas_price) {
        Err(e) => {
            return Err(DispatchError::Pallet(e));
        },
        Ok(g) => g,
    };
    let _ = lifecycle.try_get_or_create_move_vm();
    Ok((ModuleTx { code: module_bc, owner }, gas))
}

/// The settlement phase of a user module publication: bills the gas the VM
/// reported, and deposits a `ModulePublished` event exactly when the VM
/// succeeded — a failed publication deposits nothing.
pub fn finish_publish_module(res: &VmResult, who: Vec<u8>, events: &mut EventLog) -> (r:
    DispatchOutcome)
    ensures
        r.gas_used == res.gas_used,
        vm_ok(*res) ==> r.result is Ok && final(events)@ == old(events)@.push(
            (Event::ModulePublished { publisher: who }),
        ),
        !vm_ok(*res) ==> r.result == Err::<(), Error>(Error::ScriptValidationError)
            && final(events)@ == old(events)@,
{
    if is_ok(res) {
        events.deposit_event(Event::ModulePublished { publisher: who });
        DispatchOutcome { result: Ok(()), gas_used: res.gas_used }
    } else {
        DispatchOutcome { result: Err(Error::ScriptValidationError), gas_used: res.gas_used }
    }
}

/// The script-execution entry point, end to end. The validation phase runs
/// first, and any failure there is reported with zero gas billed before the
/// VM is ever invoked; `vm_result` is what the VM reports for the prepared
/// invocation under the prepared budget and context, and it decides the
/// outcome and the gas billed.
pub fn execute(
    lifecycle: &mut VmLifecycle,
    tx_bc: &Vec<u8>,
    gas_limit: u64,
    gas_price: u64,
    origin: &Origin,
    height: u128,
    time: u128,
    vm_result: &VmResult,
) -> (r: Result<DispatchOutcome, Error>)
    requires
        old(lifecycle).wf(),
    ensures
        final(lifecycle).wf(),
        parse_envelope(tx_bc@) is None ==> r == Err::<DispatchOutcome, Error>(
            Error::TransactionValidationError,
        ),
        parse_envelope(tx_bc@) matches Some(p) ==> (match resolve_signers_spec(p.0, *origin) {
            Err(e) => r == Err::<DispatchOutcome, Error>(e),
            Ok(signers) => match new_budget_spec(gas_limit, gas_price) {
                Err(e) => r == Err::<DispatchOutcome, Error>(e),
                Ok(gas) => match make_context_spec(height, time) {
                    Err(e) => r == Err::<DispatchOutcome, Error>(e),
                    Ok(ctx) => r matches Ok(out) && out.gas_used == vm_result.gas_used && (vm_ok(
                        *vm_result,
                    ) ==> out.result is Ok) && (!vm_ok(*vm_result) ==> out.result == Err::<
                        (),
                        Error,
                    >(Error::ScriptValidationError)),
                },
            },
        }),
{
    let _prepared = match prepare_execute(
        lifecycle,
        tx_bc,
        gas_limit,
        gas_price,
        origin,
        height,
        time,
    ) {
        Err(e) => {
            return Err(e);
        },
        Ok(p) => p,
    };
    Ok(from_vm_result(vm_result))
}

/// The user module publication entry point, end to end: requires a signed
/// origin, addresses the module to the signer, validates the gas budget, and
/// settles the VM's reported result — depositing a `ModulePublished` event
/// exactly when the VM succeeded, and billing the gas it reported either way.
pub fn publish_module(
    lifecycle: &mut VmLifecycle,
    origin: Origin,
    module_bc: Vec<u8>,
    gas_limit: u64,
    gas_price: u64,
    vm_result: &VmResult,
    events: &mut EventLog,
) -> (r: Result<DispatchOutcome, DispatchError>)
    requires
        old(lifecycle).wf(),
    ensures
        final(lifecycle).wf(),
        r is Err ==> *final(lifecycle) == *old(lifecycle),
        r is Ok ==> get_or_create_step(*old(lifecycle), *final(lifecycle)),
        !(origin is Signed) ==> r == Err::<DispatchOutcome, DispatchError>(
            DispatchError::BadOrigin,
        ) && final(events)@ == old(events)@,
        origin matches Origin::Signed(acc) ==> (if acc@.len() > ADDRESS_LENGTH {
            r == Err::<DispatchOutcome, DispatchError>(
                DispatchError::Pallet(Error::NumConversionError),
            ) && final(events)@ == old(events)@
        } else {
            match new_budget_spec(gas_limit, gas_price) {
                Err(e) => r == Err::<DispatchOutcome, DispatchError>(DispatchError::Pallet(e))
                    && final(events)@ == old(events)@,
                Ok(gas) => r matches Ok(out) && out.gas_used == vm_result.gas_used && (vm_ok(
                    *vm_result,
                ) ==> out.result is Ok && final(events)@ == old(events)@.push(
                    (Event::ModulePublished { publisher: acc }),
                )) && (!vm_ok(*vm_result) ==> out.result == Err::<(), Error>(
                    Error::ScriptValidationError,
                ) && final(events)@ == old(events)@),
            }
        }),
{
    let acc = match origin {
        Origin::Signed(acc) => acc,
        _ => {
            return Err(DispatchError::BadOrigin);
        },
    };
    let _owner = match account_to_address(&acc) {
        Err(e) => {
            return Err(DispatchError::Pallet(e));
        },
        Ok(a) => a,
    };
    let _gas = match new_budget(gas_limit, gas_price) {
        Err(e) => {
            return Err(DispatchError::Pallet(e));
        },
        Ok(g) => g,
    };
    let _ = lifecycle.try_get_or_create_move_vm();
    Ok(finish_publish_module(vm_result, acc, events))
}

/// The preparation of one privileged batch attempt: the module is owned by
/// the VM's reserved system address, and budgeted with the gas remaining
/// after all earlier attempts.
pub fn prepare_std_module(module_bc: Vec<u8>, remaining_gas: u64, gas_price: u64) -> (r: Result<
    (ModuleTx, GasBudget),
    Error,
>)
    ensures
        match new_budget_spec(remaining_gas, gas_price) {
            Err(e) => r == Err::<(ModuleTx, GasBudget), Error>(e),
            Ok(gas) => r matches Ok(p) && p.0.code@ == module_bc@ && p.0.owner@ == core_address()
                && p.1 == gas,
        },
{
    let gas = match new_budget(remaining_gas, gas_price) {
        Err(e) => {
            return Err(e);
        },
        Ok(g) => g,
    };
    Ok((ModuleTx { code: module_bc, owner: core_code_address() }, gas))
}

/// Batch publication of the privileged standard modules, root origin only.
///
/// The modules are attempted strictly in order, each owned by the VM's
/// reserved system address and budgeted with the gas remaining after all
/// earlier attempts. The batch stops at the first failure — earlier
/// successful publications stay committed — and the outcome bills the gas
/// total across every attempted module. Each success deposits one
/// `StdModulePublished` event, in order; a failed attempt deposits none.
/// Alongside the outcome, the batch returns the attempted publications as
/// they were handed to the VM, in order: module bytes, reserved owner, and
/// the per-attempt budget.
///
/// `vm_results` is exactly the sequence of VM reports for the attempts that
/// happen: every entry before the last succeeds, a failing entry (if any) is
/// the last, and when every attempt succeeds under a valid budget the whole
/// module list was attempted. Modules past a failure are never attempted and
/// have no report. The gas bound on the results is the VM's own budget
/// guarantee: it never consumes more than the budget it was handed.
#[verifier::loop_isolation(false)]
pub fn publish_std(
    lifecycle: &mut VmLifecycle,
    origin: &Origin,
    modules: &Vec<Vec<u8>>,
    gas_limit: u64,
    gas_price: u64,
    vm_results: &Vec<VmResult>,
    events: &mut EventLog,
) -> (r: Result<(DispatchOutcome, Vec<(ModuleTx, GasBudget)>), DispatchError>)
    requires
        old(lifecycle).wf(),
        vm_results@.len() <= modules@.len(),
        forall|i: int|
            0 <= i < vm_results@.len() ==> total_gas(#[trigger] vm_results@.take(i + 1))
                <= gas_limit,
        first_fail(vm_results@) < vm_results@.len() ==> first_fail(vm_results@) == vm_results@.len()
            - 1,
        origin is Root && new_budget_spec(gas_limit, gas_price) is Ok && first_fail(vm_results@)
            == vm_results@.len() ==> vm_results@.len() == modules@.len(),
        origin is Root && modules@.len() > 0 && new_budget_spec(gas_limit, gas_price) is Err
            ==> vm_results@.len() == 0,
    ensures
        final(lifecycle).wf(),
        !(origin is Root) ==> r == Err::<(DispatchOutcome, Vec<(ModuleTx, GasBudget)>),
            DispatchError,
        >(DispatchError::BadOrigin) && final(events)@ == old(events)@ && *final(lifecycle) == *old(
            lifecycle,
        ),
        origin is Root ==> get_or_create_step(*old(lifecycle), *final(lifecycle)),
        origin is Root && modules@.len() > 0 && new_budget_spec(gas_limit, gas_price) is Err
            ==> r == Err::<(DispatchOutcome, Vec<(ModuleTx, GasBudget)>), DispatchError>(
            DispatchError::Pallet(Error::InvalidGasAmountMaxValue),
        ) && final(events)@ == old(events)@,
        origin is Root && (modules@.len() == 0 || new_budget_spec(gas_limit, gas_price) is Ok)
            ==> ({
            let k = first_fail(vm_results@);
            &&& r matches Ok(out)
            &&& out.0.gas_used == total_gas(vm_results@)
            &&& (k == vm_results@.len() ==> out.0.result is Ok)
            &&& (k < vm_results@.len() ==> out.0.result == Err::<(), Error>(
                Error::ScriptValidationError,
            ))
            &&& final(events)@ == old(events)@ + Seq::new(
                k as nat,
                |x: int| Event::StdModulePublished,
            )
            &&& out.1@.len() == vm_results@.len()
            &&& (forall|i: int|
                0 <= i < vm_results@.len() ==> (#[trigger] out.1@[i]).0.code@ == modules@[i]@
                    && out.1@[i].0.owner@ == core_address() && out.1@[i].1.limit == gas_limit
                    - total_gas(vm_results@.take(i)) && out.1@[i].1.price == gas_price)
        }),
{
    match origin {
        Origin::Root => {},
        _ => {
            return Err(DispatchError::BadOrigin);
        },
    }
    let _ = lifecycle.try_get_or_create_move_vm();
    if modules.len() > 0 {
        match new_budget(gas_limit, gas_price) {
            Err(e) => {
                return Err(DispatchError::Pallet(e));
            },
            Ok(_b) => {},
        }
    }
    let n = vm_results.len();
    let mut results: Vec<VmResult> = Vec::new();
    let mut attempts: Vec<(ModuleTx, GasBudget)> = Vec::new();
    let mut gas_used: u64 = 0;
    let mut failed: bool = false;
    let mut i: usize = 0;
    proof {
        assert(results@ =~= vm_results@.take(0));
        assert(events@ =~= old(events)@ + Seq::new(0nat, |x: int| Event::StdModulePublished));
    }
    while i < n && !failed
        invariant
            0 <= i <= n,
            results@ == vm_results@.take(i as int),
            gas_used == total_gas(vm_results@.take(i as int)),
            gas_used <= gas_limit,
            attempts@.len() == i,
            forall|j: int|
                0 <= j < i ==> (#[trigger] attempts@[j]).0.code@ == modules@[j]@
                    && attempts@[j].0.owner@ == core_address() && attempts@[j].1.limit == gas_limit
                    - total_gas(vm_results@.take(j)) && attempts@[j].1.price == gas_price,
            !failed ==> forall|j: int| 0 <= j < i ==> vm_ok(#[trigger] vm_results@[j]),
            failed ==> i >= 1 && !vm_ok(vm_results@[i - 1]) && (forall|j: int|
                0 <= j < i - 1 ==> vm_ok(#[trigger] vm_results@[j])),
            !failed ==> events@ == old(events)@ + Seq::new(
                i as nat,
                |x: int| Event::StdModulePublished,
            ),
            failed ==> events@ == old(events)@ + Seq::new(
                (i - 1) as nat,
                |x: int| Event::StdModulePublished,
            ),
            final(lifecycle).wf(),
            get_or_create_step(*old(lifecycle), *final(lifecycle)),
        decreases n - i,
    {
        let mlen = modules[i].len();
        let code = crate::tx::copy_range(&modules[i], 0, mlen);
        proof {
            assert(code@ =~= modules@[i as int]@);
            lemma_total_gas_nonneg(vm_results@.take(i as int));
        }
        let (tx, budget) = match prepare_std_module(code, gas_limit - gas_used, gas_price) {
            Err(e) => {
                return Err(DispatchError::Pallet(e));
            },
            Ok(x) => x,
        };
        attempts.push((tx, budget));
        let res = vm_results[i];
        proof {
            lemma_total_gas_take_succ(vm_results@, i as int);
        }
        gas_used = gas_used + res.gas_used;
        results.push(res);
        proof {
            assert(results@ =~= vm_results@.take(i + 1));
        }
        if is_ok(&res) {
            events.deposit_event(Event::StdModulePublished);
            proof {
                assert(events@ =~= old(events)@ + Seq::new(
                    (i + 1) as nat,
                    |x: int| Event::StdModulePublished,
                ));
            }
        } else {
            failed = true;
        }
        i = i + 1;
    }
    proof {
        if failed {
            lemma_first_fail_char(vm_results@, i - 1);
            assert(!vm_ok(results@[i - 1]));
            assert(!all_ok(results@));
            assert(i == n);
        } else {
            lemma_first_fail_char(vm_results@, n as int);
            assert(all_ok(results@));
        }
        assert(vm_results@.take(n as int) =~= vm_results@);
    }
    let outcome = from_vm_results(&results);
    Ok((outcome, attempts))
}

} // verus!
