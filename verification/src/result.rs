//! The pallet error taxonomy and the translation of VM execution outcomes
//! into dispatch outcomes that conserve gas accounting.

use vstd::prelude::*;

verus! {

/// Errors surfaced by the pallet to the dispatcher.
#[derive(Clone, Copy, Debug, PartialEq, Eq, Structural)]
pub enum Error {
    /// The transaction envelope could not be decoded.
    TransactionValidationError,
    /// The declared signer count differs from the number of resolved signers.
    TransactionSignersNumError,
    /// A block height or timestamp is not representable in the VM's numeric domain.
    NumConversionError,
    /// A gas limit or gas price exceeds the maximum representable gas amount.
    InvalidGasAmountMaxValue,
    /// The VM rejected its construction-time wiring.
    InvalidVMConfig,
    /// The VM rejected the script or module after the envelope was decoded.
    ScriptValidationError,
}

/// A dispatch-level failure: either the origin was not authorized at all, or
/// the pallet reported one of its own errors.
#[derive(Clone, Copy, Debug, PartialEq, Eq, Structural)]
pub enum DispatchError {
    BadOrigin,
    Pallet(Error),
}

/// The status the VM reports for one script execution or module publication.
/// Gas exhaustion is reported as an abort, not as a separate kind of outcome.
#[derive(Clone, Copy, Debug, PartialEq, Eq, Structural)]
pub enum VmStatus {
    Executed,
    Abort(u64),
}

/// What the VM reports back for one invocation: its status and the gas it
/// consumed. Gas is reported on success and on abort alike, because gas
/// already consumed must still be billed.
#[derive(Clone, Copy, Debug, PartialEq, Eq, Structural)]
pub struct VmResult {
    pub status: VmStatus,
    pub gas_used: u64,
}

/// Whether a VM result is a success.
pub open spec fn vm_ok(res: VmResult) -> bool {
    res.status is Executed
}

/// Whether every result in a batch is a success.
pub open spec fn all_ok(rs: Seq<VmResult>) -> bool {
    forall|i: int| 0 <= i < rs.len() ==> vm_ok(#[trigger] rs[i])
}

/// Total gas consumed across a batch of VM results.
pub open spec fn total_gas(rs: Seq<VmResult>) -> int
    decreases rs.len(),
{
    if rs.len() == 0 {
        0
    } else {
        total_gas(rs.drop_last()) + rs.last().gas_used
    }
}

/// Index of the first failing result, or the length if every result succeeded.
pub open spec fn first_fail(rs: Seq<VmResult>) -> int
    decreases rs.len(),
{
    if rs.len() == 0 {
        0
    } else if !vm_ok(rs[0]) {
        0
    } else {
        1 + first_fail(rs.drop_first())
    }
}

pub proof fn lemma_total_gas_take_succ(rs: Seq<VmResult>, i: int)
    requires
        0 <= i < rs.len(),
    ensures
        total_gas(rs.take(i + 1)) == total_gas(rs.take(i)) + rs[i].gas_used,
{
    let t = rs.take(i + 1);
    assert(t.drop_last() =~= rs.take(i));
    assert(t.last() == rs[i]);
}

pub proof fn lemma_total_gas_nonneg(rs: Seq<VmResult>)
    ensures
        total_gas(rs) >= 0,
    decreases rs.len(),
{
    if rs.len() > 0 {
        lemma_total_gas_nonneg(rs.drop_last());
    }
}

/// A batch's gas total never shrinks as more results are attempted.
pub proof fn lemma_total_gas_take_monotonic(rs: Seq<VmResult>, i: int, j: int)
    requires
        0 <= i <= j <= rs.len(),
    ensures
        total_gas(rs.take(i)) <= total_gas(rs.take(j)),
    decreases j - i,
{
    if i < j {
        lemma_total_gas_take_succ(rs, j - 1);
        lemma_total_gas_nonneg(rs.take(j - 1));
        lemma_total_gas_take_monotonic(rs, i, j - 1);
    }
}

/// If the first `k` results succeed and the `k`-th (when present) fails, then
/// `k` is the index of the first failure.
pub proof fn lemma_first_fail_char(rs: Seq<VmResult>, k: int)
    requires
        0 <= k <= rs.len(),
        forall|j: int| 0 <= j < k ==> vm_ok(#[trigger] rs[j]),
        k < rs.len() ==> !vm_ok(rs[k]),
    ensures
        first_fail(rs) == k,
    decreases rs.len(),
{
    if rs.len() == 0 {
    } else if k == 0 {
    } else {
        let rest = rs.drop_first();
        assert(forall|j: int| 0 <= j < k - 1 ==> #[trigger] rest[j] == rs[j + 1]);
        lemma_first_fail_char(rest, k - 1);
    }
}

/// The outcome of one dispatched operation: whether it succeeded, and the gas
/// billed for it. Validation failures bill zero gas; VM outcomes bill exactly
/// the gas the VM reported, on success and on abort alike.
#[derive(Clone, Copy, Debug, PartialEq, Eq)]
pub struct DispatchOutcome {
    pub result: Result<(), Error>,
    pub gas_used: u64,
}

/// Whether a VM result is a success.
pub fn is_ok(res: &VmResult) -> (r: bool)
    ensures
        r == vm_ok(*res),
{
    matches!(res.status, VmStatus::Executed)
}

/// Translates one VM result into a dispatch outcome. A VM abort surfaces as a
/// script validation failure; the gas the VM consumed is billed either way.
pub fn from_vm_result(res: &VmResult) -> (r: DispatchOutcome)
    ensures
        r.gas_used == res.gas_used,
        vm_ok(*res) ==> r.result is Ok,
        !vm_ok(*res) ==> r.result == Err::<(), Error>(Error::ScriptValidationError),
{
    if is_ok(res) {
        DispatchOutcome { result: Ok(()), gas_used: res.gas_used }
    } else {
        DispatchOutcome { result: Err(Error::ScriptValidationError), gas_used: res.gas_used }
    }
}

/// Translates a validation error detected before the VM was invoked. No gas
/// was spent, so none is billed.
pub fn from_validation_error(e: Error) -> (r: DispatchOutcome)
    ensures
        r.result == Err::<(), Error>(e),
        r.gas_used == 0,
{
    DispatchOutcome { result: Err(e), gas_used: 0 }
}

/// Aggregates a batch of VM results into one dispatch outcome: the gas total
/// across every attempted result, and a failure as soon as any result failed.
pub fn from_vm_results(results: &Vec<VmResult>) -> (r: DispatchOutcome)
    requires
        total_gas(results@) <= u64::MAX,
    ensures
        r.gas_used == total_gas(results@),
        all_ok(results@) ==> r.result is Ok,
        !all_ok(results@) ==> r.result == Err::<(), Error>(Error::ScriptValidationError),
{
    let mut gas: u64 = 0;
    let mut ok: bool = true;
    let mut i: usize = 0;
    while i < results.len()
        invariant
            0 <= i <= results@.len(),
            total_gas(results@) <= u64::MAX,
            gas == total_gas(results@.take(i as int)),
            ok == all_ok(results@.take(i as int)),
        decreases results@.len() - i,
    {
        proof {
            lemma_total_gas_take_succ(results@, i as int);
            lemma_total_gas_take_monotonic(results@, i + 1, results@.len() as int);
            assert(results@.take(results@.len() as int) =~= results@);
        }
        let res = results[i];
        gas = gas + res.gas_used;
        if !is_ok(&res) {
            ok = false;
        }
        proof {
            let t = results@.take(i + 1);
            assert(forall|j: int| 0 <= j < i ==> #[trigger] t[j] == results@.take(i as int)[j]);
            assert(t[i as int] == results@[i as int]);
        }
        i = i + 1;
    }
    proof {
        assert(results@.take(results@.len() as int) =~= results@);
    }
    if ok {
        DispatchOutcome { result: Ok(()), gas_used: gas }
    } else {
        DispatchOutcome { result: Err(Error::ScriptValidationError), gas_used: gas }
    }
}

} // verus!
