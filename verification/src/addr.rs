//! Deriving VM account addresses from chain account identifiers.

use vstd::prelude::*;
use crate::result::Error;

verus! {

/// The VM's native address width in bytes.
pub const ADDRESS_LENGTH: usize = 32;

/// A VM account address: a byte array of exactly `ADDRESS_LENGTH` bytes.
#[derive(Clone, Debug, PartialEq, Eq)]
pub struct AccountAddress {
    pub bytes: Vec<u8>,
}

impl View for AccountAddress {
    type V = Seq<u8>;

    open spec fn view(&self) -> Seq<u8> {
        self.bytes@
    }
}

impl AccountAddress {
    pub open spec fn wf(&self) -> bool {
        self@.len() == ADDRESS_LENGTH
    }
}

/// An account identifier right-aligned into the address width, with leading
/// zero padding. Meaningful only when the identifier is no longer than the
/// address width.
pub open spec fn padded_address(id: Seq<u8>) -> Seq<u8> {
    Seq::new((ADDRESS_LENGTH - id.len()) as nat, |i: int| 0u8) + id
}

/// The VM's reserved system address, owner of the privileged standard
/// modules: all zero bytes but for a final one.
pub open spec fn core_address() -> Seq<u8> {
    Seq::new(ADDRESS_LENGTH as nat, |i: int| if i == ADDRESS_LENGTH - 1 { 1u8 } else { 0u8 })
}

/// Derives a VM address from a chain account identifier. An identifier
/// shorter than the address width is right-aligned with leading zero padding;
/// one longer than the width is not representable and is rejected rather than
/// silently truncated.
pub fn account_to_address(account: &Vec<u8>) -> (r: Result<AccountAddress, Error>)
    ensures
        account@.len() <= ADDRESS_LENGTH ==> (r matches Ok(a) && a@ == padded_address(account@)
            && a.wf()),
        account@.len() > ADDRESS_LENGTH ==> r == Err::<AccountAddress, Error>(
            Error::NumConversionError,
        ),
{
    if account.len() > ADDRESS_LENGTH {
        return Err(Error::NumConversionError);
    }
    let pad: usize = ADDRESS_LENGTH - account.len();
    let mut bytes: Vec<u8> = Vec::new();
    let mut i: usize = 0;
    while i < pad
        invariant
            0 <= i <= pad,
            bytes@.len() == i,
            forall|j: int| 0 <= j < i ==> bytes@[j] == 0u8,
        decreases pad - i,
    {
        bytes.push(0u8);
        i = i + 1;
    }
    let mut k: usize = 0;
    while k < account.len()
        invariant
            0 <= k <= account@.len(),
            bytes@.len() == pad + k,
            forall|j: int| 0 <= j < pad ==> bytes@[j] == 0u8,
            forall|j: int| 0 <= j < k ==> bytes@[pad + j] == account@[j],
        decreases account@.len() - k,
    {
        bytes.push(account[k]);
        k = k + 1;
    }
    proof {
        assert(bytes@ =~= padded_address(account@));
    }
    Ok(AccountAddress { bytes })
}

/// Returns the VM's reserved system address.
pub fn core_code_address() -> (r: AccountAddress)
    ensures
        r@ == core_address(),
        r.wf(),
{
    let mut bytes: Vec<u8> = Vec::new();
    let mut i: usize = 0;
    while i < ADDRESS_LENGTH - 1
        invariant
            0 <= i <= ADDRESS_LENGTH - 1,
            bytes@.len() == i,
            forall|j: int| 0 <= j < i ==> bytes@[j] == 0u8,
        decreases ADDRESS_LENGTH - 1 - i,
    {
        bytes.push(0u8);
        i = i + 1;
    }
    bytes.push(1u8);
    proof {
        assert(bytes@ =~= core_address());
    }
    AccountAddress { bytes }
}

} // verus!
