//! The VM lifecycle manager: exactly one VM instance per running process,
//! constructed lazily on first use, bound to the persistent storage adapter,
//! and cleared — but never reconstructed — at the end of every block.

use vstd::prelude::*;
use vstd::pervasive::arbitrary;
use crate::result::Error;
use crate::storage::VmStorage;

verus! {

/// The process-wide VM instance: its binding to the chain's persistent
/// storage, and the transient per-block caches the VM keeps (modelled as the
/// module blobs published during the current block).
pub struct MoveVm {
    pub storage: VmStorage,
    pub publish_cache: Vec<Vec<u8>>,
}

impl MoveVm {
    pub open spec fn wf(&self) -> bool {
        self.storage.wf()
    }

    /// Purges the VM's transient per-block caches. The binding to persistent
    /// storage is untouched: nothing stored is duplicated, dropped or changed.
    pub fn clear(&mut self)
        ensures
            final(self).storage == old(self).storage,
            final(self).publish_cache@.len() == 0,
    {
        self.publish_cache = Vec::new();
    }
}

/// The state of one get-or-create call: the manager is initialized afterward;
/// a manager that already held a VM keeps exactly that VM, and a first call
/// constructs one bound to empty persistent storage and empty caches.
pub open spec fn get_or_create_step(pre: VmLifecycle, post: VmLifecycle) -> bool {
    &&& post.is_initialized()
    &&& (pre.is_initialized() ==> post == pre)
    &&& (!pre.is_initialized() ==> post.vm_spec().storage@ == Map::<Seq<u8>, Seq<u8>>::empty()
        && post.vm_spec().publish_cache@.len() == 0 && post.vm_spec().wf())
}

/// The state one block-finalization call leaves: the manager holds a VM whose
/// transient caches are empty and whose persistent storage is exactly what it
/// was before.
pub open spec fn finalize_step(pre: VmLifecycle, post: VmLifecycle) -> bool {
    &&& post.is_initialized()
    &&& post.vm_spec().publish_cache@.len() == 0
    &&& (pre.is_initialized() ==> post.vm_spec().storage == pre.vm_spec().storage)
    &&& (!pre.is_initialized() ==> post.vm_spec().storage@ == Map::<Seq<u8>, Seq<u8>>::empty())
}

/// The VM lifecycle manager. Its state machine has two states, uninitialized
/// and initialized, and the transition fires at most once per process: every
/// later get-or-create call observes the first call's instance.
pub struct VmLifecycle {
    vm: Option<MoveVm>,
}

impl VmLifecycle {
    pub closed spec fn is_initialized(&self) -> bool {
        self.vm is Some
    }

    /// The VM the manager holds; meaningful only once initialized.
    pub closed spec fn vm_spec(&self) -> MoveVm {
        match self.vm {
            Some(v) => v,
            None => arbitrary(),
        }
    }

    pub open spec fn wf(&self) -> bool {
        self.is_initialized() ==> self.vm_spec().wf()
    }

    /// A manager that has not yet constructed its VM.
    pub fn new() -> (r: VmLifecycle)
        ensures
            !r.is_initialized(),
            r.wf(),
    {
        VmLifecycle { vm: None }
    }

    /// Returns the process-wide VM, constructing it on first use, wired to
    /// the storage adapter and the event bridge. Later calls return the same
    /// instance and never reconstruct state. The result mirrors the fallible
    /// construction interface: a VM that rejected its wiring would surface
    /// `InvalidVMConfig` here, fatally for all subsequent calls; the modelled
    /// constructor always accepts its wiring.
    pub fn try_get_or_create_move_vm(&mut self) -> (r: Result<(), Error>)
        requires
            old(self).wf(),
        ensures
            final(self).wf(),
            get_or_create_step(*old(self), *final(self)),
            r is Ok,
    {
        if self.vm.is_none() {
            self.vm = Some(MoveVm { storage: VmStorage::new(), publish_cache: Vec::new() });
        }
        Ok(())
    }

    /// Borrows the VM of an initialized manager.
    pub fn vm_ref(&self) -> (r: &MoveVm)
        requires
            self.is_initialized(),
        ensures
            *r == self.vm_spec(),
    {
        self.vm.as_ref().unwrap()
    }

    /// Mutably borrows the VM of an initialized manager, for the storage
    /// writes and cache notes the VM makes during execution.
    pub fn vm_mut(&mut self) -> (r: &mut MoveVm)
        requires
            old(self).is_initialized(),
        ensures
            *r == old(self).vm_spec(),
            final(self).is_initialized(),
            final(self).vm_spec() == *final(r),
    {
        self.vm.as_mut().unwrap()
    }

    /// The unconditional end-of-block hook: obtains the VM (constructing it on
    /// a first call) and purges its transient caches, leaving the singleton
    /// binding and the persistent storage untouched.
    pub fn on_finalize(&mut self)
        requires
            old(self).wf(),
        ensures
            final(self).wf(),
            finalize_step(*old(self), *final(self)),
    {
        let _created = self.try_get_or_create_move_vm();
        match &mut self.vm {
            Some(v) => {
                v.clear();
            },
            None => {},
        }
    }
}

/// Law: singleton construction is idempotent. Whatever state a get-or-create
/// call leaves, a second call leaves exactly that state: the same VM identity
/// and the same storage binding, never a reconstruction.
pub proof fn lemma_get_or_create_idempotent(a: VmLifecycle, b: VmLifecycle, c: VmLifecycle)
    requires
        get_or_create_step(a, b),
        get_or_create_step(b, c),
    ensures
        c == b,
{
}

/// Law: finalizing a block twice in a row is observably the same as once —
/// the stored data is identical (nothing duplicated) and the transient caches
/// are empty both times.
pub proof fn lemma_finalize_twice_is_once(a: VmLifecycle, b: VmLifecycle, c: VmLifecycle)
    requires
        finalize_step(a, b),
        finalize_step(b, c),
    ensures
        c.vm_spec().storage == b.vm_spec().storage,
        c.vm_spec().publish_cache@ == b.vm_spec().publish_cache@,
{
    assert(c.vm_spec().publish_cache@ =~= b.vm_spec().publish_cache@);
}

} // verus!
