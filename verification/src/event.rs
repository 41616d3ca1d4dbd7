//! The event bridge: chain events, and the forwarding of VM-emitted events
//! into the chain's event log, preserving origination order and multiplicity.

use vstd::prelude::*;
use crate::addr::AccountAddress;

verus! {

/// A chain event this pallet deposits.
#[derive(Clone, Debug, PartialEq, Eq)]
pub enum Event {
    /// A user module was published by the account with this identifier.
    ModulePublished { publisher: Vec<u8> },
    /// One privileged standard module was published.
    StdModulePublished,
    /// An event the VM emitted during execution: the emitting address, the
    /// encoded type tag, the payload, and the calling address when one is
    /// known.
    VmEvent { addr: Vec<u8>, ty_tag: Vec<u8>, message: Vec<u8>, caller: Option<Vec<u8>> },
}

/// What the VM hands the event bridge when its execution emits an event.
pub struct MoveEventArguments {
    pub addr: AccountAddress,
    pub ty_tag: Vec<u8>,
    pub message: Vec<u8>,
    pub caller: Option<AccountAddress>,
}

/// The chain event a VM event is forwarded as.
pub open spec fn vm_event_of(args: MoveEventArguments) -> Event {
    Event::VmEvent {
        addr: args.addr.bytes,
        ty_tag: args.ty_tag,
        message: args.message,
        caller: match args.caller {
            Some(a) => Some(a.bytes),
            None => None,
        },
    }
}

/// The per-block chain event log, append-only and in execution order.
pub struct EventLog {
    pub events: Vec<Event>,
}

impl View for EventLog {
    type V = Seq<Event>;

    open spec fn view(&self) -> Seq<Event> {
        self.events@
    }
}

impl EventLog {
    /// An empty log.
    pub fn new() -> (r: EventLog)
        ensures
            r@ == Seq::<Event>::empty(),
    {
        let log = EventLog { events: Vec::new() };
        proof {
            assert(log@ =~= Seq::<Event>::empty());
        }
        log
    }

    /// Appends one event; nothing already deposited is reordered or dropped.
    pub fn deposit_event(&mut self, e: Event)
        ensures
            final(self)@ == old(self)@.push(e),
    {
        self.events.push(e);
    }
}

/// Forwards one VM-emitted event as a chain event, synchronously and in
/// order: one VM event produces exactly one chain event, with no buffering
/// and no deduplication.
pub fn deposit_move_event(log: &mut EventLog, args: MoveEventArguments)
    ensures
        final(log)@ == old(log)@.push(vm_event_of(args)),
{
    let MoveEventArguments { addr, ty_tag, message, caller } = args;
    let caller_bytes: Option<Vec<u8>> = match caller {
        Some(a) => Some(a.bytes),
        None => None,
    };
    log.deposit_event(Event::VmEvent { addr: addr.bytes, ty_tag, message, caller: caller_bytes });
}

} // verus!
