//! A node of the network: its content store, pending interests, routes,
//! chain and contract machine, and how it answers the packets it gets.
use vstd::prelude::*;
use crate::blockchain::Blockchain;
use crate::content_store::{added, holds, position_in, touched, ContentStore};
use crate::cscl::parser::{compile_source, compile_text, CSCLCompiler};
use crate::cscl::token::{opcodes_view, Opcode};
use crate::fib::ForwardingInformationBase;
use crate::network::{Packet, PacketType};
use crate::pending_interest_table::{names_of, with_interface, PendingInterestTable};
use crate::vm::CoopVM;

verus! {

/// The interface interests without a better one are recorded on.
pub open spec fn default_interface() -> Seq<char> {
    "default_interface"@
}

/// The refusal of an interest in `name` whose content is not at hand.
pub open spec fn not_found_text(name: Seq<char>) -> Seq<char> {
    "Content '"@ + name + "' not found"@
}

/// What answering an interest in `name` did to a node, from `before` to
/// `after`, with answer `r`: content at hand is served and becomes the most
/// recently used; otherwise the interest is recorded as pending on the
/// default interface and the content is reported missing.
pub open spec fn interest_answered(before: IcnNode, after: IcnNode, name: Seq<char>, r: Result<(), String>) -> bool {
    let s = before.content_store.items();
    &&& after.fib == before.fib
    &&& after.blockchain == before.blockchain
    &&& holds(s, name) ==> r is Ok && after.content_store.items() == touched(s, name) && after.pit@
        == before.pit@
    &&& !holds(s, name) ==> (r matches Err(e) && e@ == not_found_text(name)) && after.content_store.items()
        == s && after.pit@.dom() == before.pit@.dom().insert(name) && (forall|k: Seq<char>|
        k != name && #[trigger] before.pit@.contains_key(k) ==> after.pit@[k] == before.pit@[k]) && (
    before.pit@.contains_key(name) ==> names_of(after.pit@[name].interfaces@) == with_interface(
        names_of(before.pit@[name].interfaces@),
        default_interface(),
    )) && (!before.pit@.contains_key(name) ==> names_of(after.pit@[name].interfaces@) == seq![
        default_interface(),
    ])
}

/// What storing the content of a data packet did to a node: the content is
/// stored under its name at some time `now` of the store's clock; nothing
/// else changes.
pub open spec fn data_stored(before: IcnNode, after: IcnNode, name: Seq<char>, content: Seq<u8>) -> bool {
    &&& after.pit@ == before.pit@
    &&& after.fib == before.fib
    &&& after.blockchain == before.blockchain
    &&& exists|now: u64| after.content_store.items() == #[trigger] added(before.content_store.items(), name, content, now)
}

/// A node of the network.
pub struct IcnNode {
    pub content_store: ContentStore,
    pub pit: PendingInterestTable,
    pub fib: ForwardingInformationBase,
    pub blockchain: Blockchain,
    pub coop_vm: CoopVM,
}

impl IcnNode {
    /// Every part is well formed.
    pub open spec fn wf(&self) -> bool {
        &&& self.content_store.wf()
        &&& self.pit.wf()
        &&& self.fib.wf()
        &&& self.blockchain.wf()
    }

    /// A node with empty tables, a chain holding its genesis block and a
    /// machine with no program.
    pub fn new() -> (n: Self)
        ensures
            n.wf(),
            n.content_store.items().len() == 0,
            n.pit@ == Map::<Seq<char>, crate::pending_interest_table::PitEntry>::empty(),
            n.blockchain.chain@.len() == 1,
            n.coop_vm.program_seq().len() == 0,
    {
        IcnNode {
            content_store: ContentStore::new(),
            pit: PendingInterestTable::new(),
            fib: ForwardingInformationBase::new(),
            blockchain: Blockchain::new(),
            coop_vm: CoopVM::new(Vec::new()),
        }
    }

    /// Answers an interest from the content store when the content is
    /// there; otherwise records the interest as pending on the default
    /// interface and reports the content missing.
    pub fn process_interest(&mut self, packet: Packet) -> (r: Result<(), String>)
        requires
            old(self).wf(),
        ensures
            final(self).wf(),
            interest_answered(*old(self), *final(self), packet.name@, r),
    {
        match self.content_store.get(packet.name.as_str()) {
            Some(_data) => Ok(()),
            None => {
                let name = packet.name;
                let mut e = "Content '".to_owned();
                e.append(name.as_str());
                e.append("' not found");
                self.pit.add_interest(name, "default_interface");
                Err(e)
            },
        }
    }

    /// Stores the content of a data packet, making it the most recently used.
    pub fn process_data(&mut self, packet: Packet) -> (r: Result<(), String>)
        requires
            old(self).wf(),
        ensures
            final(self).wf(),
            r is Ok,
            data_stored(*old(self), *final(self), packet.name@, packet.content@),
    {
        self.content_store.add(packet.name, packet.content);
        Ok(())
    }

    /// Handles a packet by its kind: interests and data.
    pub fn process_packet(&mut self, packet: Packet) -> (r: Result<(), String>)
        requires
            old(self).wf(),
        ensures
            final(self).wf(),
            packet.packet_type == PacketType::Data ==> r is Ok && data_stored(
                *old(self),
                *final(self),
                packet.name@,
                packet.content@,
            ),
            packet.packet_type == PacketType::Interest ==> interest_answered(
                *old(self),
                *final(self),
                packet.name@,
                r,
            ),
            packet.packet_type == PacketType::Interest ==> (r is Ok <==> holds(
                old(self).content_store.items(),
                packet.name@,
            )),
    {
        match packet.packet_type {
            PacketType::Interest => self.process_interest(packet),
            PacketType::Data => self.process_data(packet),
        }
    }

    /// Compiles contract source code to opcodes; the source must compile.
    pub fn compile_contract(&self, contract: &str) -> (r: Result<Vec<Opcode>, String>)
        requires
            contract@.len() + 8 < usize::MAX,
            compile_text(contract@) is Some,
        ensures
            r matches Ok(ops) && opcodes_view(ops@) == compile_text(contract@).unwrap(),
    {
        match compile_source(contract) {
            Some(ops) => Ok(ops),
            None => Err("Failed to compile contract".to_owned()),
        }
    }

    /// Compiles contract source code, loads it into the machine and runs it
    /// to its end; the source must compile.
    pub fn execute_smart_contract(&mut self, contract: String) -> (r: Result<(), String>)
        requires
            old(self).wf(),
            contract@.len() + 8 < usize::MAX,
            compile_text(contract@) is Some,
        ensures
            final(self).wf(),
            r is Ok,
            opcodes_view(final(self).coop_vm.program_seq()) == compile_text(contract@).unwrap(),
            final(self).coop_vm.counter() == final(self).coop_vm.program_seq().len(),
            final(self).content_store == old(self).content_store,
            final(self).pit == old(self).pit,
            final(self).fib == old(self).fib,
            final(self).blockchain == old(self).blockchain,
    {
        let opcodes = self.compile_contract(contract.as_str())?;
        self.coop_vm.load_program(opcodes);
        self.coop_vm.run()?;
        Ok(())
    }
}

} // verus!
