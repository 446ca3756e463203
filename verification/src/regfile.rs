//! A flat register space: registers that keep what is stored in them, with no device behind them.
//! The drivers run on it in host builds.

use std::collections::HashMap;
use vstd::prelude::*;

use crate::reg::{self, Access, Bus};

verus! {

/// A flat register space. Every register reads zero until it is stored to.
pub struct RegisterFile {
    words: HashMap<u32, u32>,
    halves: HashMap<u32, u16>,
    log: Ghost<Seq<Access>>,
}

impl RegisterFile {
    #[verifier::type_invariant]
    spec fn keeps_the_log(self) -> bool {
        &&& forall|addr: u32|
            #[trigger] reg::recall(self.log@, addr) == (if self.words@.contains_key(addr) {
                self.words@[addr]
            } else {
                0
            })
        &&& forall|addr: u32|
            #[trigger] reg::recall_half(self.log@, addr) == (if self.halves@.contains_key(addr) {
                self.halves@[addr]
            } else {
                0
            })
    }

    /// An all-zero register space.
    pub fn new() -> (r: RegisterFile)
        ensures
            r.log() == Seq::<Access>::empty(),
            r.flat(),
    {
        broadcast use vstd::std_specs::hash::group_hash_axioms;

        RegisterFile { words: HashMap::new(), halves: HashMap::new(), log: Ghost(Seq::empty()) }
    }

    /// What the 32-bit register at `addr` holds.
    pub fn word(&self, addr: u32) -> (value: u32)
        ensures
            value == reg::recall(self.log(), addr),
    {
        broadcast use vstd::std_specs::hash::group_hash_axioms;

        proof {
            use_type_invariant(self);
        }
        match self.words.get(&addr) {
            Some(v) => *v,
            None => 0,
        }
    }

    /// What the 16-bit cell at `addr` holds.
    pub fn half(&self, addr: u32) -> (value: u16)
        ensures
            value == reg::recall_half(self.log(), addr),
    {
        broadcast use vstd::std_specs::hash::group_hash_axioms;

        proof {
            use_type_invariant(self);
        }
        match self.halves.get(&addr) {
            Some(v) => *v,
            None => 0,
        }
    }
}

proof fn recall_push(log: Seq<Access>, x: Access)
    ensures
        forall|addr: u32|
            #[trigger] reg::recall(log.push(x), addr) == (match x {
                Access::Store { addr: a, value } if a == addr => value,
                _ => reg::recall(log, addr),
            }),
        forall|addr: u32|
            #[trigger] reg::recall_half(log.push(x), addr) == (match x {
                Access::StoreHalf { addr: a, value } if a == addr => value,
                _ => reg::recall_half(log, addr),
            }),
{
    reveal_with_fuel(reg::recall, 2);
    reveal_with_fuel(reg::recall_half, 2);
    assert(log.push(x).drop_last() =~= log);
}

impl Bus for RegisterFile {
    closed spec fn log(&self) -> Seq<Access> {
        self.log@
    }

    open spec fn flat(&self) -> bool {
        true
    }

    fn load(&mut self, addr: u32) -> (value: u32) {
        let value: u32 = self.word(addr);
        proof {
            use_type_invariant(&*self);
            recall_push(self.log@, Access::Load { addr, value });
        }
        self.log = Ghost(self.log@.push(Access::Load { addr, value }));
        value
    }

    fn store(&mut self, addr: u32, value: u32) {
        broadcast use vstd::std_specs::hash::group_hash_axioms;

        proof {
            use_type_invariant(&*self);
            recall_push(self.log@, Access::Store { addr, value });
        }
        let mut whole = RegisterFile::new();
        std::mem::swap(self, &mut whole);
        let RegisterFile { mut words, halves, log } = whole;
        words.insert(addr, value);
        *self = RegisterFile {
            words,
            halves,
            log: Ghost(log@.push(Access::Store { addr, value })),
        };
    }

    fn load_half(&mut self, addr: u32) -> (value: u16) {
        let value: u16 = self.half(addr);
        proof {
            use_type_invariant(&*self);
            recall_push(self.log@, Access::LoadHalf { addr, value });
        }
        self.log = Ghost(self.log@.push(Access::LoadHalf { addr, value }));
        value
    }

    fn store_half(&mut self, addr: u32, value: u16) {
        broadcast use vstd::std_specs::hash::group_hash_axioms;

        proof {
            use_type_invariant(&*self);
            recall_push(self.log@, Access::StoreHalf { addr, value });
        }
        let mut whole = RegisterFile::new();
        std::mem::swap(self, &mut whole);
        let RegisterFile { words, mut halves, log } = whole;
        halves.insert(addr, value);
        *self = RegisterFile {
            words,
            halves,
            log: Ghost(log@.push(Access::StoreHalf { addr, value })),
        };
    }

    fn fence(&mut self) {
        proof {
            use_type_invariant(&*self);
            recall_push(self.log@, Access::Fence);
        }
        self.log = Ghost(self.log@.push(Access::Fence));
    }

    fn probe(&mut self, addr: u32) -> (value: Option<u32>) {
        let value: Option<u32> = Some(self.word(addr));
        proof {
            use_type_invariant(&*self);
            recall_push(self.log@, Access::Probe { addr, value });
        }
        self.log = Ghost(self.log@.push(Access::Probe { addr, value }));
        value
    }

    fn is_flat(&self) -> (r: bool) {
        true
    }
}

} // verus!
