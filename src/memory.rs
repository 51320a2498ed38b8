use vstd::prelude::*;

verus! {

broadcast use vstd::array::group_array_axioms;

/// Number of addressable words.
pub const MEM_WORDS: usize = 0x10000;

/// Keyboard status register: reading it always reports that a key is ready.
pub const KBSR: u16 = 0xFE00;

/// Keyboard data register: reading it yields the pending key.
pub const KBDR: u16 = 0xFE02;

/// The value read from the status register: top bit set, "data ready".
pub const READY: u16 = 0x8000;

/// What a read of `address` yields, given the stored words and the pending key:
/// `None` when the data register is read while no key is pending.
pub open spec fn read_spec(words: Seq<u16>, key: Option<u16>, address: u16) -> Option<u16> {
    if address == KBSR {
        Some(READY)
    } else if address == KBDR {
        key
    } else {
        Some(words[address as int])
    }
}

/// The words after copying `program` into `words` from `start` on.
pub open spec fn loaded(words: Seq<u16>, start: u16, program: Seq<u16>) -> Seq<u16> {
    Seq::new(
        words.len(),
        |i: int|
            if start <= i < start + program.len() {
                program[i - start]
            } else {
                words[i]
            },
    )
}

/// A flat store of 65536 words, with a keyboard latch behind the data register.
#[derive(Clone, Debug)]
pub struct Memory {
    data: [u16; 0x10000],
    key: Option<u16>,
}

impl Memory {
    /// The stored words, indexed by address.
    pub closed spec fn words(&self) -> Seq<u16> {
        Seq::new(MEM_WORDS as nat, |i: int| self.data@[i])
    }

    /// The memory always holds 65536 words.
    pub proof fn lemma_size(&self)
        ensures
            self.words().len() == MEM_WORDS,
    {
    }

    /// The key waiting to be read from the data register, if any.
    pub closed spec fn key(&self) -> Option<u16> {
        self.key
    }

    /// A memory holding zero everywhere, with no key pending.
    pub fn new() -> (r: Memory)
        ensures
            r.words() == Seq::new(MEM_WORDS as nat, |i: int| 0u16),
            r.key() is None,
    {
        let r = Memory { data: [0u16; 0x10000], key: None };
        proof {
            assert(r.words() =~= Seq::new(MEM_WORDS as nat, |i: int| 0u16));
        }
        r
    }

    /// Reads one word. The status register always reports "ready"; the data register
    /// yields the pending key, or `None` when there is none yet; every other address
    /// yields the stored word.
    pub fn read(&self, address: u16) -> (r: Option<u16>)
        ensures
            r == read_spec(self.words(), self.key(), address),
    {
        if address == KBSR {
            Some(READY)
        } else if address == KBDR {
            self.key
        } else {
            Some(self.data[address as usize])
        }
    }

    /// The word stored at `address`, without device interception.
    pub fn word(&self, address: u16) -> (r: u16)
        ensures
            r == self.words()[address as int],
    {
        self.data[address as usize]
    }

    /// Stores `value` at `address`; the device addresses are plain storage on write.
    pub fn write(&mut self, address: u16, value: u16)
        ensures
            final(self).words() == old(self).words().update(address as int, value),
            final(self).key() == old(self).key(),
    {
        self.data[address as usize] = value;
        proof {
            assert(self.words() =~= old(self).words().update(address as int, value));
        }
    }

    /// Copies `program` into memory starting at `start`.
    pub fn load(&mut self, start: u16, program: Vec<u16>)
        requires
            start + program@.len() <= MEM_WORDS,
        ensures
            final(self).words() == loaded(old(self).words(), start, program@),
            final(self).key() == old(self).key(),
    {
        let mut i: usize = 0;
        while i < program.len()
            invariant
                start + program@.len() <= MEM_WORDS,
                self.key == old(self).key,
                i <= program@.len(),
                forall|j: int|
                    0 <= j < MEM_WORDS ==> #[trigger] self.data@[j] == if start <= j < start + i {
                        program@[j - start]
                    } else {
                        old(self).data@[j]
                    },
            decreases program@.len() - i,
        {
            self.data[start as usize + i] = program[i];
            i += 1;
        }
        proof {
            assert(self.words() =~= loaded(old(self).words(), start, program@));
        }
    }

    /// Makes `key` the pending key of the data register.
    pub fn press(&mut self, key: u16)
        ensures
            final(self).words() == old(self).words(),
            final(self).key() == Some(key),
    {
        self.key = Some(key);
    }

    /// Drops the pending key, once an instruction has read it.
    pub fn consume_key(&mut self)
        ensures
            final(self).words() == old(self).words(),
            final(self).key() is None,
    {
        self.key = None;
    }
}

impl Default for Memory {
    fn default() -> (r: Memory)
        ensures
            r.words() == Seq::new(MEM_WORDS as nat, |i: int| 0u16),
            r.key() is None,
    {
        Memory::new()
    }
}

/// Reading back an ordinary address right after writing it yields the written value.
pub proof fn lemma_write_read(m: Memory, after: Memory, address: u16, v: u16)
    requires
        address != KBSR,
        address != KBDR,
        after.words() == m.words().update(address as int, v),
        after.key() == m.key(),
    ensures
        read_spec(after.words(), after.key(), address) == Some(v),
{
}

} // verus!
