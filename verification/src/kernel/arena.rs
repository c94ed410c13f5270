//! The stack arena: one contiguous run of 32-bit words at a fixed address,
//! from which every task stack is carved.

use vstd::prelude::*;

verus! {

/// What an arena is: the address of its first word and the words it holds.
pub struct ArenaView {
    pub base: int,
    pub words: Seq<u32>,
}

impl ArenaView {
    /// The arena starts on a word boundary and ends inside the 32-bit address space.
    pub open spec fn wf(self) -> bool {
        &&& 0 <= self.base
        &&& self.base % 4 == 0
        &&& self.end() <= u32::MAX
    }

    /// The address just above the last word.
    pub open spec fn end(self) -> int {
        self.base + 4 * self.words.len()
    }

    /// `count` words starting at the word-aligned address `addr` lie inside the arena.
    pub open spec fn holds(self, addr: int, count: int) -> bool {
        &&& self.base <= addr
        &&& addr % 4 == 0
        &&& 0 <= count
        &&& addr + 4 * count <= self.end()
    }

    /// Position in `words` of the word at `addr`.
    pub open spec fn index_of(self, addr: int) -> int {
        (addr - self.base) / 4
    }

    /// The word at `addr`.
    pub open spec fn load(self, addr: int) -> u32 {
        self.words[self.index_of(addr)]
    }

    /// The `count` words starting at `addr`, lowest address first.
    pub open spec fn load_words(self, addr: int, count: int) -> Seq<u32> {
        self.words.subrange(self.index_of(addr), self.index_of(addr) + count)
    }

    /// The arena after `value` is written at `addr`.
    pub open spec fn store(self, addr: int, value: u32) -> ArenaView {
        ArenaView { base: self.base, words: self.words.update(self.index_of(addr), value) }
    }

    /// The arena after `values` are written at `addr`, lowest address first.
    pub open spec fn store_words(self, addr: int, values: Seq<u32>) -> ArenaView {
        let first = self.index_of(addr);
        ArenaView {
            base: self.base,
            words: Seq::new(
                self.words.len(),
                |i: int|
                    if first <= i < first + values.len() {
                        values[i - first]
                    } else {
                        self.words[i]
                    },
            ),
        }
    }
}

/// Writing words and reading them back gives the words written, and every
/// word outside the written range keeps its value.
pub proof fn lemma_store_then_load(arena: ArenaView, addr: int, values: Seq<u32>, other: int)
    requires
        arena.holds(addr, values.len() as int),
    ensures
        arena.store_words(addr, values).load_words(addr, values.len() as int) == values,
        arena.store_words(addr, values).holds(other, 1) == arena.holds(other, 1),
        arena.holds(other, 1) && (other + 4 <= addr || addr + 4 * values.len() <= other)
            ==> arena.store_words(addr, values).load(other) == arena.load(other),
{
    let after = arena.store_words(addr, values);
    assert(after.load_words(addr, values.len() as int) =~= values);
}

/// The stack arena.
pub struct StackArena {
    base: u32,
    words: Vec<u32>,
}

impl View for StackArena {
    type V = ArenaView;

    closed spec fn view(&self) -> ArenaView {
        ArenaView { base: self.base as int, words: self.words@ }
    }
}

impl StackArena {
    /// An arena made of `words`, whose first word has the address `base`.
    pub fn new(base: u32, words: Vec<u32>) -> (arena: StackArena)
        ensures
            arena@ == (ArenaView { base: base as int, words: words@ }),
    {
        StackArena { base, words }
    }

    /// Address of the first word.
    pub fn base(&self) -> (base: u32)
        ensures
            base == self@.base,
    {
        self.base
    }

    /// Number of words in the arena.
    pub fn len(&self) -> (len: usize)
        ensures
            len == self@.words.len(),
    {
        self.words.len()
    }

    /// Whether `count` words starting at `addr` lie inside the arena.
    pub fn holds(&self, addr: u32, count: u32) -> (inside: bool)
        requires
            self@.wf(),
        ensures
            inside == self@.holds(addr as int, count as int),
    {
        let end: u64 = self.base as u64 + 4 * (self.words.len() as u64);
        self.base <= addr && addr % 4 == 0 && addr as u64 + 4 * (count as u64) <= end
    }

    /// Reads the word at `addr`.
    pub fn load(&self, addr: u32) -> (value: u32)
        requires
            self@.wf(),
            self@.holds(addr as int, 1),
        ensures
            value == self@.load(addr as int),
    {
        self.words[((addr - self.base) / 4) as usize]
    }

    /// Writes `value` at `addr`.
    pub fn store(&mut self, addr: u32, value: u32)
        requires
            old(self)@.wf(),
            old(self)@.holds(addr as int, 1),
        ensures
            final(self)@ == old(self)@.store(addr as int, value),
    {
        let index: usize = ((addr - self.base) / 4) as usize;
        self.words[index] = value;
    }
}

} // verus!
