use vstd::prelude::*;

verus! {

/// Number of addressable bytes.
pub const MEMORY_SIZE: usize = 4096;

/// `mem` with the bytes of `data` written from `start` on.
pub open spec fn spliced(mem: Seq<u8>, start: int, data: Seq<u8>) -> Seq<u8> {
    Seq::new(
        mem.len(),
        |i: int|
            if start <= i < start + data.len() {
                data[i - start]
            } else {
                mem[i]
            },
    )
}

/// The big-endian 16-bit word stored at `address` and `address + 1`.
pub open spec fn word_at(mem: Seq<u8>, address: int) -> int {
    mem[address] as int * 0x100 + mem[address + 1] as int
}

/// A flat, bounds-checked store of 4096 bytes.
pub struct Memory {
    memory: [u8; 4096],
}

impl View for Memory {
    type V = Seq<u8>;

    closed spec fn view(&self) -> Seq<u8> {
        self.memory@
    }
}

impl Memory {
    /// A memory of 4096 zero bytes.
    pub fn new() -> (r: Self)
        ensures
            r@.len() == MEMORY_SIZE,
            forall|i: int| 0 <= i < MEMORY_SIZE ==> r@[i] == 0,
    {
        let memory = [0u8; 4096];
        Self { memory }
    }

    /// Copies `data` into memory from `start_address` on.
    pub fn load(&mut self, start_address: usize, data: &[u8])
        requires
            start_address + data@.len() <= MEMORY_SIZE,
        ensures
            final(self)@ == spliced(old(self)@, start_address as int, data@),
    {
        let len = data.len();
        let mut i: usize = 0;
        while i < len
            invariant
                start_address + len <= MEMORY_SIZE,
                len == data@.len(),
                i <= len,
                self@.len() == MEMORY_SIZE,
                forall|k: int|
                    0 <= k < MEMORY_SIZE ==> self@[k] == if start_address <= k < start_address + i {
                        data@[k - start_address]
                    } else {
                        old(self)@[k]
                    },
            decreases len - i,
        {
            self.memory[start_address + i] = data[i];
            i += 1;
        }
        assert(self@ =~= spliced(old(self)@, start_address as int, data@));
    }

    /// Fills `output` with the bytes that start at `address`.
    pub fn read_u8_array(&self, address: usize, output: &mut [u8])
        requires
            address + old(output)@.len() <= MEMORY_SIZE,
        ensures
            final(output)@ == self@.subrange(address as int, address + old(output)@.len()),
    {
        let len = output.len();
        let mut i: usize = 0;
        while i < len
            invariant
                address + len <= MEMORY_SIZE,
                len == output@.len(),
                len == old(output)@.len(),
                i <= len,
                self@.len() == MEMORY_SIZE,
                forall|k: int| 0 <= k < i ==> output@[k] == self@[address + k],
            decreases len - i,
        {
            output[i] = self.memory[address + i];
            i += 1;
        }
        assert(output@ =~= self@.subrange(address as int, address + len));
    }

    pub fn read_u8(&self, address: usize) -> (r: u8)
        requires
            address < MEMORY_SIZE,
        ensures
            r == self@[address as int],
    {
        let mut bytes = [0u8; 1];
        self.read_u8_array(address, &mut bytes);
        bytes[0]
    }

    /// Reads the big-endian word at `address`.
    pub fn read_u16(&self, address: usize) -> (r: u16)
        requires
            address + 1 < MEMORY_SIZE,
        ensures
            r as int == word_at(self@, address as int),
    {
        let mut bytes = [0u8; 2];
        self.read_u8_array(address, &mut bytes);
        let hi = bytes[0];
        let lo = bytes[1];
        assert(((hi as u16) << 8u16) | (lo as u16) == (hi as u16) * 256 + (lo as u16)) by (bit_vector);
        ((hi as u16) << 8) | (lo as u16)
    }

    pub fn write_u8(&mut self, address: usize, value: u8)
        requires
            address < MEMORY_SIZE,
        ensures
            final(self)@ == old(self)@.update(address as int, value),
    {
        self.memory[address] = value;
    }
}

} // verus!
