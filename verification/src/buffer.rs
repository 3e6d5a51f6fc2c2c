//! A buffer of fixed capacity between two sockets.
use vstd::prelude::*;

verus! {

/// What a [`Buffer`] holds.
#[verifier::ext_equal]
pub struct BufferModel {
    /// the bytes that came in and did not leave yet
    pub data: Seq<u8>,
    /// how much room in front of the data is lost until the data is moved to the front
    pub position: nat,
    pub capacity: nat,
}

impl BufferModel {
    /// The room behind the data.
    pub open spec fn space(self) -> int {
        self.capacity - self.position - self.data.len()
    }

    /// The data fits.
    pub open spec fn wf(self) -> bool {
        self.position + self.data.len() <= self.capacity
    }

    /// The buffer with more bytes behind its data. The data moves to the front where little room is
    /// left behind it.
    pub open spec fn filled(self, bytes: Seq<u8>) -> BufferModel {
        let next = BufferModel { data: self.data + bytes, ..self };
        if next.space() < next.data.len() + bytes.len() {
            BufferModel { position: 0, ..next }
        } else {
            next
        }
    }

    /// The buffer without the first `n` bytes of its data, or without all of them where there are
    /// fewer. The data moves to the front where more than half of the room lies in front of it.
    pub open spec fn consumed(self, n: nat) -> BufferModel {
        let n = if n <= self.data.len() {
            n
        } else {
            self.data.len()
        };
        let position = self.position + n;
        BufferModel {
            data: self.data.skip(n as int),
            position: if position > self.capacity / 2 {
                0
            } else {
                position
            },
            capacity: self.capacity,
        }
    }
}

/// A buffer of fixed capacity: bytes come in behind its data and leave in front of it.
#[derive(Debug)]
pub struct Buffer {
    data: Vec<u8>,
    position: usize,
    capacity: usize,
}

impl View for Buffer {
    type V = BufferModel;

    closed spec fn view(&self) -> BufferModel {
        BufferModel {
            data: self.data@,
            position: self.position as nat,
            capacity: self.capacity as nat,
        }
    }
}

impl Buffer {
    #[verifier::type_invariant]
    spec fn fits(self) -> bool {
        self.position + self.data@.len() <= self.capacity
    }

    /// An empty buffer.
    pub fn with_capacity(capacity: usize) -> (r: Buffer)
        ensures
            r@ == (BufferModel { data: Seq::empty(), position: 0, capacity: capacity as nat }),
    {
        let r = Buffer { data: Vec::new(), position: 0, capacity };
        proof {
            assert(r@.data =~= Seq::empty());
        }
        r
    }

    pub fn available_data(&self) -> (r: usize)
        ensures
            r == self@.data.len(),
    {
        self.data.len()
    }

    pub fn available_space(&self) -> (r: usize)
        ensures
            r == self@.space(),
            self@.wf(),
    {
        proof {
            use_type_invariant(self);
        }
        self.capacity - self.position - self.data.len()
    }

    pub fn capacity(&self) -> (r: usize)
        ensures
            r == self@.capacity,
    {
        self.capacity
    }

    /// The bytes that came in and did not leave yet.
    pub fn data(&self) -> (r: &Vec<u8>)
        ensures
            r@ == self@.data,
    {
        &self.data
    }

    /// Takes in bytes behind the data.
    pub fn fill(&mut self, bytes: &Vec<u8>)
        requires
            bytes@.len() <= old(self)@.space(),
        ensures
            final(self)@ == old(self)@.filled(bytes@),
    {
        proof {
            use_type_invariant(&*self);
        }
        let ghost before = self@;
        let capacity = self.capacity;
        let mut position = self.position;
        let mut data: Vec<u8> = Vec::new();
        std::mem::swap(&mut data, &mut self.data);
        let mut more = bytes.clone();
        data.append(&mut more);
        let space: usize = capacity - position - data.len();
        if space < data.len() || space - data.len() < bytes.len() {
            position = 0;
        }
        *self = Buffer { data, position, capacity };
        proof {
            assert(self@ =~= before.filled(bytes@));
        }
    }

    /// Lets the first `n` bytes of the data leave.
    pub fn consume(&mut self, n: usize)
        ensures
            final(self)@ == old(self)@.consumed(n as nat),
    {
        proof {
            use_type_invariant(&*self);
        }
        let ghost before = self@;
        let capacity = self.capacity;
        let mut position = self.position;
        let mut data: Vec<u8> = Vec::new();
        std::mem::swap(&mut data, &mut self.data);
        let count = if n <= data.len() {
            n
        } else {
            data.len()
        };
        let rest = data.split_off(count);
        position = position + count;
        if position > capacity / 2 {
            position = 0;
        }
        *self = Buffer { data: rest, position, capacity };
        proof {
            assert(rest@ =~= before.data.skip(count as int));
            assert(self@ =~= before.consumed(n as nat));
        }
    }
}

/// What came in leaves in the same order: `n` bytes that leave after `bytes` came in are the first
/// ones of the data and `bytes`, and the others stay.
pub proof fn law_first_in_first_out(buffer: BufferModel, bytes: Seq<u8>, n: nat)
    requires
        buffer.wf(),
        bytes.len() <= buffer.space(),
        n <= buffer.data.len() + bytes.len(),
    ensures
        (buffer.data + bytes).take(n as int) + buffer.filled(bytes).consumed(n).data == buffer.data
            + bytes,
        buffer.filled(bytes).wf(),
        buffer.filled(bytes).consumed(n).wf(),
{
    let all = buffer.data + bytes;
    assert(all.take(n as int) + all.skip(n as int) =~= all);
}

/// Taking bytes in and letting all of them out again leaves an empty buffer.
pub proof fn law_consuming_all_empties(buffer: BufferModel, n: nat)
    requires
        buffer.wf(),
        n >= buffer.data.len(),
    ensures
        buffer.consumed(n).data == Seq::<u8>::empty(),
{
    assert(buffer.consumed(n).data =~= Seq::empty());
}

} // verus!
