//! Storage for a first-in first-out buffer: the buffer and its two
//! pointers.
use crate::module::{ElementView, Module, ModuleView};
use crate::text::concat;
use crate::util::{address_bits, address_width};
use vstd::prelude::*;

verus! {

/// Model of the storage of a buffer.
pub struct FIFOView {
    pub name: Seq<char>,
    pub bit: nat,
    pub len: nat,
    pub addr_width: nat,
}

/// The storage of a buffer of `len` entries of `bit` bits each.
#[derive(Debug)]
pub struct FIFO {
    name: String,
    bit: usize,
    len: usize,
    addr_width: usize,
    buf: String,
    rptr: String,
    wptr: String,
}

impl View for FIFO {
    type V = FIFOView;

    closed spec fn view(&self) -> FIFOView {
        FIFOView {
            name: self.name@,
            bit: self.bit as nat,
            len: self.len as nat,
            addr_width: self.addr_width as nat,
        }
    }
}

/// `m` with the storage of `fifo` added: the buffer, the read pointer and
/// the write pointer.
pub open spec fn with_fifo(m: ModuleView, fifo: FIFOView) -> ModuleView {
    ModuleView {
        blocks: m.blocks + seq![
            ElementView::Logic { name: fifo.name + "_buf"@, bit: fifo.bit, len: fifo.len },
            ElementView::Logic { name: fifo.name + "_rptr"@, bit: fifo.addr_width, len: 1 },
            ElementView::Logic { name: fifo.name + "_wptr"@, bit: fifo.addr_width, len: 1 },
        ],
        ..m
    }
}

impl FIFO {
    #[verifier::type_invariant]
    spec fn inv(self) -> bool {
        &&& self.bit >= 1
        &&& self.len >= 1
        &&& self.addr_width == address_width(self.len as nat)
        &&& self.buf@ == self.name@ + "_buf"@
        &&& self.rptr@ == self.name@ + "_rptr"@
        &&& self.wptr@ == self.name@ + "_wptr"@
    }

    /// A buffer `name` of `len` entries of `bit` bits each. The pointers
    /// are as wide as it takes to address every entry, and at least one
    /// bit.
    pub fn new(name: &str, bit: usize, len: usize) -> (r: FIFO)
        requires
            bit >= 1,
            len >= 1,
        ensures
            r@ == (FIFOView {
                name: name@,
                bit: bit as nat,
                len: len as nat,
                addr_width: address_width(len as nat),
            }),
    {
        let addr_width = address_bits(len);
        FIFO {
            name: String::from_str(name),
            bit,
            len,
            addr_width,
            buf: concat(name, "_buf"),
            rptr: concat(name, "_rptr"),
            wptr: concat(name, "_wptr"),
        }
    }

    /// The name of the buffer.
    pub fn name(&self) -> (s: &str)
        ensures
            s@ == self@.name,
    {
        self.name.as_str()
    }
}

impl Clone for FIFO {
    fn clone(&self) -> (r: FIFO)
        ensures
            r@ == self@,
    {
        proof {
            use_type_invariant(self);
        }
        FIFO {
            name: self.name.clone(),
            bit: self.bit,
            len: self.len,
            addr_width: self.addr_width,
            buf: self.buf.clone(),
            rptr: self.rptr.clone(),
            wptr: self.wptr.clone(),
        }
    }
}

impl Module {
    /// Declares the storage of `fifo`.
    pub fn fifo(self, fifo: FIFO) -> (r: Module)
        ensures
            r@ == with_fifo(self@, fifo@),
    {
        proof {
            use_type_invariant(&fifo);
        }
        let m = self.logic(fifo.buf.as_str(), fifo.bit, fifo.len).logic(
            fifo.rptr.as_str(),
            fifo.addr_width,
            1,
        ).logic(fifo.wptr.as_str(), fifo.addr_width, 1);
        assert(m@.blocks =~= with_fifo(self@, fifo@).blocks);
        m
    }
}

} // verus!
