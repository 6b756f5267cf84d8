//! Streaming ports: data with a valid and a ready.
use crate::module::{port, Direct, ElementView, Module, ModuleView};
use crate::text::concat;
use vstd::prelude::*;

verus! {

/// Model of a stream.
pub struct StreamView {
    pub name: Seq<char>,
    pub bit: nat,
}

/// A stream `name` that carries `bit` bits of data.
#[derive(Debug)]
pub struct Stream {
    name: String,
    bit: usize,
}

impl View for Stream {
    type V = StreamView;

    closed spec fn view(&self) -> StreamView {
        StreamView { name: self.name@, bit: self.bit as nat }
    }
}

/// `m` with the receiving end of `s`: data and valid come in, ready goes
/// out.
pub open spec fn with_stream_slave(m: ModuleView, s: StreamView) -> ModuleView {
    ModuleView {
        ports: m.ports + seq![
            port(s.name + "_data"@, Direct::In, s.bit),
            port(s.name + "_valid"@, Direct::In, 1),
            port(s.name + "_ready"@, Direct::Out, 1),
        ],
        ..m
    }
}

/// `m` with the sending end of `s`: data and valid go out, ready comes
/// in.
pub open spec fn with_stream_master(m: ModuleView, s: StreamView) -> ModuleView {
    ModuleView {
        ports: m.ports + seq![
            port(s.name + "_data"@, Direct::Out, s.bit),
            port(s.name + "_valid"@, Direct::Out, 1),
            port(s.name + "_ready"@, Direct::In, 1),
        ],
        ..m
    }
}

/// `m` with the three signals of `s` as storage inside the module, each
/// as wide as the data.
pub open spec fn with_stream_wire(m: ModuleView, s: StreamView) -> ModuleView {
    ModuleView {
        blocks: m.blocks + seq![
            ElementView::Logic { name: s.name + "_data"@, bit: s.bit, len: 1 },
            ElementView::Logic { name: s.name + "_valid"@, bit: s.bit, len: 1 },
            ElementView::Logic { name: s.name + "_ready"@, bit: s.bit, len: 1 },
        ],
        ..m
    }
}

impl Stream {
    #[verifier::type_invariant]
    spec fn inv(self) -> bool {
        self.bit >= 1
    }

    /// The stream `name` with `bit` bits of data.
    pub fn new(name: &str, bit: usize) -> (r: Stream)
        requires
            bit > 0,
        ensures
            r@ == (StreamView { name: name@, bit: bit as nat }),
    {
        Stream { name: String::from_str(name), bit }
    }

    /// The name of the data signal.
    pub fn data(&self) -> (r: String)
        ensures
            r@ == self@.name + "_data"@,
    {
        concat(self.name.as_str(), "_data")
    }

    /// The name of the valid signal.
    pub fn valid(&self) -> (r: String)
        ensures
            r@ == self@.name + "_valid"@,
    {
        concat(self.name.as_str(), "_valid")
    }

    /// The name of the ready signal.
    pub fn ready(&self) -> (r: String)
        ensures
            r@ == self@.name + "_ready"@,
    {
        concat(self.name.as_str(), "_ready")
    }
}

impl Clone for Stream {
    fn clone(&self) -> (r: Stream)
        ensures
            r@ == self@,
    {
        proof {
            use_type_invariant(self);
        }
        Stream { name: self.name.clone(), bit: self.bit }
    }
}

impl Module {
    /// Adds the ports of the receiving end of `stream`.
    pub fn stream_slave(self, stream: Stream) -> (r: Module)
        ensures
            r@ == with_stream_slave(self@, stream@),
    {
        proof {
            use_type_invariant(&stream);
        }
        let m = self.input(stream.data().as_str(), stream.bit).input(
            stream.valid().as_str(),
            1,
        ).output(stream.ready().as_str(), 1);
        assert(m@.ports =~= with_stream_slave(self@, stream@).ports);
        m
    }

    /// Adds the ports of the sending end of `stream`.
    pub fn stream_master(self, stream: Stream) -> (r: Module)
        ensures
            r@ == with_stream_master(self@, stream@),
    {
        proof {
            use_type_invariant(&stream);
        }
        let m = self.output(stream.data().as_str(), stream.bit).output(
            stream.valid().as_str(),
            1,
        ).input(stream.ready().as_str(), 1);
        assert(m@.ports =~= with_stream_master(self@, stream@).ports);
        m
    }

    /// Declares the signals of `stream` inside the module.
    pub fn stream_wire(self, stream: Stream) -> (r: Module)
        ensures
            r@ == with_stream_wire(self@, stream@),
    {
        proof {
            use_type_invariant(&stream);
        }
        let m = self.logic(stream.data().as_str(), stream.bit, 1).logic(
            stream.valid().as_str(),
            stream.bit,
            1,
        ).logic(stream.ready().as_str(), stream.bit, 1);
        assert(m@.blocks =~= with_stream_wire(self@, stream@).blocks);
        m
    }
}

} // verus!
