//! Interface descriptors: what the engine is told about each kind of object.
//!
//! A descriptor names an interface, gives the highest version the server
//! supports and lists, by opcode, the requests a client may send to an
//! object of that interface. The engine only reads descriptors.

use vstd::prelude::*;

verus! {

/// Kind of one argument in the argument block of a message.
#[derive(Copy, Clone, PartialEq, Eq, Structural, Debug)]
pub enum ArgKind {
    /// Signed 32-bit integer.
    Int,
    /// Unsigned 32-bit integer.
    Uint,
    /// Signed 24.8 fixed-point number.
    Fixed,
    /// Zero-terminated string, prefixed by its length.
    Str,
    /// Id of an existing object.
    Object,
    /// Id for an object the message creates.
    NewId,
    /// Byte array, prefixed by its length.
    Array,
    /// File descriptor, passed beside the byte stream.
    Fd,
}

/// Description of one request of an interface.
#[derive(Debug)]
pub struct MessageDesc {
    /// First version of the interface that has this request.
    pub since: u32,
    /// Kinds of the arguments, in order.
    pub signature: Vec<ArgKind>,
    /// Whether the request destroys the object it is sent to.
    pub destructor: bool,
}

/// Mathematical value of a [`MessageDesc`].
pub struct MessageDescView {
    pub since: u32,
    pub signature: Seq<ArgKind>,
    pub destructor: bool,
}

impl View for MessageDesc {
    type V = MessageDescView;

    open spec fn view(&self) -> MessageDescView {
        MessageDescView {
            since: self.since,
            signature: self.signature@,
            destructor: self.destructor,
        }
    }
}

/// Descriptor of one interface.
#[derive(Debug)]
pub struct Interface {
    /// Name of the interface on the wire.
    pub name: String,
    /// Highest version of the interface that the server supports.
    pub version: u32,
    /// The requests, indexed by opcode.
    pub requests: Vec<MessageDesc>,
}

/// Mathematical value of an [`Interface`].
pub struct InterfaceView {
    pub name: Seq<char>,
    pub version: u32,
    pub requests: Seq<MessageDescView>,
}

impl InterfaceView {
    /// An object of this interface, instantiated at `version`, has a request
    /// with this opcode.
    pub open spec fn accepts(self, opcode: u32, version: u32) -> bool {
        opcode < self.requests.len() && self.requests[opcode as int].since <= version
    }

    /// The request with this opcode destroys its object.
    pub open spec fn is_destructor(self, opcode: u32) -> bool {
        opcode < self.requests.len() && self.requests[opcode as int].destructor
    }
}

impl View for Interface {
    type V = InterfaceView;

    open spec fn view(&self) -> InterfaceView {
        InterfaceView {
            name: self.name@,
            version: self.version,
            requests: Seq::new(self.requests@.len(), |i: int| self.requests@[i]@),
        }
    }
}

impl Interface {
    /// Whether an object instantiated at `version` has a request `opcode`.
    pub fn accepts(&self, opcode: u32, version: u32) -> (yes: bool)
        ensures
            yes == self@.accepts(opcode, version),
    {
        let index: usize = opcode as usize;
        index < self.requests.len() && self.requests[index].since <= version
    }

    /// Whether the request `opcode` destroys the object it is sent to.
    pub fn is_destructor(&self, opcode: u32) -> (yes: bool)
        ensures
            yes == self@.is_destructor(opcode),
    {
        let index: usize = opcode as usize;
        index < self.requests.len() && self.requests[index].destructor
    }

    /// The argument kinds of the request `opcode`.
    pub fn signature(&self, opcode: u32) -> (kinds: &Vec<ArgKind>)
        requires
            opcode < self@.requests.len(),
        ensures
            kinds@ == self@.requests[opcode as int].signature,
    {
        let index: usize = opcode as usize;
        &self.requests[index].signature
    }
}

} // verus!
