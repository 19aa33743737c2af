//! The status convention of the host: a code, of which one value means
//! success, and a message.
use vstd::prelude::*;

verus! {

/// The one code that means success.
pub const TF_OK: u32 = 0;

/// An operation reached past the end of a buffer.
pub const TF_OUT_OF_RANGE: u32 = 11;

/// The result of one call across the host boundary.
#[derive(Debug, Clone, PartialEq, Eq)]
pub struct Status {
    pub code: u32,
    pub message: String,
}

impl Status {
    /// Whether the status reports success.
    pub open spec fn ok(&self) -> bool {
        self.code == TF_OK
    }

    /// Whether the status is the one that a call leaves when all went well:
    /// success, with an empty message.
    pub open spec fn succeeded(&self) -> bool {
        self.code == TF_OK && self.message@ == Seq::<char>::empty()
    }

    /// A success status with an empty message.
    pub fn new() -> (status: Status)
        ensures
            status.succeeded(),
    {
        Status { code: TF_OK, message: String::new() }
    }

    /// Sets the code and the message.
    pub fn set(&mut self, code: u32, message: &str)
        ensures
            final(self).code == code,
            final(self).message@ == message@,
    {
        self.code = code;
        self.message = message.to_owned();
    }

    /// Sets the status to success, with an empty message.
    pub fn set_ok(&mut self)
        ensures
            final(self).succeeded(),
    {
        self.code = TF_OK;
        self.message = String::new();
    }

    /// Whether the status reports success: its code is `TF_OK`.
    pub fn is_ok(&self) -> (b: bool)
        ensures
            b == self.ok(),
    {
        self.code == TF_OK
    }

    /// Turns the status that came with a value into a `Result`: the value
    /// where the call succeeded, the status itself where it failed.
    pub fn into_result<V>(self, value: V) -> (result: Result<V, Status>)
        ensures
            self.ok() ==> result == Ok::<V, Status>(value),
            !self.ok() ==> result == Err::<V, Status>(self),
    {
        if self.is_ok() {
            Ok(value)
        } else {
            Err(self)
        }
    }
}

/// A breach of the contract between the plugin and its host or its own
/// configuration. None of these can be recovered from at run time: they show
/// that the plugin was put together wrongly.
#[derive(Debug, Clone, Copy, PartialEq, Eq)]
pub enum ContractViolation {
    /// A tensor whose layout goes by a format does not have four axes.
    Rank,
    /// A format is not four bytes that hold each of `N`, `H`, `W` and `C`.
    Format,
    /// A bias tensor does not have exactly one axis.
    BiasRank,
    /// A bias tensor is not as long as the channel axis of its input.
    BiasLength,
    /// A tensor's declared element count is negative, or is not the product
    /// of its extents.
    ElementCount,
    /// The bytes of an output tensor cannot be counted in 64 bits.
    ByteLength,
    /// The host answered something other than what was asked last.
    Reply,
    /// An attribute read as one string is a list.
    ListAttribute,
    /// An attribute's declared length is negative, or its bytes are not of
    /// that length.
    AttributeLength,
    /// An attribute read as a string is not UTF-8.
    Encoding,
}

} // verus!
