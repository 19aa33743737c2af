//! What a kernel and the host's per-call context say to each other.
//!
//! A kernel never calls the host itself. It names the next thing to ask, as a
//! [`KernelAction`]; whoever drives it performs the call and hands back the
//! host's answer, as a [`ContextReply`].
use crate::layout::{dims_named, is_format, named_dims, NamedDims};
use crate::status::{ContractViolation, Status};
use vstd::prelude::*;
use vstd::string::StringSliceAdditionalSpecFns;

verus! {

/// The size in bytes of one tensor element.
pub const ELEMENT_SIZE: u64 = 4;

/// A tensor as the host declares it: its extents and the number of elements
/// that its memory holds. The memory itself stays with the host.
#[derive(Debug, Clone, PartialEq, Eq)]
pub struct Tensor {
    pub dims: Vec<i64>,
    pub element_count: i64,
}

impl Tensor {
    /// The number of elements that the host declares.
    pub fn element_count(&self) -> (count: i64)
        ensures
            count == self.element_count,
    {
        self.element_count
    }

    /// The number of axes.
    pub fn num_dims(&self) -> (rank: i32)
        requires
            self.dims@.len() <= i32::MAX,
        ensures
            rank == self.dims@.len(),
    {
        self.dims.len() as i32
    }

    /// The extent of each axis, in physical order.
    pub fn dims(&self) -> (dims: Vec<i64>)
        ensures
            dims@ == self.dims@,
    {
        self.dims.clone()
    }

    /// The size of each named axis and its physical position.
    pub fn dims_named(&self, format: &str) -> (named: NamedDims)
        requires
            self.dims@.len() == 4,
            is_format(format.spec_bytes()),
        ensures
            named == named_dims(self.dims@, format.spec_bytes()),
    {
        dims_named(self.dims.as_slice(), format)
    }
}

/// What a kernel does next in one compute call.
#[derive(Debug, PartialEq, Eq)]
pub enum KernelAction {
    /// Ask the context for the stream that the call runs on.
    GetStream,
    /// Ask the context for the input tensor at `index`.
    GetInput { index: i32 },
    /// Ask the context for an output tensor at `index` with the extents
    /// `dims` and room for `len` bytes.
    AllocateOutput { index: i32, dims: Vec<i64>, len: u64 },
    /// Hand `status` to the context's failure sink. The call ends here.
    Failure { status: Status },
    /// Every tensor is at hand: write the output. The call ends with it.
    Compute,
    /// There is nothing to write. The call ends here.
    Done,
    /// The call cannot go on and must not write anything.
    Abort { violation: ContractViolation },
}

/// What the host answered to the last request.
#[derive(Debug, PartialEq, Eq)]
pub enum ContextReply {
    /// The answer to `GetStream`: what the stream's device handle holds.
    Stream(Result<String, Status>),
    /// The answer to `GetInput`.
    Input(Result<Tensor, Status>),
    /// The answer to `AllocateOutput`.
    Output(Result<(), Status>),
}

impl ContextReply {
    /// The answer to `GetStream`, from what the host's call left: the
    /// status, and what the handle of the stream holds. The handle counts
    /// only where the status reports success.
    pub fn get_stream(status: Status, stream_handle: String) -> (reply: ContextReply)
        ensures
            reply == ContextReply::Stream(
                if status.ok() {
                    Ok(stream_handle)
                } else {
                    Err(status)
                },
            ),
    {
        ContextReply::Stream(status.into_result(stream_handle))
    }

    /// The answer to `GetInput`, from what the host's call left: the status,
    /// and the tensor as the host declares it. The tensor counts only where
    /// the status reports success.
    pub fn get_input(status: Status, input: Tensor) -> (reply: ContextReply)
        ensures
            reply == ContextReply::Input(
                if status.ok() {
                    Ok(input)
                } else {
                    Err(status)
                },
            ),
    {
        ContextReply::Input(status.into_result(input))
    }

    /// The answer to `AllocateOutput`, from the status that the host's call
    /// left.
    pub fn allocate_output(status: Status) -> (reply: ContextReply)
        ensures
            reply == ContextReply::Output(
                if status.ok() {
                    Ok(())
                } else {
                    Err(status)
                },
            ),
    {
        ContextReply::Output(status.into_result(()))
    }
}

/// The number of bytes of `count` elements.
pub open spec fn byte_length(count: int) -> int {
    count * ELEMENT_SIZE
}

/// The bytes that an output of `count` elements needs, where they can be
/// counted in 64 bits.
pub fn output_len(count: i64) -> (len: Option<u64>)
    ensures
        len is Some <==> 0 <= count && byte_length(count as int) <= u64::MAX,
        len is Some ==> len->0 == byte_length(count as int),
{
    if count < 0 {
        None
    } else {
        (count as u64).checked_mul(ELEMENT_SIZE)
    }
}

} // verus!
