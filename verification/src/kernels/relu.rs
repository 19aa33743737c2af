//! Relu: every element below or at zero becomes zero, every other element
//! stays.
//!
//! Elements are single-precision numbers, which the kernel reads as their 32
//! bits. A number is above zero exactly when its sign bit is clear and it is
//! neither zero nor a NaN, that is when its bits, read as an integer, lie
//! between 1 and the bits of positive infinity.
use crate::context::{byte_length, output_len, ContextReply, KernelAction, Tensor};
use crate::device::DeviceIdentity;
use crate::lifecycle::KernelInstance;
use crate::registry::{
    KernelBuilder, KernelDescriptor, Registration, RegistrationState, TF_FLOAT, TYPE_CONSTRAINT_T,
};
use crate::status::{ContractViolation, Status};
use vstd::prelude::*;
use vstd::string::StringSliceAdditionalSpecFns;

verus! {

/// The name that the kernel is registered under.
pub const RELU_KERNEL_NAME: &'static str = "Relu\0";

/// The name of the operation that the kernel computes.
pub const RELU_OP_NAME: &'static str = "ReluOp\0";

/// The bits of positive infinity, the largest number there is.
pub const INFINITY_BITS: u32 = 0x7f80_0000;

/// The state of one Relu kernel: it has none.
#[derive(Debug, Clone, Copy, PartialEq, Eq)]
pub struct ReluKernel {}

/// Whether the bits are those of a number above zero.
pub open spec fn is_positive(bits: u32) -> bool {
    0 < bits <= INFINITY_BITS
}

/// The bits of the larger of zero and the number with the given bits.
pub open spec fn rectified(bits: u32) -> u32 {
    if is_positive(bits) {
        bits
    } else {
        0
    }
}

/// The larger of zero and the number with the given bits, as bits. A NaN
/// counts as not above zero.
pub fn rectify(bits: u32) -> (out: u32)
    ensures
        out == rectified(bits),
{
    if 0 < bits && bits <= INFINITY_BITS {
        bits
    } else {
        0
    }
}

/// Writes the rectified elements of `input` to `output`.
pub fn relu(input: &[u32], output: &mut [u32])
    requires
        input@.len() == old(output)@.len(),
    ensures
        final(output)@.len() == input@.len(),
        forall|i: int| 0 <= i < input@.len() ==> final(output)@[i] == rectified(input@[i]),
{
    let len = input.len();
    let mut i: usize = 0;
    while i < len
        invariant
            len == input@.len(),
            output@.len() == input@.len(),
            0 <= i <= len,
            forall|j: int| 0 <= j < i ==> output@[j] == rectified(input@[j]),
        decreases len - i,
    {
        output[i] = rectify(input[i]);
        i += 1;
    }
}

/// Where one compute call of Relu stands.
#[derive(Debug, Clone, Copy, PartialEq, Eq)]
pub enum ReluCompute {
    /// The stream was asked for.
    AwaitStream,
    /// The input was asked for.
    AwaitInput,
    /// The output was asked for.
    AwaitOutput,
    /// The call has ended.
    Finished,
}

/// What Relu does when `reply` comes in at `state`.
///
/// A failure that the host reports is handed on and ends the call. An input
/// without elements ends the call before any output is asked for. Otherwise
/// the output has the extents of the input and four bytes for each element.
pub open spec fn relu_step(state: ReluCompute, reply: ContextReply) -> (ReluCompute, KernelAction) {
    match (state, reply) {
        (ReluCompute::AwaitStream, ContextReply::Stream(Ok(_))) => (
            ReluCompute::AwaitInput,
            KernelAction::GetInput { index: 0 },
        ),
        (ReluCompute::AwaitStream, ContextReply::Stream(Err(status))) => (
            ReluCompute::Finished,
            KernelAction::Failure { status },
        ),
        (ReluCompute::AwaitInput, ContextReply::Input(Ok(input))) => if input.element_count == 0 {
            (ReluCompute::Finished, KernelAction::Done)
        } else if input.element_count < 0 {
            (
                ReluCompute::Finished,
                KernelAction::Abort { violation: ContractViolation::ElementCount },
            )
        } else if byte_length(input.element_count as int) > u64::MAX {
            (ReluCompute::Finished, KernelAction::Abort { violation: ContractViolation::ByteLength })
        } else {
            (
                ReluCompute::AwaitOutput,
                KernelAction::AllocateOutput {
                    index: 0,
                    dims: input.dims,
                    len: byte_length(input.element_count as int) as u64,
                },
            )
        },
        (ReluCompute::AwaitInput, ContextReply::Input(Err(status))) => (
            ReluCompute::Finished,
            KernelAction::Failure { status },
        ),
        (ReluCompute::AwaitOutput, ContextReply::Output(Ok(_))) => (
            ReluCompute::Finished,
            KernelAction::Compute,
        ),
        (ReluCompute::AwaitOutput, ContextReply::Output(Err(status))) => (
            ReluCompute::Finished,
            KernelAction::Failure { status },
        ),
        _ => (ReluCompute::Finished, KernelAction::Abort { violation: ContractViolation::Reply }),
    }
}

impl ReluCompute {
    /// Starts a compute call: the first thing to ask for is the stream.
    pub fn begin() -> (start: (ReluCompute, KernelAction))
        ensures
            start == (ReluCompute::AwaitStream, KernelAction::GetStream),
    {
        (ReluCompute::AwaitStream, KernelAction::GetStream)
    }

    /// Takes the host's answer to the last request and says what to do next.
    pub fn step(self, reply: ContextReply) -> (next: (ReluCompute, KernelAction))
        ensures
            next == relu_step(self, reply),
    {
        match (self, reply) {
            (ReluCompute::AwaitStream, ContextReply::Stream(Ok(_))) => (
                ReluCompute::AwaitInput,
                KernelAction::GetInput { index: 0 },
            ),
            (ReluCompute::AwaitStream, ContextReply::Stream(Err(status))) => (
                ReluCompute::Finished,
                KernelAction::Failure { status },
            ),
            (ReluCompute::AwaitInput, ContextReply::Input(Ok(input))) => {
                if input.element_count == 0 {
                    (ReluCompute::Finished, KernelAction::Done)
                } else if input.element_count < 0 {
                    (
                        ReluCompute::Finished,
                        KernelAction::Abort { violation: ContractViolation::ElementCount },
                    )
                } else {
                    match output_len(input.element_count) {
                        None => (
                            ReluCompute::Finished,
                            KernelAction::Abort { violation: ContractViolation::ByteLength },
                        ),
                        Some(len) => (
                            ReluCompute::AwaitOutput,
                            KernelAction::AllocateOutput { index: 0, dims: input.dims, len },
                        ),
                    }
                }
            },
            (ReluCompute::AwaitInput, ContextReply::Input(Err(status))) => (
                ReluCompute::Finished,
                KernelAction::Failure { status },
            ),
            (ReluCompute::AwaitOutput, ContextReply::Output(Ok(_))) => (
                ReluCompute::Finished,
                KernelAction::Compute,
            ),
            (ReluCompute::AwaitOutput, ContextReply::Output(Err(status))) => (
                ReluCompute::Finished,
                KernelAction::Failure { status },
            ),
            _ => (
                ReluCompute::Finished,
                KernelAction::Abort { violation: ContractViolation::Reply },
            ),
        }
    }
}

/// What the registration of Relu describes: the kernel `Relu` for the
/// operation `ReluOp` on devices of the given type, with elements of single
/// precision, and the three functions to call.
pub open spec fn relu_descriptor<C, P, D>(
    device_type: Seq<u8>,
    create: C,
    compute: P,
    delete: D,
) -> KernelDescriptor<C, P, D> {
    KernelDescriptor {
        kernel_name: RELU_KERNEL_NAME.spec_bytes(),
        op_name: RELU_OP_NAME.spec_bytes(),
        device_type,
        constraints: seq![(TYPE_CONSTRAINT_T.spec_bytes(), TF_FLOAT)],
        create_fn: Some(create),
        compute_fn: Some(compute),
        delete_fn: Some(delete),
    }
}

/// Describes Relu for devices of the given identity and starts its
/// registration.
pub fn init<C, P, D>(identity: &DeviceIdentity, create: C, compute: P, delete: D) -> (registration:
    Registration<C, P, D>)
    ensures
        registration@ == RegistrationState::start(
            relu_descriptor(identity.type_bytes(), create, compute, delete),
        ),
        registration@.wf(),
{
    proof {
        broadcast use vstd::string::is_ascii_spec_bytes;

        reveal_strlit("Relu\0");
        reveal_strlit("ReluOp\0");
        reveal_strlit("T\0");
        assert(vstd::string::is_ascii(RELU_KERNEL_NAME));
        assert(vstd::string::is_ascii(RELU_OP_NAME));
        assert(vstd::string::is_ascii(TYPE_CONSTRAINT_T));
        assert(RELU_KERNEL_NAME.spec_bytes().len() == 5);
        assert(RELU_OP_NAME.spec_bytes().len() == 7);
        assert(TYPE_CONSTRAINT_T.spec_bytes().len() == 2);
    }
    let builder = KernelBuilder::new(RELU_KERNEL_NAME, RELU_OP_NAME, identity.device_type())
        .constraint(TYPE_CONSTRAINT_T, TF_FLOAT).create(create).compute(compute).delete(delete);
    assert(builder@.constraints =~= seq![(TYPE_CONSTRAINT_T.spec_bytes(), TF_FLOAT)]);
    builder.register()
}

/// Makes an instance of Relu. There is nothing to read and nothing that
/// can fail.
pub fn create() -> (instance: KernelInstance<ReluKernel>)
    ensures
        instance == KernelInstance::Live(ReluKernel {}),
{
    KernelInstance::create(Some(ReluKernel {}))
}

/// Starts a compute call on the instance, if it is live: the first thing to
/// ask for is the stream. An instance that is not live is not run.
pub fn compute(instance: &KernelInstance<ReluKernel>) -> (start: Option<(ReluCompute, KernelAction)>)
    ensures
        start == if instance is Live {
            Some((ReluCompute::AwaitStream, KernelAction::GetStream))
        } else {
            None
        },
{
    match instance.compute() {
        Some(_) => Some(ReluCompute::begin()),
        None => None,
    }
}

/// Gives the instance up. Its state is handed back, once, to be released.
pub fn delete(instance: &mut KernelInstance<ReluKernel>) -> (state: Option<ReluKernel>)
    ensures
        state == old(instance).state(),
        *final(instance) == old(instance).given_up(),
{
    instance.delete()
}

/// The reply that tells a call at `state` that the host failed with
/// `status` at what was asked last.
pub open spec fn failure_reply(state: ReluCompute, status: Status) -> ContextReply {
    match state {
        ReluCompute::AwaitStream => ContextReply::Stream(Err(status)),
        ReluCompute::AwaitOutput => ContextReply::Output(Err(status)),
        _ => ContextReply::Input(Err(status)),
    }
}

/// Whatever the host fails at, the call ends there and hands the host's
/// status on as it came.
pub proof fn lemma_failure_is_forwarded(state: ReluCompute, status: Status)
    requires
        state != ReluCompute::Finished,
    ensures
        relu_step(state, failure_reply(state, status)) == (
            ReluCompute::Finished,
            KernelAction::Failure { status },
        ),
{
}

/// An input without elements ends the call at once: no output is asked
/// for.
pub proof fn lemma_empty_input_asks_for_nothing(input: Tensor)
    requires
        input.element_count == 0,
    ensures
        relu_step(ReluCompute::AwaitInput, ContextReply::Input(Ok(input))) == (
            ReluCompute::Finished,
            KernelAction::Done,
        ),
{
}

/// No number comes out of the rectifier below zero, and rectifying twice
/// is rectifying once.
pub proof fn lemma_rectified(bits: u32)
    ensures
        rectified(bits) <= INFINITY_BITS,
        rectified(rectified(bits)) == rectified(bits),
        is_positive(bits) ==> rectified(bits) == bits,
        !is_positive(bits) ==> rectified(bits) == 0,
{
}

} // verus!
