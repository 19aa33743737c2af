//! BiasAdd: to every element of a four-dimensional tensor, add the bias of
//! its channel.
//!
//! The kernel is written once for every axis order. It walks the logical
//! coordinates and leaves it to the layout to say where each element lies.
//! What adding two elements means is the caller's to say: the kernel takes
//! the addition as a function and applies it to each pair.
use crate::attr::{AttrAction, StringAttr};
use crate::context::{byte_length, output_len, ContextReply, KernelAction, Tensor};
use crate::device::DeviceIdentity;
use crate::find::first_index;
use crate::layout::{
    coordinates_of, dims_named, element_count, has_element_count, in_extent, is_format,
    is_positive_shape, is_valid_format, lemma_extent_within_count, lemma_format_is_permutation,
    lemma_offset_in_range, lemma_offset_injective, lemma_offset_surjective,
    offset_from_tensor_coordinates, offset_of, position_of, AXIS_C,
};
use crate::lifecycle::KernelInstance;
use crate::registry::{
    KernelBuilder, KernelDescriptor, Registration, RegistrationState, TF_FLOAT, TYPE_CONSTRAINT_T,
};
use crate::status::{ContractViolation, Status};
use vstd::prelude::*;
use vstd::string::StringSliceAdditionalSpecFns;

verus! {

/// The name that the kernel is registered under.
pub const BIAS_ADD_KERNEL_NAME: &'static str = "BiasAdd\0";

/// The name of the operation that the kernel computes.
pub const BIAS_ADD_OP_NAME: &'static str = "BiasAddOp\0";

/// The attribute that holds the axis order of the input.
pub const DATA_FORMAT_ATTR: &'static str = "data_format\0";

/// Whether the coordinate `(n, h, w, c)` comes before `(i, j, k, l)` when
/// the coordinates are walked with `c` running fastest.
pub open spec fn walked_before(n: int, h: int, w: int, c: int, i: int, j: int, k: int, l: int) -> bool {
    n < i || (n == i && (h < j || (h == j && (w < k || (w == k && c < l)))))
}

/// Whether the output element at the coordinate `(n, h, w, c)` is a sum, by
/// `plus`, of the input element at that coordinate and the bias of channel
/// `c`.
pub open spec fn biased<T, F: Fn(T, T) -> T>(
    plus: F,
    dims: Seq<i64>,
    format: Seq<u8>,
    input: Seq<T>,
    bias: Seq<T>,
    output: Seq<T>,
    n: int,
    h: int,
    w: int,
    c: int,
) -> bool {
    call_ensures(
        plus,
        (input[offset_of(dims, format, n, h, w, c)], bias[c]),
        output[offset_of(dims, format, n, h, w, c)],
    )
}

/// The channel of the element stored at `offset`.
pub open spec fn channel_of(dims: Seq<i64>, format: Seq<u8>, offset: int) -> int {
    position_of(dims, offset, first_index(format, AXIS_C))
}

/// Whether `plus` may be applied at the coordinate `(n, h, w, c)`.
pub open spec fn addable<T, F: Fn(T, T) -> T>(
    plus: F,
    dims: Seq<i64>,
    format: Seq<u8>,
    input: Seq<T>,
    bias: Seq<T>,
    n: int,
    h: int,
    w: int,
    c: int,
) -> bool {
    call_requires(plus, (input[offset_of(dims, format, n, h, w, c)], bias[c]))
}

/// Writes to each element of `output` the sum of the input element at the
/// same place and the bias of the element's channel.
///
/// The coordinates are walked in logical order, whatever the format, and the
/// layout gives the place of each. No two coordinates share a place, so no
/// sum is written over by a later one.
#[verifier::loop_isolation(false)]
pub fn bias_add<T: Copy, F: Fn(T, T) -> T>(
    dims: &[i64],
    format: &str,
    input: &[T],
    bias: &[T],
    output: &mut [T],
    plus: F,
)
    requires
        is_positive_shape(dims@),
        is_format(format.spec_bytes()),
        input@.len() == element_count(dims@),
        old(output)@.len() == element_count(dims@),
        bias@.len() == dims@[first_index(format.spec_bytes(), AXIS_C)],
        forall|n: int, h: int, w: int, c: int|
            in_extent(dims@, format.spec_bytes(), n, h, w, c) ==> #[trigger] addable(
                plus,
                dims@,
                format.spec_bytes(),
                input@,
                bias@,
                n,
                h,
                w,
                c,
            ),
    ensures
        final(output)@.len() == old(output)@.len(),
        forall|n: int, h: int, w: int, c: int|
            in_extent(dims@, format.spec_bytes(), n, h, w, c) ==> #[trigger] biased(
                plus,
                dims@,
                format.spec_bytes(),
                input@,
                bias@,
                final(output)@,
                n,
                h,
                w,
                c,
            ),
        forall|x: int|
            0 <= x < input@.len() ==> call_ensures(
                plus,
                (input@[x], bias@[channel_of(dims@, format.spec_bytes(), x)]),
                #[trigger] final(output)@[x],
            ),
{
    let ghost f = format.spec_bytes();
    let count = input.len();
    proof {
        lemma_format_is_permutation(f);
        lemma_extent_within_count(dims@, 0);
        lemma_extent_within_count(dims@, 1);
        lemma_extent_within_count(dims@, 2);
        lemma_extent_within_count(dims@, 3);
    }
    let named = dims_named(dims, format);
    let extent_n = named.n as usize;
    let extent_h = named.h as usize;
    let extent_w = named.w as usize;
    let extent_c = named.c as usize;
    let mut i: usize = 0;
    while i < extent_n
        invariant
            output@.len() == count,
            0 <= i <= extent_n,
            forall|n: int, h: int, w: int, c: int|
                in_extent(dims@, f, n, h, w, c) && walked_before(n, h, w, c, i as int, 0, 0, 0)
                    ==> #[trigger] biased(plus, dims@, f, input@, bias@, output@, n, h, w, c),
        decreases extent_n - i,
    {
        let mut j: usize = 0;
        while j < extent_h
            invariant
                output@.len() == count,
                0 <= j <= extent_h,
                forall|n: int, h: int, w: int, c: int|
                    in_extent(dims@, f, n, h, w, c) && walked_before(
                        n,
                        h,
                        w,
                        c,
                        i as int,
                        j as int,
                        0,
                        0,
                    ) ==> #[trigger] biased(plus, dims@, f, input@, bias@, output@, n, h, w, c),
            decreases extent_h - j,
        {
            let mut k: usize = 0;
            while k < extent_w
                invariant
                    output@.len() == count,
                    0 <= k <= extent_w,
                    forall|n: int, h: int, w: int, c: int|
                        in_extent(dims@, f, n, h, w, c) && walked_before(
                            n,
                            h,
                            w,
                            c,
                            i as int,
                            j as int,
                            k as int,
                            0,
                        ) ==> #[trigger] biased(plus, dims@, f, input@, bias@, output@, n, h, w, c),
                decreases extent_w - k,
            {
                let mut l: usize = 0;
                while l < extent_c
                    invariant
                        output@.len() == count,
                        0 <= l <= extent_c,
                        forall|n: int, h: int, w: int, c: int|
                            in_extent(dims@, f, n, h, w, c) && walked_before(
                                n,
                                h,
                                w,
                                c,
                                i as int,
                                j as int,
                                k as int,
                                l as int,
                            ) ==> #[trigger] biased(
                                plus,
                                dims@,
                                f,
                                input@,
                                bias@,
                                output@,
                                n,
                                h,
                                w,
                                c,
                            ),
                    decreases extent_c - l,
                {
                    proof {
                        lemma_offset_in_range(dims@, f, i as int, j as int, k as int, l as int);
                        assert(addable(
                            plus,
                            dims@,
                            f,
                            input@,
                            bias@,
                            i as int,
                            j as int,
                            k as int,
                            l as int,
                        ));
                    }
                    let x = offset_from_tensor_coordinates(dims, format, i, j, k, l);
                    let ghost before = output@;
                    output[x] = plus(input[x], bias[l]);
                    assert forall|n: int, h: int, w: int, c: int|
                        in_extent(dims@, f, n, h, w, c) && walked_before(
                            n,
                            h,
                            w,
                            c,
                            i as int,
                            j as int,
                            k as int,
                            l as int + 1,
                        ) implies #[trigger] biased(
                        plus,
                        dims@,
                        f,
                        input@,
                        bias@,
                        output@,
                        n,
                        h,
                        w,
                        c,
                    ) by {
                        lemma_offset_in_range(dims@, f, n, h, w, c);
                        if n == i && h == j && w == k && c == l {
                        } else {
                            assert(biased(plus, dims@, f, input@, bias@, before, n, h, w, c));
                            if offset_of(dims@, f, n, h, w, c) == x {
                                lemma_offset_injective(
                                    dims@,
                                    f,
                                    n,
                                    h,
                                    w,
                                    c,
                                    i as int,
                                    j as int,
                                    k as int,
                                    l as int,
                                );
                            }
                        }
                    }
                    l += 1;
                }
                k += 1;
            }
            j += 1;
        }
        i += 1;
    }
    assert forall|x: int| 0 <= x < input@.len() implies call_ensures(
        plus,
        (input@[x], bias@[channel_of(dims@, f, x)]),
        #[trigger] output@[x],
    ) by {
        lemma_offset_surjective(dims@, f, x);
        let (n, h, w, c) = coordinates_of(dims@, f, x);
        assert(biased(plus, dims@, f, input@, bias@, output@, n, h, w, c));
    }
}

/// The state of one BiasAdd kernel: the axis order of its input, read from
/// the kernel's attributes when the kernel is made.
#[derive(Debug, Clone, PartialEq, Eq)]
pub struct BiasAddKernel {
    pub format: String,
}

impl BiasAddKernel {
    /// The bytes of the kernel's format.
    pub open spec fn format_bytes(&self) -> Seq<u8> {
        vstd::utf8::encode_utf8(self.format@)
    }
}

/// Where one compute call of BiasAdd stands.
#[derive(Debug, PartialEq, Eq)]
pub enum BiasAddCompute {
    /// The stream was asked for.
    AwaitStream,
    /// The input was asked for.
    AwaitInput,
    /// The bias was asked for; `input` is the input that came.
    AwaitBias { input: Tensor },
    /// The output was asked for.
    AwaitOutput,
    /// The call has ended.
    Finished,
}

/// What is wrong with an input for a kernel of the given format, if
/// anything: it must have four axes, and the format must name them.
pub open spec fn input_violation(format: Seq<u8>, input: Tensor) -> Option<ContractViolation> {
    if input.dims@.len() != 4 {
        Some(ContractViolation::Rank)
    } else if !is_format(format) {
        Some(ContractViolation::Format)
    } else {
        None
    }
}

/// What is wrong with a bias for the given input, if anything: it must have
/// one axis, as long as the channel axis of the input.
pub open spec fn bias_violation(format: Seq<u8>, input: Tensor, bias: Tensor) -> Option<
    ContractViolation,
> {
    if bias.dims@.len() != 1 {
        Some(ContractViolation::BiasRank)
    } else if bias.dims@[0] != input.dims@[first_index(format, AXIS_C)] {
        Some(ContractViolation::BiasLength)
    } else {
        None
    }
}

/// Whether the host declares for both tensors as many elements as their
/// extents multiply to.
pub open spec fn counts_agree(input: Tensor, bias: Tensor) -> bool {
    &&& is_positive_shape(input.dims@)
    &&& element_count(input.dims@) == input.element_count
    &&& bias.dims@[0] == bias.element_count
}

/// What BiasAdd does once input and bias are both at hand.
///
/// An input or a bias of the wrong rank or length stops the call before
/// anything is written. An input without elements ends the call before any
/// output is asked for. Otherwise the output has the extents of the input and
/// four bytes for each element.
pub open spec fn bias_add_plan(format: Seq<u8>, input: Tensor, bias: Tensor) -> (
    BiasAddCompute,
    KernelAction,
) {
    if let Some(violation) = input_violation(format, input) {
        (BiasAddCompute::Finished, KernelAction::Abort { violation })
    } else if let Some(violation) = bias_violation(format, input, bias) {
        (BiasAddCompute::Finished, KernelAction::Abort { violation })
    } else if input.element_count == 0 {
        (BiasAddCompute::Finished, KernelAction::Done)
    } else if !counts_agree(input, bias) {
        (BiasAddCompute::Finished, KernelAction::Abort { violation: ContractViolation::ElementCount })
    } else if byte_length(input.element_count as int) > u64::MAX {
        (BiasAddCompute::Finished, KernelAction::Abort { violation: ContractViolation::ByteLength })
    } else {
        (
            BiasAddCompute::AwaitOutput,
            KernelAction::AllocateOutput {
                index: 0,
                dims: input.dims,
                len: byte_length(input.element_count as int) as u64,
            },
        )
    }
}

/// What BiasAdd does when `reply` comes in at `state`.
///
/// A failure that the host reports is handed on and ends the call.
pub open spec fn bias_add_step(format: Seq<u8>, state: BiasAddCompute, reply: ContextReply) -> (
    BiasAddCompute,
    KernelAction,
) {
    match (state, reply) {
        (BiasAddCompute::AwaitStream, ContextReply::Stream(Ok(_))) => (
            BiasAddCompute::AwaitInput,
            KernelAction::GetInput { index: 0 },
        ),
        (BiasAddCompute::AwaitStream, ContextReply::Stream(Err(status))) => (
            BiasAddCompute::Finished,
            KernelAction::Failure { status },
        ),
        (BiasAddCompute::AwaitInput, ContextReply::Input(Ok(input))) => if let Some(violation) =
            input_violation(format, input) {
            (BiasAddCompute::Finished, KernelAction::Abort { violation })
        } else {
            (BiasAddCompute::AwaitBias { input }, KernelAction::GetInput { index: 1 })
        },
        (BiasAddCompute::AwaitInput, ContextReply::Input(Err(status))) => (
            BiasAddCompute::Finished,
            KernelAction::Failure { status },
        ),
        (BiasAddCompute::AwaitBias { input }, ContextReply::Input(Ok(bias))) => bias_add_plan(
            format,
            input,
            bias,
        ),
        (BiasAddCompute::AwaitBias { input }, ContextReply::Input(Err(status))) => (
            BiasAddCompute::Finished,
            KernelAction::Failure { status },
        ),
        (BiasAddCompute::AwaitOutput, ContextReply::Output(Ok(_))) => (
            BiasAddCompute::Finished,
            KernelAction::Compute,
        ),
        (BiasAddCompute::AwaitOutput, ContextReply::Output(Err(status))) => (
            BiasAddCompute::Finished,
            KernelAction::Failure { status },
        ),
        _ => (
            BiasAddCompute::Finished,
            KernelAction::Abort { violation: ContractViolation::Reply },
        ),
    }
}

impl BiasAddCompute {
    /// Starts a compute call: the first thing to ask for is the stream.
    pub fn begin() -> (start: (BiasAddCompute, KernelAction))
        ensures
            start == (BiasAddCompute::AwaitStream, KernelAction::GetStream),
    {
        (BiasAddCompute::AwaitStream, KernelAction::GetStream)
    }

    /// Takes the host's answer to the last request and says what to do next.
    pub fn step(self, kernel: &BiasAddKernel, reply: ContextReply) -> (next: (
        BiasAddCompute,
        KernelAction,
    ))
        ensures
            next == bias_add_step(kernel.format_bytes(), self, reply),
    {
        match (self, reply) {
            (BiasAddCompute::AwaitStream, ContextReply::Stream(Ok(_))) => (
                BiasAddCompute::AwaitInput,
                KernelAction::GetInput { index: 0 },
            ),
            (BiasAddCompute::AwaitStream, ContextReply::Stream(Err(status))) => (
                BiasAddCompute::Finished,
                KernelAction::Failure { status },
            ),
            (BiasAddCompute::AwaitInput, ContextReply::Input(Ok(input))) => {
                match check_input(kernel, &input) {
                    Some(violation) => (
                        BiasAddCompute::Finished,
                        KernelAction::Abort { violation },
                    ),
                    None => (
                        BiasAddCompute::AwaitBias { input },
                        KernelAction::GetInput { index: 1 },
                    ),
                }
            },
            (BiasAddCompute::AwaitInput, ContextReply::Input(Err(status))) => (
                BiasAddCompute::Finished,
                KernelAction::Failure { status },
            ),
            (BiasAddCompute::AwaitBias { input }, ContextReply::Input(Ok(bias))) => plan(
                kernel,
                input,
                bias,
            ),
            (BiasAddCompute::AwaitBias { input }, ContextReply::Input(Err(status))) => (
                BiasAddCompute::Finished,
                KernelAction::Failure { status },
            ),
            (BiasAddCompute::AwaitOutput, ContextReply::Output(Ok(_))) => (
                BiasAddCompute::Finished,
                KernelAction::Compute,
            ),
            (BiasAddCompute::AwaitOutput, ContextReply::Output(Err(status))) => (
                BiasAddCompute::Finished,
                KernelAction::Failure { status },
            ),
            _ => (
                BiasAddCompute::Finished,
                KernelAction::Abort { violation: ContractViolation::Reply },
            ),
        }
    }
}

/// Checks that the input has four axes and that the kernel's format names
/// them.
pub fn check_input(kernel: &BiasAddKernel, input: &Tensor) -> (violation: Option<ContractViolation>)
    ensures
        violation == input_violation(kernel.format_bytes(), *input),
{
    if input.dims.len() != 4 {
        Some(ContractViolation::Rank)
    } else if !is_valid_format(kernel.format.as_str()) {
        Some(ContractViolation::Format)
    } else {
        None
    }
}

/// Checks the bias against the input and, where both are in order, asks for
/// the output.
pub fn plan(kernel: &BiasAddKernel, input: Tensor, bias: Tensor) -> (next: (
    BiasAddCompute,
    KernelAction,
))
    ensures
        next == bias_add_plan(kernel.format_bytes(), input, bias),
{
    if let Some(violation) = check_input(kernel, &input) {
        return (BiasAddCompute::Finished, KernelAction::Abort { violation });
    }
    let named = input.dims_named(kernel.format.as_str());
    if bias.dims.len() != 1 {
        (BiasAddCompute::Finished, KernelAction::Abort { violation: ContractViolation::BiasRank })
    } else if bias.dims[0] != named.c {
        (BiasAddCompute::Finished, KernelAction::Abort { violation: ContractViolation::BiasLength })
    } else if input.element_count == 0 {
        (BiasAddCompute::Finished, KernelAction::Done)
    } else if !has_element_count(input.dims.as_slice(), input.element_count) || bias.dims[0]
        != bias.element_count {
        (
            BiasAddCompute::Finished,
            KernelAction::Abort { violation: ContractViolation::ElementCount },
        )
    } else {
        match output_len(input.element_count) {
            None => (
                BiasAddCompute::Finished,
                KernelAction::Abort { violation: ContractViolation::ByteLength },
            ),
            Some(len) => (
                BiasAddCompute::AwaitOutput,
                KernelAction::AllocateOutput { index: 0, dims: input.dims, len },
            ),
        }
    }
}

/// What the registration of BiasAdd describes: the kernel `BiasAdd` for
/// the operation `BiasAddOp` on devices of the given type, with elements of
/// single precision, and the three functions to call.
pub open spec fn bias_add_descriptor<C, P, D>(
    device_type: Seq<u8>,
    create: C,
    compute: P,
    delete: D,
) -> KernelDescriptor<C, P, D> {
    KernelDescriptor {
        kernel_name: BIAS_ADD_KERNEL_NAME.spec_bytes(),
        op_name: BIAS_ADD_OP_NAME.spec_bytes(),
        device_type,
        constraints: seq![(TYPE_CONSTRAINT_T.spec_bytes(), TF_FLOAT)],
        create_fn: Some(create),
        compute_fn: Some(compute),
        delete_fn: Some(delete),
    }
}

/// Describes BiasAdd for devices of the given identity and starts its
/// registration.
pub fn init<C, P, D>(identity: &DeviceIdentity, create: C, compute: P, delete: D) -> (registration:
    Registration<C, P, D>)
    ensures
        registration@ == RegistrationState::start(
            bias_add_descriptor(identity.type_bytes(), create, compute, delete),
        ),
        registration@.wf(),
{
    proof {
        broadcast use vstd::string::is_ascii_spec_bytes;

        reveal_strlit("BiasAdd\0");
        reveal_strlit("BiasAddOp\0");
        reveal_strlit("T\0");
        assert(vstd::string::is_ascii(BIAS_ADD_KERNEL_NAME));
        assert(vstd::string::is_ascii(BIAS_ADD_OP_NAME));
        assert(vstd::string::is_ascii(TYPE_CONSTRAINT_T));
        assert(BIAS_ADD_KERNEL_NAME.spec_bytes().len() == 8);
        assert(BIAS_ADD_OP_NAME.spec_bytes().len() == 10);
        assert(TYPE_CONSTRAINT_T.spec_bytes().len() == 2);
    }
    let builder = KernelBuilder::new(BIAS_ADD_KERNEL_NAME, BIAS_ADD_OP_NAME, identity.device_type())
        .constraint(TYPE_CONSTRAINT_T, TF_FLOAT).create(create).compute(compute).delete(delete);
    assert(builder@.constraints =~= seq![(TYPE_CONSTRAINT_T.spec_bytes(), TF_FLOAT)]);
    builder.register()
}

/// Starts making an instance of BiasAdd: the format is to be read from the
/// attribute `data_format`.
pub fn create() -> (start: (StringAttr, AttrAction))
    ensures
        start == (
            StringAttr::AwaitSize { name: DATA_FORMAT_ATTR },
            AttrAction::GetAttrSize { name: DATA_FORMAT_ATTR },
        ),
{
    proof {
        broadcast use vstd::string::is_ascii_spec_bytes;

        reveal_strlit("data_format\0");
        assert(vstd::string::is_ascii(DATA_FORMAT_ATTR));
        assert(DATA_FORMAT_ATTR.spec_bytes().len() == 12);
    }
    StringAttr::begin(DATA_FORMAT_ATTR)
}

/// Makes the instance from what the read of the format ended with: a live
/// instance with the format that was read, or a failed one where none was.
pub fn created(outcome: AttrAction) -> (instance: KernelInstance<BiasAddKernel>)
    ensures
        instance == KernelInstance::made(
            match outcome {
                AttrAction::Done { value } => Some(BiasAddKernel { format: value }),
                _ => None,
            },
        ),
{
    match outcome {
        AttrAction::Done { value } => KernelInstance::create(Some(BiasAddKernel { format: value })),
        _ => KernelInstance::create(None),
    }
}

/// Starts a compute call on the instance, if it is live: the first thing to
/// ask for is the stream. An instance that is not live is not run.
pub fn compute(instance: &KernelInstance<BiasAddKernel>) -> (start: Option<
    (BiasAddCompute, KernelAction),
>)
    ensures
        start == if instance is Live {
            Some((BiasAddCompute::AwaitStream, KernelAction::GetStream))
        } else {
            None
        },
{
    match instance.compute() {
        Some(_) => Some(BiasAddCompute::begin()),
        None => None,
    }
}

/// Gives the instance up. Its state is handed back, once, to be released.
pub fn delete(instance: &mut KernelInstance<BiasAddKernel>) -> (state: Option<BiasAddKernel>)
    ensures
        state == old(instance).state(),
        *final(instance) == old(instance).given_up(),
{
    instance.delete()
}

/// The reply that tells a call at `state` that the host failed with
/// `status` at what was asked last.
pub open spec fn failure_reply(state: BiasAddCompute, status: Status) -> ContextReply {
    match state {
        BiasAddCompute::AwaitStream => ContextReply::Stream(Err(status)),
        BiasAddCompute::AwaitOutput => ContextReply::Output(Err(status)),
        _ => ContextReply::Input(Err(status)),
    }
}

/// Whatever the host fails at, the call ends there and hands the host's
/// status on as it came.
pub proof fn lemma_failure_is_forwarded(format: Seq<u8>, state: BiasAddCompute, status: Status)
    requires
        state != BiasAddCompute::Finished,
    ensures
        bias_add_step(format, state, failure_reply(state, status)) == (
            BiasAddCompute::Finished,
            KernelAction::Failure { status },
        ),
{
}

/// A bias that does not fit its input ends the call with a contract
/// violation: no output is asked for and nothing is written. For a bias of
/// one axis that is not as long as the channel axis of the input, the
/// violation is `BiasLength`.
pub proof fn lemma_bias_is_checked(format: Seq<u8>, input: Tensor, bias: Tensor)
    requires
        input_violation(format, input) is None,
        bias.dims@.len() != 1 || bias.dims@[0] != input.dims@[first_index(format, AXIS_C)],
    ensures
        bias_violation(format, input, bias) is Some,
        bias_add_step(
            format,
            BiasAddCompute::AwaitBias { input },
            ContextReply::Input(Ok(bias)),
        ) == (
            BiasAddCompute::Finished,
            KernelAction::Abort { violation: bias_violation(format, input, bias)->0 },
        ),
        bias.dims@.len() == 1 ==> bias_violation(format, input, bias) == Some(
            ContractViolation::BiasLength,
        ),
{
}

/// An input without elements ends the call at once: no output is asked
/// for.
pub proof fn lemma_empty_input_asks_for_nothing(format: Seq<u8>, input: Tensor, bias: Tensor)
    requires
        input_violation(format, input) is None,
        bias_violation(format, input, bias) is None,
        input.element_count == 0,
    ensures
        bias_add_step(
            format,
            BiasAddCompute::AwaitBias { input },
            ContextReply::Input(Ok(bias)),
        ) == (BiasAddCompute::Finished, KernelAction::Done),
{
}

/// Where the call asks for an output, input and bias are such that
/// `bias_add` can run on them: the input has a shape without an empty axis
/// and as many elements as the shape says, the format names its axes, and
/// the bias has one element for each channel. The output is asked for with
/// the input's extents and four bytes for each element.
pub proof fn lemma_output_is_planned(format: Seq<u8>, input: Tensor, bias: Tensor)
    requires
        bias_add_plan(format, input, bias).0 == BiasAddCompute::AwaitOutput,
    ensures
        is_format(format),
        is_positive_shape(input.dims@),
        element_count(input.dims@) == input.element_count,
        bias.element_count == input.dims@[first_index(format, AXIS_C)],
        bias_add_plan(format, input, bias).1 == (KernelAction::AllocateOutput {
            index: 0,
            dims: input.dims,
            len: (input.element_count * 4) as u64,
        }),
        input.element_count * 4 <= u64::MAX,
{
}

} // verus!
