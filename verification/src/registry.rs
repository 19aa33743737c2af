//! The kernel registry: how a kernel is described, and how its description
//! is handed to the host.
//!
//! A [`KernelBuilder`] gathers the description: three names, the element
//! types that the kernel requires of its attributes, and what to call when an
//! instance is made, run and given up. Registering is a conversation with the
//! host, which a [`Registration`] leads: it names each request in turn and
//! takes the host's answer, and it stops at the first refusal.
use crate::find::{first_index, lemma_first_index, lemma_first_index_is};
use crate::status::Status;
use crate::text::{nul_terminated, same_text};
use vstd::prelude::*;
use vstd::string::StringSliceAdditionalSpecFns;

verus! {

/// The element type of single-precision numbers.
pub const TF_FLOAT: u32 = 1;

/// The attribute that names the element type of a kernel's tensors.
pub const TYPE_CONSTRAINT_T: &'static str = "T\0";

/// What a kernel builder holds, as mathematics: names as bytes, and the
/// constraints in the order in which their attributes first came.
pub struct KernelDescriptor<C, P, D> {
    pub kernel_name: Seq<u8>,
    pub op_name: Seq<u8>,
    pub device_type: Seq<u8>,
    pub constraints: Seq<(Seq<u8>, u32)>,
    pub create_fn: Option<C>,
    pub compute_fn: Option<P>,
    pub delete_fn: Option<D>,
}

/// The attribute names of a list of constraints.
pub open spec fn constraint_names(constraints: Seq<(Seq<u8>, u32)>) -> Seq<Seq<u8>> {
    constraints.map_values(|c: (Seq<u8>, u32)| c.0)
}

/// The element type that a list of constraints requires of each attribute
/// it names.
pub open spec fn required_types(constraints: Seq<(Seq<u8>, u32)>) -> Map<Seq<u8>, u32> {
    Map::new(
        |name: Seq<u8>| constraint_names(constraints).contains(name),
        |name: Seq<u8>| constraints[first_index(constraint_names(constraints), name)].1,
    )
}

/// The constraints after `name` is required to be `dtype`: a constraint on
/// `name` that is there already is overwritten in place, a new one goes to
/// the end.
pub open spec fn with_constraint(constraints: Seq<(Seq<u8>, u32)>, name: Seq<u8>, dtype: u32) -> Seq<
    (Seq<u8>, u32),
> {
    let at = first_index(constraint_names(constraints), name);
    if at < constraints.len() {
        constraints.update(at, (name, dtype))
    } else {
        constraints.push((name, dtype))
    }
}

/// Whether no attribute is named twice and every name ends with a NUL.
pub open spec fn constraints_wf(constraints: Seq<(Seq<u8>, u32)>) -> bool {
    &&& forall|i: int| 0 <= i < constraints.len() ==> nul_terminated(#[trigger] constraints[i].0)
    &&& forall|i: int, j: int|
        0 <= i < j < constraints.len() ==> #[trigger] constraints[i].0 != #[trigger] constraints[j].0
}

impl<C, P, D> KernelDescriptor<C, P, D> {
    /// Whether the descriptor is one that the host can read: every name ends
    /// with a NUL, and no attribute is constrained twice.
    pub open spec fn wf(self) -> bool {
        &&& nul_terminated(self.kernel_name)
        &&& nul_terminated(self.op_name)
        &&& nul_terminated(self.device_type)
        &&& constraints_wf(self.constraints)
    }
}

/// Adding a constraint keeps the list well-formed, and in the mapping from
/// attribute to element type it sets `name` to `dtype` and changes nothing
/// else.
pub proof fn lemma_with_constraint(constraints: Seq<(Seq<u8>, u32)>, name: Seq<u8>, dtype: u32)
    requires
        constraints_wf(constraints),
        nul_terminated(name),
    ensures
        constraints_wf(with_constraint(constraints, name, dtype)),
        required_types(with_constraint(constraints, name, dtype)) == required_types(
            constraints,
        ).insert(name, dtype),
{
    let names = constraint_names(constraints);
    let after = with_constraint(constraints, name, dtype);
    let names_after = constraint_names(after);
    let at = first_index(names, name);
    lemma_first_index(names, name);
    if at < constraints.len() {
        assert(names_after =~= names);
    } else {
        assert(names_after =~= names.push(name));
        assert forall|i: int, j: int| 0 <= i < j < after.len() implies #[trigger] after[i].0
            != #[trigger] after[j].0 by {
            if j == constraints.len() {
                assert(names[i] == constraints[i].0);
            }
        }
    }
    assert forall|other: Seq<u8>| #[trigger]
        required_types(after).dom().contains(other) == required_types(constraints).insert(
            name,
            dtype,
        ).dom().contains(other) by {
        if names_after.contains(other) {
            let k = choose|k: int| 0 <= k < names_after.len() && names_after[k] == other;
            if k < names.len() && other != name {
                assert(names[k] == other);
            }
        }
        if names.contains(other) {
            let k = choose|k: int| 0 <= k < names.len() && names[k] == other;
            assert(names_after[k] == other);
        }
        if other == name {
            if at < constraints.len() {
                assert(names_after[at] == name);
            } else {
                assert(names_after[constraints.len() as int] == name);
            }
        }
    }
    assert forall|other: Seq<u8>| #[trigger]
        required_types(after).dom().contains(other) implies required_types(after)[other]
        == required_types(constraints).insert(name, dtype)[other] by {
        lemma_first_index(names_after, other);
        lemma_first_index(names, other);
        let k = first_index(names_after, other);
        if other == name {
            if at < constraints.len() {
                lemma_first_index_is(names_after, name, at);
            } else {
                lemma_first_index_is(names_after, name, constraints.len() as int);
            }
        } else {
            assert(names_after[k] == other);
            assert(k < names.len());
            assert(names[k] == other);
            lemma_first_index_is(names, other, k);
        }
    }
    assert(required_types(after) =~= required_types(constraints).insert(name, dtype));
}

/// The description of a kernel, as it is gathered before it is registered.
///
/// `C`, `P` and `D` are the types of what the host is to call to make an
/// instance, to run it and to give it up. The builder only carries them.
pub struct KernelBuilder<C, P, D> {
    kernel_name: &'static str,
    op_name: &'static str,
    device_type: &'static str,
    constraints: Vec<(&'static str, u32)>,
    create_fn: Option<C>,
    compute_fn: Option<P>,
    delete_fn: Option<D>,
}

/// The bytes of each attribute name, beside its element type.
pub open spec fn constraint_bytes(constraints: Seq<(&'static str, u32)>) -> Seq<(Seq<u8>, u32)> {
    constraints.map_values(|c: (&'static str, u32)| (c.0.spec_bytes(), c.1))
}

impl<C, P, D> View for KernelBuilder<C, P, D> {
    type V = KernelDescriptor<C, P, D>;

    closed spec fn view(&self) -> KernelDescriptor<C, P, D> {
        KernelDescriptor {
            kernel_name: self.kernel_name.spec_bytes(),
            op_name: self.op_name.spec_bytes(),
            device_type: self.device_type.spec_bytes(),
            constraints: constraint_bytes(self.constraints@),
            create_fn: self.create_fn,
            compute_fn: self.compute_fn,
            delete_fn: self.delete_fn,
        }
    }
}

impl<C, P, D> KernelBuilder<C, P, D> {
    #[verifier::type_invariant]
    spec fn inv(&self) -> bool {
        self@.wf()
    }

    /// Starts the description of a kernel: no constraint yet, and nothing to
    /// call.
    pub fn new(kernel_name: &'static str, op_name: &'static str, device_type: &'static str) -> (builder:
        Self)
        requires
            nul_terminated(kernel_name.spec_bytes()),
            nul_terminated(op_name.spec_bytes()),
            nul_terminated(device_type.spec_bytes()),
        ensures
            builder@ == (KernelDescriptor::<C, P, D> {
                kernel_name: kernel_name.spec_bytes(),
                op_name: op_name.spec_bytes(),
                device_type: device_type.spec_bytes(),
                constraints: Seq::empty(),
                create_fn: None,
                compute_fn: None,
                delete_fn: None,
            }),
            builder@.wf(),
    {
        let builder = KernelBuilder {
            kernel_name,
            op_name,
            device_type,
            constraints: Vec::new(),
            create_fn: None,
            compute_fn: None,
            delete_fn: None,
        };
        assert(builder@.constraints =~= Seq::empty());
        builder
    }

    /// Requires the attribute `name` to be of the element type `dt`. A
    /// constraint on the same attribute that was made before is overwritten.
    #[verifier::loop_isolation(false)]
    pub fn constraint(self, name: &'static str, dt: u32) -> (builder: Self)
        requires
            nul_terminated(name.spec_bytes()),
        ensures
            builder@ == (KernelDescriptor {
                constraints: with_constraint(self@.constraints, name.spec_bytes(), dt),
                ..self@
            }),
            builder@.wf(),
    {
        proof {
            use_type_invariant(&self);
            lemma_with_constraint(self@.constraints, name.spec_bytes(), dt);
        }
        let ghost before = self@.constraints;
        let ghost names = constraint_names(before);
        let KernelBuilder {
            kernel_name,
            op_name,
            device_type,
            mut constraints,
            create_fn,
            compute_fn,
            delete_fn,
        } = self;
        let mut i: usize = 0;
        while i < constraints.len()
            invariant
                before == constraint_bytes(constraints@),
                0 <= i <= constraints@.len(),
                forall|j: int| 0 <= j < i ==> names[j] != name.spec_bytes(),
            decreases constraints@.len() - i,
        {
            if same_text(constraints[i].0, name) {
                proof {
                    lemma_first_index_is(names, name.spec_bytes(), i as int);
                }
                let ghost old_constraints = constraints@;
                constraints[i] = (name, dt);
                proof {
                    let after = constraint_bytes(constraints@);
                    let expected = before.update(i as int, (name.spec_bytes(), dt));
                    assert(constraints@ == old_constraints.update(i as int, (name, dt)));
                    assert forall|j: int| 0 <= j < after.len() implies after[j] == expected[j] by {
                        if j != i {
                            assert(constraints@[j] == old_constraints[j]);
                        }
                    }
                    assert(after =~= expected);
                }
                return KernelBuilder {
                    kernel_name,
                    op_name,
                    device_type,
                    constraints,
                    create_fn,
                    compute_fn,
                    delete_fn,
                };
            }
            i += 1;
        }
        proof {
            lemma_first_index(names, name.spec_bytes());
        }
        constraints.push((name, dt));
        assert(constraint_bytes(constraints@) =~= with_constraint(before, name.spec_bytes(), dt));
        KernelBuilder {
            kernel_name,
            op_name,
            device_type,
            constraints,
            create_fn,
            compute_fn,
            delete_fn,
        }
    }

    /// Sets what the host calls to make an instance of the kernel.
    pub fn create(self, function: C) -> (builder: Self)
        ensures
            builder@ == (KernelDescriptor { create_fn: Some(function), ..self@ }),
            builder@.wf(),
    {
        proof {
            use_type_invariant(&self);
        }
        KernelBuilder {
            kernel_name: self.kernel_name,
            op_name: self.op_name,
            device_type: self.device_type,
            constraints: self.constraints,
            create_fn: Some(function),
            compute_fn: self.compute_fn,
            delete_fn: self.delete_fn,
        }
    }

    /// Sets what the host calls to run an instance of the kernel.
    pub fn compute(self, function: P) -> (builder: Self)
        ensures
            builder@ == (KernelDescriptor { compute_fn: Some(function), ..self@ }),
            builder@.wf(),
    {
        proof {
            use_type_invariant(&self);
        }
        KernelBuilder {
            kernel_name: self.kernel_name,
            op_name: self.op_name,
            device_type: self.device_type,
            constraints: self.constraints,
            create_fn: self.create_fn,
            compute_fn: Some(function),
            delete_fn: self.delete_fn,
        }
    }

    /// Sets what the host calls to give up an instance of the kernel.
    pub fn delete(self, function: D) -> (builder: Self)
        ensures
            builder@ == (KernelDescriptor { delete_fn: Some(function), ..self@ }),
            builder@.wf(),
    {
        proof {
            use_type_invariant(&self);
        }
        KernelBuilder {
            kernel_name: self.kernel_name,
            op_name: self.op_name,
            device_type: self.device_type,
            constraints: self.constraints,
            create_fn: self.create_fn,
            compute_fn: self.compute_fn,
            delete_fn: Some(function),
        }
    }
}

/// How a registration ended.
#[derive(Debug, Clone, Copy, PartialEq, Eq)]
pub enum RegistrationOutcome {
    /// The host took every constraint and the kernel.
    Registered,
    /// The host refused the constraint at `index`. The kernel was not
    /// registered.
    ConstraintRejected { index: usize },
    /// The host took every constraint and refused the kernel.
    RegistrationRejected,
}

/// What to ask of the host next.
#[derive(Debug, Clone, Copy, PartialEq, Eq)]
pub enum RegistrationRequest {
    /// Require the attribute `name` to be of the element type `dtype`.
    TypeConstraint { name: &'static str, dtype: u32 },
    /// Register the kernel for the operation `op_name`.
    RegisterKernel { op_name: &'static str },
    /// Nothing: the registration has ended.
    Nothing,
}

/// Where a registration stands, as mathematics: the description, the number
/// of constraints that the host took, and the outcome once there is one.
pub struct RegistrationState<C, P, D> {
    pub descriptor: KernelDescriptor<C, P, D>,
    pub applied: nat,
    pub outcome: Option<RegistrationOutcome>,
}

impl<C, P, D> RegistrationState<C, P, D> {
    /// The state before anything was asked.
    pub open spec fn start(descriptor: KernelDescriptor<C, P, D>) -> Self {
        RegistrationState { descriptor, applied: 0, outcome: None }
    }

    /// Whether the state can come up: the outcome fits the number of
    /// constraints that the host took.
    pub open spec fn wf(self) -> bool {
        &&& self.descriptor.wf()
        &&& self.descriptor.constraints.len() <= usize::MAX
        &&& self.applied <= self.descriptor.constraints.len()
        &&& match self.outcome {
            None => true,
            Some(RegistrationOutcome::ConstraintRejected { index }) => index == self.applied
                && self.applied < self.descriptor.constraints.len(),
            Some(_) => self.applied == self.descriptor.constraints.len(),
        }
    }

    /// The state after the host answered the pending request, with success
    /// where `ok` holds. A refusal ends the registration; an answer after the
    /// end changes nothing.
    pub open spec fn after(self, ok: bool) -> Self {
        if self.outcome is Some {
            self
        } else if self.applied < self.descriptor.constraints.len() {
            if ok {
                RegistrationState { applied: self.applied + 1, ..self }
            } else {
                RegistrationState {
                    outcome: Some(
                        RegistrationOutcome::ConstraintRejected { index: self.applied as usize },
                    ),
                    ..self
                }
            }
        } else if ok {
            RegistrationState { outcome: Some(RegistrationOutcome::Registered), ..self }
        } else {
            RegistrationState { outcome: Some(RegistrationOutcome::RegistrationRejected), ..self }
        }
    }

    /// The state after the host gave the answers `replies`, one after
    /// another.
    pub open spec fn after_all(self, replies: Seq<bool>) -> Self
        decreases replies.len(),
    {
        if replies.len() == 0 {
            self
        } else {
            self.after(replies[0]).after_all(replies.drop_first())
        }
    }
}

/// How the registration of a kernel with `count` constraints ends when the
/// host answers `replies`: at the first refusal, if there is one among the
/// answers that count; else, if the answers do not reach the registering
/// itself, not yet.
pub open spec fn registration_outcome(count: nat, replies: Seq<bool>) -> Option<
    RegistrationOutcome,
> {
    let refused = first_index(replies, false);
    if refused < count && refused < replies.len() {
        Some(RegistrationOutcome::ConstraintRejected { index: refused as usize })
    } else if replies.len() > count {
        Some(
            if replies[count as int] {
                RegistrationOutcome::Registered
            } else {
                RegistrationOutcome::RegistrationRejected
            },
        )
    } else {
        None
    }
}

/// The outcome `outcome`, with the constraint it names, if it names one,
/// counted from `by` constraints earlier.
spec fn shifted(outcome: Option<RegistrationOutcome>, by: nat) -> Option<RegistrationOutcome> {
    match outcome {
        Some(RegistrationOutcome::ConstraintRejected { index }) => Some(
            RegistrationOutcome::ConstraintRejected { index: (index + by) as usize },
        ),
        other => other,
    }
}

proof fn lemma_after_end<C, P, D>(state: RegistrationState<C, P, D>, replies: Seq<bool>)
    requires
        state.outcome is Some,
    ensures
        state.after_all(replies) == state,
    decreases replies.len(),
{
    if replies.len() > 0 {
        lemma_after_end(state, replies.drop_first());
    }
}

proof fn lemma_after_all<C, P, D>(state: RegistrationState<C, P, D>, replies: Seq<bool>)
    requires
        state.wf(),
        state.outcome is None,
    ensures
        state.after_all(replies).wf(),
        state.after_all(replies).descriptor == state.descriptor,
        state.after_all(replies).outcome == shifted(
            registration_outcome(
                (state.descriptor.constraints.len() - state.applied) as nat,
                replies,
            ),
            state.applied,
        ),
    decreases replies.len(),
{
    let left = (state.descriptor.constraints.len() - state.applied) as nat;
    if replies.len() > 0 {
        let rest = replies.drop_first();
        let next = state.after(replies[0]);
        lemma_first_index(replies, false);
        lemma_first_index(rest, false);
        if next.outcome is Some {
            lemma_after_end(next, rest);
        } else {
            lemma_after_all(next, rest);
            if 1 <= left < replies.len() {
                assert(replies[left as int] == rest[left - 1]);
            }
        }
    }
}

/// A registration never changes the description it was started with, and it
/// ends as `registration_outcome` says of the host's answers.
pub proof fn lemma_registration<C, P, D>(descriptor: KernelDescriptor<C, P, D>, replies: Seq<bool>)
    requires
        descriptor.wf(),
        descriptor.constraints.len() <= usize::MAX,
    ensures
        RegistrationState::start(descriptor).after_all(replies).descriptor == descriptor,
        RegistrationState::start(descriptor).after_all(replies).outcome == registration_outcome(
            descriptor.constraints.len(),
            replies,
        ),
{
    lemma_after_all(RegistrationState::start(descriptor), replies);
    lemma_first_index(replies, false);
}

/// Two kernels may share an operation name and a set of constraints. Their
/// registrations do not touch each other: each keeps its own description
/// whatever the host answers to either, and each ends as the answers to
/// itself say, whether or not the other was refused.
pub proof fn lemma_registrations_are_independent<C, P, D>(
    first: KernelDescriptor<C, P, D>,
    second: KernelDescriptor<C, P, D>,
    first_replies: Seq<bool>,
    second_replies: Seq<bool>,
)
    requires
        first.wf(),
        second.wf(),
        first.constraints.len() <= usize::MAX,
        first.op_name == second.op_name,
        first.constraints == second.constraints,
    ensures
        RegistrationState::start(first).after_all(first_replies).descriptor == first,
        RegistrationState::start(second).after_all(second_replies).descriptor == second,
        RegistrationState::start(first).after_all(first_replies).outcome == registration_outcome(
            first.constraints.len(),
            first_replies,
        ),
        RegistrationState::start(second).after_all(second_replies).outcome
            == registration_outcome(second.constraints.len(), second_replies),
{
    lemma_registration(first, first_replies);
    lemma_registration(second, second_replies);
}

/// The registration of one kernel.
pub struct Registration<C, P, D> {
    builder: KernelBuilder<C, P, D>,
    applied: usize,
    outcome: Option<RegistrationOutcome>,
}

impl<C, P, D> View for Registration<C, P, D> {
    type V = RegistrationState<C, P, D>;

    closed spec fn view(&self) -> RegistrationState<C, P, D> {
        RegistrationState {
            descriptor: self.builder@,
            applied: self.applied as nat,
            outcome: self.outcome,
        }
    }
}

impl<C, P, D> KernelBuilder<C, P, D> {
    /// Ends the description and starts its registration.
    pub fn register(self) -> (registration: Registration<C, P, D>)
        ensures
            registration@ == RegistrationState::start(self@),
            registration@.wf(),
    {
        proof {
            use_type_invariant(&self);
            assert(self.constraints@.len() == self.constraints.len());
        }
        Registration { builder: self, applied: 0, outcome: None }
    }

    /// The name that the kernel is registered under.
    pub fn kernel_name(&self) -> (name: &'static str)
        ensures
            name.spec_bytes() == self@.kernel_name,
    {
        self.kernel_name
    }

    /// The name of the operation that the kernel computes.
    pub fn op_name(&self) -> (name: &'static str)
        ensures
            name.spec_bytes() == self@.op_name,
    {
        self.op_name
    }

    /// The type of device that the kernel runs on.
    pub fn device_type(&self) -> (name: &'static str)
        ensures
            name.spec_bytes() == self@.device_type,
    {
        self.device_type
    }

    /// What the host calls to make an instance, if anything.
    pub fn create_fn(&self) -> (function: &Option<C>)
        ensures
            *function == self@.create_fn,
    {
        &self.create_fn
    }

    /// What the host calls to run an instance, if anything.
    pub fn compute_fn(&self) -> (function: &Option<P>)
        ensures
            *function == self@.compute_fn,
    {
        &self.compute_fn
    }

    /// What the host calls to give up an instance, if anything.
    pub fn delete_fn(&self) -> (function: &Option<D>)
        ensures
            *function == self@.delete_fn,
    {
        &self.delete_fn
    }
}

impl<C, P, D> Registration<C, P, D> {
    #[verifier::type_invariant]
    spec fn inv(&self) -> bool {
        self@.wf()
    }

    /// The description that is being registered.
    pub fn builder(&self) -> (builder: &KernelBuilder<C, P, D>)
        ensures
            builder@ == self@.descriptor,
            builder@.wf(),
    {
        proof {
            use_type_invariant(self);
        }
        &self.builder
    }

    /// How the registration ended, once it has.
    pub fn outcome(&self) -> (outcome: Option<RegistrationOutcome>)
        ensures
            outcome == self@.outcome,
    {
        self.outcome
    }

    /// What to ask of the host next: the constraints in their order, then
    /// the kernel itself, and nothing once the registration has ended.
    pub fn request(&self) -> (request: RegistrationRequest)
        ensures
            self@.wf(),
            match request {
                RegistrationRequest::TypeConstraint { name, dtype } => {
                    &&& self@.outcome is None
                    &&& self@.applied < self@.descriptor.constraints.len()
                    &&& (name.spec_bytes(), dtype) == self@.descriptor.constraints[self@.applied as int]
                },
                RegistrationRequest::RegisterKernel { op_name } => {
                    &&& self@.outcome is None
                    &&& self@.applied == self@.descriptor.constraints.len()
                    &&& op_name.spec_bytes() == self@.descriptor.op_name
                },
                RegistrationRequest::Nothing => self@.outcome is Some,
            },
    {
        proof {
            use_type_invariant(self);
        }
        if self.outcome.is_some() {
            RegistrationRequest::Nothing
        } else if self.applied < self.builder.constraints.len() {
            let (name, dtype) = self.builder.constraints[self.applied];
            RegistrationRequest::TypeConstraint { name, dtype }
        } else {
            RegistrationRequest::RegisterKernel { op_name: self.builder.op_name }
        }
    }

    /// Takes the host's answer to the pending request.
    pub fn reply(&mut self, status: &Status)
        ensures
            final(self)@ == old(self)@.after(status.ok()),
            final(self)@.wf(),
    {
        proof {
            use_type_invariant(&*self);
        }
        if self.outcome.is_some() {
        } else if self.applied < self.builder.constraints.len() {
            if status.is_ok() {
                self.applied = self.applied + 1;
            } else {
                self.outcome = Some(RegistrationOutcome::ConstraintRejected { index: self.applied });
            }
        } else if status.is_ok() {
            self.outcome = Some(RegistrationOutcome::Registered);
        } else {
            self.outcome = Some(RegistrationOutcome::RegistrationRejected);
        }
    }
}

} // verus!
