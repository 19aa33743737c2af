//! Reading a string attribute of a kernel from the host.
//!
//! The host hands out an attribute in two steps. Asked for the size, it
//! answers with a pair: the number of entries, which is -1 for an attribute
//! that is no list, and the number of bytes. Asked for the string with room
//! for that many bytes, it fills them in. A [`StringAttr`] leads through the
//! two steps and checks every answer.
use crate::status::{ContractViolation, Status};
use crate::text::nul_terminated;
use vstd::prelude::*;
use vstd::string::StringSliceAdditionalSpecFns;
use vstd::utf8::{encode_utf8, valid_utf8};

verus! {

/// The number of entries that the host reports for an attribute that is no
/// list.
pub const NOT_A_LIST: i32 = -1;

/// What to do next to read the attribute.
#[derive(Debug, PartialEq, Eq)]
pub enum AttrAction {
    /// Ask the host for the size of the attribute `name`.
    GetAttrSize { name: &'static str },
    /// Ask the host for the string of the attribute `name`, with room for
    /// `len` bytes.
    GetAttrString { name: &'static str, len: usize },
    /// Hand `status` on to whoever asked for the attribute. The read ends
    /// here.
    Failure { status: Status },
    /// The attribute is `value`. The read ends here.
    Done { value: String },
    /// The read cannot go on.
    Abort { violation: ContractViolation },
}

/// What the host answered to the last request.
#[derive(Debug, PartialEq, Eq)]
pub enum AttrReply {
    /// The answer to `GetAttrSize`: the number of entries and the number of
    /// bytes.
    Size(Result<(i32, i32), Status>),
    /// The answer to `GetAttrString`: the bytes that the host filled in.
    Bytes(Result<Vec<u8>, Status>),
}

impl AttrReply {
    /// The answer to `GetAttrSize`, from what the host's call left: the
    /// status, the number of entries and the number of bytes. The numbers
    /// count only where the status reports success.
    pub fn get_attr_size(status: Status, list_size: i32, total_size: i32) -> (reply: AttrReply)
        ensures
            reply == AttrReply::Size(
                if status.ok() {
                    Ok((list_size, total_size))
                } else {
                    Err(status)
                },
            ),
    {
        AttrReply::Size(status.into_result((list_size, total_size)))
    }

    /// The answer to `GetAttrString`, from what the host's call left: the
    /// status, and the bytes that the host filled in. The bytes count only
    /// where the status reports success.
    pub fn get_attr_string(status: Status, bytes: Vec<u8>) -> (reply: AttrReply)
        ensures
            reply == AttrReply::Bytes(
                if status.ok() {
                    Ok(bytes)
                } else {
                    Err(status)
                },
            ),
    {
        AttrReply::Bytes(status.into_result(bytes))
    }
}

/// Where the read of a string attribute stands.
#[derive(Debug, Clone, Copy, PartialEq, Eq)]
pub enum StringAttr {
    /// The size of the attribute `name` was asked for.
    AwaitSize { name: &'static str },
    /// The `len` bytes of the attribute `name` were asked for.
    AwaitBytes { name: &'static str, len: usize },
    /// The read has ended.
    Finished,
}

/// What the size that the host reports says of a string attribute: an
/// attribute that is a list, or whose length is negative, cannot be read as
/// one string.
pub open spec fn size_violation(list_size: i32, total_size: i32) -> Option<ContractViolation> {
    if list_size != NOT_A_LIST {
        Some(ContractViolation::ListAttribute)
    } else if total_size < 0 {
        Some(ContractViolation::AttributeLength)
    } else {
        None
    }
}

/// What the read does when the host's answer to a request for `len` bytes
/// came back with success and holds `bytes`.
pub open spec fn bytes_step(len: usize, bytes: Vec<u8>, action: AttrAction) -> bool {
    if bytes@.len() != len {
        action == (AttrAction::Abort { violation: ContractViolation::AttributeLength })
    } else if !valid_utf8(bytes@) {
        action == (AttrAction::Abort { violation: ContractViolation::Encoding })
    } else {
        action matches AttrAction::Done { value } && encode_utf8(value@) == bytes@
    }
}

/// Whether `next` is what the read does when `reply` comes in at `state`.
///
/// A failure that the host reports is handed on and ends the read.
pub open spec fn attr_step(state: StringAttr, reply: AttrReply, next: (StringAttr, AttrAction)) -> bool {
    match (state, reply) {
        (StringAttr::AwaitSize { name }, AttrReply::Size(Ok((list_size, total_size)))) => {
            if let Some(violation) = size_violation(list_size, total_size) {
                next == (StringAttr::Finished, AttrAction::Abort { violation })
            } else {
                next == (
                    StringAttr::AwaitBytes { name, len: total_size as usize },
                    AttrAction::GetAttrString { name, len: total_size as usize },
                )
            }
        },
        (StringAttr::AwaitSize { name }, AttrReply::Size(Err(status))) => next == (
            StringAttr::Finished,
            AttrAction::Failure { status },
        ),
        (StringAttr::AwaitBytes { name, len }, AttrReply::Bytes(Ok(bytes))) => next.0
            == StringAttr::Finished && bytes_step(len, bytes, next.1),
        (StringAttr::AwaitBytes { name, len }, AttrReply::Bytes(Err(status))) => next == (
            StringAttr::Finished,
            AttrAction::Failure { status },
        ),
        _ => next == (
            StringAttr::Finished,
            AttrAction::Abort { violation: ContractViolation::Reply },
        ),
    }
}

impl StringAttr {
    /// Starts the read of the attribute `attr_name`: the first thing to ask
    /// for is its size.
    pub fn begin(attr_name: &'static str) -> (start: (StringAttr, AttrAction))
        requires
            nul_terminated(attr_name.spec_bytes()),
        ensures
            start == (
                StringAttr::AwaitSize { name: attr_name },
                AttrAction::GetAttrSize { name: attr_name },
            ),
    {
        (StringAttr::AwaitSize { name: attr_name }, AttrAction::GetAttrSize { name: attr_name })
    }

    /// Takes the host's answer to the last request and says what to do next.
    pub fn step(self, reply: AttrReply) -> (next: (StringAttr, AttrAction))
        ensures
            attr_step(self, reply, next),
    {
        match (self, reply) {
            (StringAttr::AwaitSize { name }, AttrReply::Size(Ok((list_size, total_size)))) => {
                if list_size != NOT_A_LIST {
                    (
                        StringAttr::Finished,
                        AttrAction::Abort { violation: ContractViolation::ListAttribute },
                    )
                } else if total_size < 0 {
                    (
                        StringAttr::Finished,
                        AttrAction::Abort { violation: ContractViolation::AttributeLength },
                    )
                } else {
                    let len = total_size as usize;
                    (StringAttr::AwaitBytes { name, len }, AttrAction::GetAttrString { name, len })
                }
            },
            (StringAttr::AwaitSize { name }, AttrReply::Size(Err(status))) => (
                StringAttr::Finished,
                AttrAction::Failure { status },
            ),
            (StringAttr::AwaitBytes { name, len }, AttrReply::Bytes(Ok(bytes))) => {
                if bytes.len() != len {
                    (
                        StringAttr::Finished,
                        AttrAction::Abort { violation: ContractViolation::AttributeLength },
                    )
                } else {
                    match string_from_utf8(bytes) {
                        Some(value) => (StringAttr::Finished, AttrAction::Done { value }),
                        None => (
                            StringAttr::Finished,
                            AttrAction::Abort { violation: ContractViolation::Encoding },
                        ),
                    }
                }
            },
            (StringAttr::AwaitBytes { name, len }, AttrReply::Bytes(Err(status))) => (
                StringAttr::Finished,
                AttrAction::Failure { status },
            ),
            _ => (
                StringAttr::Finished,
                AttrAction::Abort { violation: ContractViolation::Reply },
            ),
        }
    }
}

/// `String::from_utf8` of the standard library. Trusted: the call gives a
/// string exactly when the bytes are valid UTF-8, and the string then is
/// made of those very bytes.
#[verifier::external_body]
fn string_from_utf8(bytes: Vec<u8>) -> (text: Option<String>)
    ensures
        text is Some <==> valid_utf8(bytes@),
        text is Some ==> encode_utf8(text->0@) == bytes@,
{
    match String::from_utf8(bytes) {
        Ok(text) => Some(text),
        Err(_) => None,
    }
}

} // verus!
