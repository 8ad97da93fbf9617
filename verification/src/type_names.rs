//! Rendering of ROS 2 type names to the DDS type strings of the wire:
//! `pkg::msg::dds_::Type_` for messages, `pkg::srv::dds_::Type_Request_`
//! and `..._Response_` for the two halves of a service, and the
//! `pkg::action::dds_::Type...` family for the services and topics an
//! action is built from.

use vstd::prelude::*;
use crate::names::append_bytes;

verus! {

pub const B_COLON: u8 = 58;
pub const B_LOW_LINE: u8 = 95;

/// `::<category>::dds_::` — the separator between package and type.
pub open spec fn spec_dds_infix(category: Seq<u8>) -> Seq<u8> {
    seq![B_COLON, B_COLON] + category + seq![B_COLON, B_COLON, 100u8, 100u8, 115u8, B_LOW_LINE,
        B_COLON, B_COLON]
}

/// `<pkg>::<category>::dds_::<type><suffix>`.
pub open spec fn spec_dds_type(
    package: Seq<u8>,
    category: Seq<u8>,
    typename: Seq<u8>,
    suffix: Seq<u8>,
) -> Seq<u8> {
    package + spec_dds_infix(category) + typename + suffix
}

pub open spec fn spec_msg_category() -> Seq<u8> {
    seq![109u8, 115u8, 103u8]  // msg
}

pub open spec fn spec_srv_category() -> Seq<u8> {
    seq![115u8, 114u8, 118u8]  // srv
}

pub open spec fn spec_action_category() -> Seq<u8> {
    seq![97u8, 99u8, 116u8, 105u8, 111u8, 110u8]  // action
}

/// `_Request_`
pub open spec fn spec_request_suffix() -> Seq<u8> {
    seq![B_LOW_LINE, 82u8, 101u8, 113u8, 117u8, 101u8, 115u8, 116u8, B_LOW_LINE]
}

/// `_Response_`
pub open spec fn spec_response_suffix() -> Seq<u8> {
    seq![B_LOW_LINE, 82u8, 101u8, 115u8, 112u8, 111u8, 110u8, 115u8, 101u8, B_LOW_LINE]
}

fn push_dds_infix(out: &mut Vec<u8>, category: &Vec<u8>)
    ensures
        final(out)@ == old(out)@ + spec_dds_infix(category@),
{
    out.push(B_COLON);
    out.push(B_COLON);
    append_bytes(out, category);
    out.push(B_COLON);
    out.push(B_COLON);
    out.push(100);
    out.push(100);
    out.push(115);
    out.push(B_LOW_LINE);
    out.push(B_COLON);
    out.push(B_COLON);
    proof {
        assert(out@ =~= old(out)@ + spec_dds_infix(category@));
    }
}

fn push_request_suffix(out: &mut Vec<u8>)
    ensures
        final(out)@ == old(out)@ + spec_request_suffix(),
{
    out.push(B_LOW_LINE);
    out.push(82);
    out.push(101);
    out.push(113);
    out.push(117);
    out.push(101);
    out.push(115);
    out.push(116);
    out.push(B_LOW_LINE);
    proof {
        assert(out@ =~= old(out)@ + spec_request_suffix());
    }
}

fn push_response_suffix(out: &mut Vec<u8>)
    ensures
        final(out)@ == old(out)@ + spec_response_suffix(),
{
    out.push(B_LOW_LINE);
    out.push(82);
    out.push(101);
    out.push(115);
    out.push(112);
    out.push(111);
    out.push(110);
    out.push(115);
    out.push(101);
    out.push(B_LOW_LINE);
    proof {
        assert(out@ =~= old(out)@ + spec_response_suffix());
    }
}

/// The name of a message type: package plus type, rendered under a category
/// (`msg` for plain messages, `action` for the topics of an action).
#[derive(Clone, Debug)]
pub struct MessageTypeName {
    pub package: Vec<u8>,
    pub category: Vec<u8>,
    pub typename: Vec<u8>,
}

impl MessageTypeName {
    pub fn new(package: Vec<u8>, typename: Vec<u8>) -> (r: MessageTypeName)
        ensures
            r.package@ == package@,
            r.category@ == spec_msg_category(),
            r.typename@ == typename@,
    {
        let mut category: Vec<u8> = Vec::new();
        category.push(109);
        category.push(115);
        category.push(103);
        proof {
            assert(category@ =~= spec_msg_category());
        }
        MessageTypeName { package, category, typename }
    }

    /// `<pkg>::<category>::dds_::<Type>_`
    pub fn dds_msg_type(&self) -> (r: Vec<u8>)
        ensures
            r@ == spec_dds_type(self.package@, self.category@, self.typename@,
                seq![B_LOW_LINE]),
    {
        let mut out: Vec<u8> = Vec::new();
        append_bytes(&mut out, &self.package);
        push_dds_infix(&mut out, &self.category);
        append_bytes(&mut out, &self.typename);
        out.push(B_LOW_LINE);
        proof {
            assert(out@ =~= spec_dds_type(self.package@, self.category@, self.typename@,
                seq![B_LOW_LINE]));
        }
        out
    }
}

/// The name of a service type: renders the request and response halves.
#[derive(Clone, Debug)]
pub struct ServiceTypeName {
    pub package: Vec<u8>,
    pub category: Vec<u8>,
    pub typename: Vec<u8>,
}

impl ServiceTypeName {
    pub fn new(package: Vec<u8>, typename: Vec<u8>) -> (r: ServiceTypeName)
        ensures
            r.package@ == package@,
            r.category@ == spec_srv_category(),
            r.typename@ == typename@,
    {
        let mut category: Vec<u8> = Vec::new();
        category.push(115);
        category.push(114);
        category.push(118);
        proof {
            assert(category@ =~= spec_srv_category());
        }
        ServiceTypeName { package, category, typename }
    }

    /// `<pkg>::<category>::dds_::<Type>_Request_`
    pub fn dds_request_type(&self) -> (r: Vec<u8>)
        ensures
            r@ == spec_dds_type(self.package@, self.category@, self.typename@,
                spec_request_suffix()),
    {
        let mut out: Vec<u8> = Vec::new();
        append_bytes(&mut out, &self.package);
        push_dds_infix(&mut out, &self.category);
        append_bytes(&mut out, &self.typename);
        push_request_suffix(&mut out);
        proof {
            assert(out@ =~= spec_dds_type(self.package@, self.category@, self.typename@,
                spec_request_suffix()));
        }
        out
    }

    /// `<pkg>::<category>::dds_::<Type>_Response_`
    pub fn dds_response_type(&self) -> (r: Vec<u8>)
        ensures
            r@ == spec_dds_type(self.package@, self.category@, self.typename@,
                spec_response_suffix()),
    {
        let mut out: Vec<u8> = Vec::new();
        append_bytes(&mut out, &self.package);
        push_dds_infix(&mut out, &self.category);
        append_bytes(&mut out, &self.typename);
        push_response_suffix(&mut out);
        proof {
            assert(out@ =~= spec_dds_type(self.package@, self.category@, self.typename@,
                spec_response_suffix()));
        }
        out
    }
}

/// The name of an action type. The services and topics an action is built
/// from take their DDS types from this name under the `action` category.
#[derive(Clone, Debug)]
pub struct ActionTypeName {
    pub package: Vec<u8>,
    pub typename: Vec<u8>,
}

impl ActionTypeName {
    pub fn new(package: Vec<u8>, typename: Vec<u8>) -> (r: ActionTypeName)
        ensures
            r.package@ == package@,
            r.typename@ == typename@,
    {
        ActionTypeName { package, typename }
    }

    /// The service type of one of the action's inner services: the given
    /// infix (`_SendGoal`, `_GetResult`) extends the type name, under the
    /// `action` category.
    pub fn dds_action_service(&self, infix: &Vec<u8>) -> (r: ServiceTypeName)
        ensures
            r.package@ == self.package@,
            r.category@ == spec_action_category(),
            r.typename@ == self.typename@ + infix@,
    {
        let mut category: Vec<u8> = Vec::new();
        category.push(97);
        category.push(99);
        category.push(116);
        category.push(105);
        category.push(111);
        category.push(110);
        let mut tn: Vec<u8> = Vec::new();
        append_bytes(&mut tn, &self.typename);
        append_bytes(&mut tn, infix);
        let mut package: Vec<u8> = Vec::new();
        append_bytes(&mut package, &self.package);
        proof {
            assert(category@ =~= spec_action_category());
            assert(package@ =~= self.package@);
            assert(tn@ =~= self.typename@ + infix@);
        }
        ServiceTypeName { package, category, typename: tn }
    }

    /// The message type of one of the action's topics: the given infix
    /// (`_FeedbackMessage`) extends the type name, under the `action`
    /// category.
    pub fn dds_action_topic(&self, infix: &Vec<u8>) -> (r: MessageTypeName)
        ensures
            r.package@ == self.package@,
            r.category@ == spec_action_category(),
            r.typename@ == self.typename@ + infix@,
    {
        let mut category: Vec<u8> = Vec::new();
        category.push(97);
        category.push(99);
        category.push(116);
        category.push(105);
        category.push(111);
        category.push(110);
        let mut tn: Vec<u8> = Vec::new();
        append_bytes(&mut tn, &self.typename);
        append_bytes(&mut tn, infix);
        let mut package: Vec<u8> = Vec::new();
        append_bytes(&mut package, &self.package);
        proof {
            assert(category@ =~= spec_action_category());
            assert(package@ =~= self.package@);
            assert(tn@ =~= self.typename@ + infix@);
        }
        MessageTypeName { package, category, typename: tn }
    }
}

} // verus!
