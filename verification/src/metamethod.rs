//! Method descriptors: the immutable metadata a node advertises for each of
//! its callable methods, and its rendering for "dir" introspection.

use vstd::prelude::*;
use vstd::string::StringExecFns;
use crate::value::{RpcValue, ValueView, list_view, lemma_list_view};

verus! {

/// Bit of the "dir" attribute mask selecting the signature code.
pub const DIR_ATTR_SIGNATURE: u8 = 1;

/// Bit selecting the flags bitset.
pub const DIR_ATTR_FLAGS: u8 = 2;

/// Bit selecting the access-grant string.
pub const DIR_ATTR_ACCESS_GRANT: u8 = 4;

/// Bit selecting the description.
pub const DIR_ATTR_DESCRIPTION: u8 = 8;

/// Flag bit of a method that is a signal.
pub const FLAG_IS_SIGNAL: u32 = 1;

/// Flag bit of a getter method.
pub const FLAG_IS_GETTER: u32 = 2;

/// Flag bit of a setter method.
pub const FLAG_IS_SETTER: u32 = 4;

/// The call shape of a method: whether it takes a parameter and whether it
/// returns a value.
#[derive(Debug, Copy, Clone, PartialEq, Eq, Structural)]
pub enum Signature {
    VoidVoid,
    VoidParam,
    RetVoid,
    RetParam,
}

/// The numeric code a signature is rendered as.
pub open spec fn signature_code(s: Signature) -> nat {
    match s {
        Signature::VoidVoid => 0,
        Signature::VoidParam => 1,
        Signature::RetVoid => 2,
        Signature::RetParam => 3,
    }
}

impl Signature {
    /// The numeric code of this signature.
    pub fn code(&self) -> (r: u32)
        ensures
            r as nat == signature_code(*self),
    {
        match self {
            Signature::VoidVoid => 0,
            Signature::VoidParam => 1,
            Signature::RetVoid => 2,
            Signature::RetParam => 3,
        }
    }
}

/// Mathematical model of a [`MetaMethod`].
pub struct MetaMethodView {
    pub name: Seq<char>,
    pub signature: Signature,
    pub flags: u32,
    pub access_grant: Seq<char>,
    pub description: Seq<char>,
}

/// A method descriptor: name, call shape, flags bitset, access-grant string
/// and description.
#[derive(Debug, Clone, PartialEq)]
pub struct MetaMethod {
    pub name: String,
    pub signature: Signature,
    pub flags: u32,
    pub access_grant: String,
    pub description: String,
}

impl View for MetaMethod {
    type V = MetaMethodView;

    open spec fn view(&self) -> MetaMethodView {
        MetaMethodView {
            name: self.name@,
            signature: self.signature,
            flags: self.flags,
            access_grant: self.access_grant@,
            description: self.description@,
        }
    }
}

/// The rendering of one descriptor under a "dir" attribute mask: the bare
/// name for an empty mask, else the name followed by each attribute whose
/// bit is set, in declared order.
pub open spec fn dir_attributes_view(m: MetaMethodView, attrs: u8) -> ValueView {
    if attrs == 0 {
        ValueView::Str(m.name)
    } else {
        ValueView::List(
            seq![ValueView::Str(m.name)] + (if attrs & DIR_ATTR_SIGNATURE != 0 {
                seq![ValueView::UInt(signature_code(m.signature))]
            } else {
                Seq::empty()
            }) + (if attrs & DIR_ATTR_FLAGS != 0 {
                seq![ValueView::UInt(m.flags as nat)]
            } else {
                Seq::empty()
            }) + (if attrs & DIR_ATTR_ACCESS_GRANT != 0 {
                seq![ValueView::Str(m.access_grant)]
            } else {
                Seq::empty()
            }) + (if attrs & DIR_ATTR_DESCRIPTION != 0 {
                seq![ValueView::Str(m.description)]
            } else {
                Seq::empty()
            }),
        )
    }
}

impl MetaMethod {
    /// A descriptor built from its parts.
    pub fn new(
        name: &str,
        signature: Signature,
        flags: u32,
        access_grant: &str,
        description: &str,
    ) -> (r: MetaMethod)
        ensures
            r@ == (MetaMethodView {
                name: name@,
                signature,
                flags,
                access_grant: access_grant@,
                description: description@,
            }),
    {
        MetaMethod {
            name: name.to_owned(),
            signature,
            flags,
            access_grant: access_grant.to_owned(),
            description: description.to_owned(),
        }
    }

    /// Renders the descriptor under a "dir" attribute mask.
    pub fn dir_attributes(&self, attrs: u8) -> (r: RpcValue)
        ensures
            r@ == dir_attributes_view(self@, attrs),
    {
        if attrs == 0 {
            return RpcValue::Str(self.name.clone());
        }
        let mut out: Vec<RpcValue> = Vec::new();
        out.push(RpcValue::Str(self.name.clone()));
        if attrs & DIR_ATTR_SIGNATURE != 0 {
            out.push(RpcValue::UInt(self.signature.code() as u64));
        }
        if attrs & DIR_ATTR_FLAGS != 0 {
            out.push(RpcValue::UInt(self.flags as u64));
        }
        if attrs & DIR_ATTR_ACCESS_GRANT != 0 {
            out.push(RpcValue::Str(self.access_grant.clone()));
        }
        if attrs & DIR_ATTR_DESCRIPTION != 0 {
            out.push(RpcValue::Str(self.description.clone()));
        }
        proof {
            lemma_list_view(out@);
            assert(list_view(out@) =~~= dir_attributes_view(self@, attrs)->List_0);
        }
        RpcValue::List(out)
    }
}

} // verus!
