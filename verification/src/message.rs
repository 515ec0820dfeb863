//! The message model: a request or response of the protocol, with its
//! correlation id, addressing and payload fields.
//!
//! A message is a request when it carries both a request id and a method,
//! a response when it carries a request id and no method, and a signal when
//! it carries a method only.

use vstd::prelude::*;
use crate::value::{RpcValue, ValueView};

verus! {

/// Error code a response carries when a method call failed on the callee.
pub const RPC_ERROR_METHOD_CALL_EXCEPTION: u32 = 8;

/// The error half of a response: a numeric code and a human-readable message.
#[derive(Debug, PartialEq)]
pub struct RpcError {
    pub code: u32,
    pub message: String,
}

/// Mathematical model of an [`RpcError`].
pub struct RpcErrorView {
    pub code: u32,
    pub message: Seq<char>,
}

impl View for RpcError {
    type V = RpcErrorView;

    open spec fn view(&self) -> RpcErrorView {
        RpcErrorView { code: self.code, message: self.message@ }
    }
}

impl Clone for RpcError {
    /// An exact copy of the error.
    fn clone(&self) -> (r: RpcError)
        ensures
            r == *self,
    {
        RpcError { code: self.code, message: self.message.clone() }
    }
}

impl RpcError {
    /// A fresh error value.
    pub fn new(code: u32, message: String) -> (r: RpcError)
        ensures
            r@ == (RpcErrorView { code, message: message@ }),
    {
        RpcError { code, message }
    }
}

/// Mathematical model of a [`Message`].
pub struct MessageView {
    pub request_id: Option<int>,
    pub path: Option<Seq<char>>,
    pub method: Option<Seq<char>>,
    pub params: Option<ValueView>,
    pub result: Option<ValueView>,
    pub error: Option<RpcErrorView>,
}

impl MessageView {
    /// A request carries both an id and a method.
    pub open spec fn is_request(self) -> bool {
        self.request_id is Some && self.method is Some
    }

    /// A response carries an id and no method.
    pub open spec fn is_response(self) -> bool {
        self.request_id is Some && self.method is None
    }
}

/// The model of an optional value.
pub open spec fn opt_value_view(o: Option<RpcValue>) -> Option<ValueView> {
    match o {
        Some(v) => Some(crate::value::value_view(v)),
        None => None,
    }
}

/// A protocol message.
#[derive(Debug)]
pub struct Message {
    pub request_id: Option<i64>,
    pub path: Option<String>,
    pub method: Option<String>,
    pub params: Option<RpcValue>,
    pub result: Option<RpcValue>,
    pub error: Option<RpcError>,
}

impl View for Message {
    type V = MessageView;

    open spec fn view(&self) -> MessageView {
        MessageView {
            request_id: match self.request_id {
                Some(id) => Some(id as int),
                None => None,
            },
            path: match self.path {
                Some(p) => Some(p@),
                None => None,
            },
            method: match self.method {
                Some(m) => Some(m@),
                None => None,
            },
            params: opt_value_view(self.params),
            result: opt_value_view(self.result),
            error: match self.error {
                Some(e) => Some(e@),
                None => None,
            },
        }
    }
}

impl Clone for Message {
    /// A deep copy with the same model.
    fn clone(&self) -> (r: Message)
        ensures
            r@ == self@,
    {
        Message {
            request_id: self.request_id,
            path: match &self.path {
                Some(p) => Some(p.clone()),
                None => None,
            },
            method: match &self.method {
                Some(m) => Some(m.clone()),
                None => None,
            },
            params: match &self.params {
                Some(v) => Some(v.clone()),
                None => None,
            },
            result: match &self.result {
                Some(v) => Some(v.clone()),
                None => None,
            },
            error: match &self.error {
                Some(e) => Some(e.clone()),
                None => None,
            },
        }
    }
}

impl Message {
    /// A fresh request for `method` on `path`, correlated by `request_id`.
    pub fn create_request(
        request_id: i64,
        path: &str,
        method: &str,
        params: Option<RpcValue>,
    ) -> (r: Message)
        ensures
            r@ == (MessageView {
                request_id: Some(request_id as int),
                path: Some(path@),
                method: Some(method@),
                params: opt_value_view(params),
                result: None,
                error: None,
            }),
            r@.is_request(),
    {
        Message {
            request_id: Some(request_id),
            path: Some(path.to_owned()),
            method: Some(method.to_owned()),
            params,
            result: None,
            error: None,
        }
    }

    /// Whether the message is a request.
    pub fn is_request(&self) -> (r: bool)
        ensures
            r == self@.is_request(),
    {
        self.request_id.is_some() && self.method.is_some()
    }

    /// Whether the message is a response.
    pub fn is_response(&self) -> (r: bool)
        ensures
            r == self@.is_response(),
    {
        self.request_id.is_some() && self.method.is_none()
    }

    /// The correlation id, if the message has one.
    pub fn request_id(&self) -> (r: Option<i64>)
        ensures
            match r {
                Some(id) => self@.request_id == Some(id as int),
                None => self@.request_id is None,
            },
    {
        self.request_id
    }

    /// The addressed path, if the message has one.
    pub fn shv_path(&self) -> (r: Option<&String>)
        ensures
            match r {
                Some(p) => self@.path == Some(p@),
                None => self@.path is None,
            },
    {
        self.path.as_ref()
    }

    /// The named method, if the message has one.
    pub fn method(&self) -> (r: Option<&String>)
        ensures
            match r {
                Some(m) => self@.method == Some(m@),
                None => self@.method is None,
            },
    {
        self.method.as_ref()
    }

    /// The call parameters, if the message has any.
    pub fn params(&self) -> (r: Option<&RpcValue>)
        ensures
            match r {
                Some(p) => self@.params == Some(p@),
                None => self@.params is None,
            },
    {
        self.params.as_ref()
    }

    /// The result value, if the message carries one.
    pub fn result(&self) -> (r: Option<&RpcValue>)
        ensures
            match r {
                Some(v) => self@.result == Some(v@),
                None => self@.result is None,
            },
    {
        self.result.as_ref()
    }

    /// The error, if the message carries one.
    pub fn error(&self) -> (r: Option<&RpcError>)
        ensures
            match r {
                Some(e) => self@.error == Some(e@),
                None => self@.error is None,
            },
    {
        self.error.as_ref()
    }

    /// The empty response correlated to this request: same request id, no
    /// method, no payload yet. `None` exactly when the message is not a
    /// request.
    pub fn prepare_response(&self) -> (r: Option<Message>)
        ensures
            match r {
                Some(resp) => self@.is_request() && resp@ == (MessageView {
                    request_id: self@.request_id,
                    path: None,
                    method: None,
                    params: None,
                    result: None,
                    error: None,
                }),
                None => !self@.is_request(),
            },
    {
        if self.request_id.is_some() && self.method.is_some() {
            Some(
                Message {
                    request_id: self.request_id,
                    path: None,
                    method: None,
                    params: None,
                    result: None,
                    error: None,
                },
            )
        } else {
            None
        }
    }

    /// Stores a result value, replacing any earlier one.
    pub fn set_result(&mut self, v: RpcValue)
        ensures
            final(self)@ == (MessageView { result: Some(v@), ..old(self)@ }),
    {
        self.result = Some(v);
    }

    /// Stores an error, replacing any earlier one.
    pub fn set_error(&mut self, e: RpcError)
        ensures
            final(self)@ == (MessageView { error: Some(e@), ..old(self)@ }),
    {
        self.error = Some(e);
    }
}

} // verus!
