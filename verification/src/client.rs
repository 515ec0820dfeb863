//! Connection parameters and the decisions of the two-step login handshake.
//!
//! The handshake itself runs over the transport: a "hello" call, then a
//! "login" call. Everything the handshake decides — whether and how the
//! password is upgraded to its hashed form, and what the login parameter
//! holds — is computed here.

use vstd::prelude::*;
use vstd::string::StrSliceExecFns;
use vstd::utf8::encode_utf8;
use crate::message::{Message, MessageView};
use crate::value::{RpcValue, ValueView, entries_view, lemma_entries_view, map_lookup};
use crate::utils::login_hash;

verus! {

/// Default heartbeat period, in seconds.
pub const DEFAULT_HEARTBEAT_INTERVAL_SECS: u64 = 60;

/// How the configured password is stored: as plain text, or already as the
/// 40-byte hexadecimal form of its digest.
#[derive(Debug, Copy, Clone, PartialEq, Eq, Structural)]
pub enum PasswordType {
    PLAIN,
    SHA1,
}

/// The wire name of a password kind.
pub open spec fn password_type_name(t: PasswordType) -> Seq<char> {
    if t == PasswordType::PLAIN {
        "PLAIN"@
    } else {
        "SHA1"@
    }
}

impl PasswordType {
    /// The wire name of the password kind, as sent in the login parameter.
    pub fn to_str(&self) -> (r: &'static str)
        ensures
            r@ == password_type_name(*self),
    {
        match self {
            PasswordType::PLAIN => "PLAIN",
            PasswordType::SHA1 => "SHA1",
        }
    }
}

/// The wire protocol spoken on the transport. Which one is chosen never
/// changes a message's meaning, only its encoding.
#[derive(Debug, Copy, Clone, PartialEq, Eq, Structural)]
pub enum Protocol {
    ChainPack,
    Cpon,
}

/// Everything needed to reach and enter the remote side. The password and
/// its kind may be upgraded exactly once during login; device id takes
/// precedence over mount point when both are set.
pub struct ConnectionParams {
    pub host: String,
    pub port: u16,
    pub user: String,
    pub password: String,
    pub password_type: PasswordType,
    pub device_id: String,
    pub mount_point: String,
    /// Heartbeat period in seconds; `None` switches the heartbeat off.
    pub heartbeat_interval: Option<u64>,
    pub protocol: Protocol,
}

/// The device sub-map of the login options: the device id when non-empty,
/// else the mount point when non-empty, else nothing.
pub open spec fn device_options_view(p: ConnectionParams) -> Seq<(Seq<char>, ValueView)> {
    if p.device_id@.len() > 0 {
        seq![
            (
                "device"@,
                ValueView::Mapping(seq![("deviceId"@, ValueView::Str(p.device_id@))]),
            ),
        ]
    } else if p.mount_point@.len() > 0 {
        seq![
            (
                "device"@,
                ValueView::Mapping(seq![("mountPoint"@, ValueView::Str(p.mount_point@))]),
            ),
        ]
    } else {
        Seq::empty()
    }
}

/// The options sub-map of the login parameter: the idle watchdog timeout at
/// three heartbeat periods when a heartbeat is configured, then the device
/// sub-map when there is one.
pub open spec fn login_options_view(p: ConnectionParams) -> Seq<(Seq<char>, ValueView)> {
    (match p.heartbeat_interval {
        Some(secs) => seq![("idleWatchDogTimeOut"@, ValueView::UInt(3 * secs as nat))],
        None => Seq::empty(),
    }) + device_options_view(p)
}

/// The parameter of the "login" call:
/// `{login: {user, password, type}, options: {idleWatchDogTimeOut?, device?}}`.
pub open spec fn login_param_view(p: ConnectionParams) -> ValueView {
    ValueView::Mapping(
        seq![
            (
                "login"@,
                ValueView::Mapping(
                    seq![
                        ("user"@, ValueView::Str(p.user@)),
                        ("password"@, ValueView::Str(p.password@)),
                        ("type"@, ValueView::Str(password_type_name(p.password_type))),
                    ],
                ),
            ),
            ("options"@, ValueView::Mapping(login_options_view(p))),
        ],
    )
}

/// The nonce in a "hello" result: the string under key `"nonce"` of a map
/// result, if the result has that shape.
pub open spec fn hello_nonce_view(result: Option<ValueView>) -> Option<Seq<char>> {
    match result {
        Some(ValueView::Mapping(entries)) => match map_lookup(entries, "nonce"@) {
            Some(ValueView::Str(s)) => Some(s),
            _ => None,
        },
        _ => None,
    }
}

impl Clone for ConnectionParams {
    /// An exact copy of the parameters.
    fn clone(&self) -> (r: ConnectionParams)
        ensures
            r == *self,
    {
        ConnectionParams {
            host: self.host.clone(),
            port: self.port,
            user: self.user.clone(),
            password: self.password.clone(),
            password_type: self.password_type,
            device_id: self.device_id.clone(),
            mount_point: self.mount_point.clone(),
            heartbeat_interval: self.heartbeat_interval,
            protocol: self.protocol,
        }
    }
}

impl ConnectionParams {
    /// Fresh parameters for `user` at `host:port`. A password of 40 bytes —
    /// the length of the hexadecimal digest form — is taken to be hashed
    /// already; the heartbeat defaults to a minute; no device id and no
    /// mount point are set.
    pub fn new(host: &str, port: u16, user: &str, password: &str) -> (r: ConnectionParams)
        ensures
            r.host@ == host@,
            r.port == port,
            r.user@ == user@,
            r.password@ == password@,
            r.password_type == (if encode_utf8(password@).len() == 40 {
                PasswordType::SHA1
            } else {
                PasswordType::PLAIN
            }),
            r.device_id@ == Seq::<char>::empty(),
            r.mount_point@ == Seq::<char>::empty(),
            r.heartbeat_interval == Some(DEFAULT_HEARTBEAT_INTERVAL_SECS),
            r.protocol == Protocol::ChainPack,
    {
        let hashed = password.as_bytes().len() == 40;
        ConnectionParams {
            host: host.to_owned(),
            port,
            user: user.to_owned(),
            password: password.to_owned(),
            password_type: if hashed {
                PasswordType::SHA1
            } else {
                PasswordType::PLAIN
            },
            device_id: String::new(),
            mount_point: String::new(),
            heartbeat_interval: Some(DEFAULT_HEARTBEAT_INTERVAL_SECS),
            protocol: Protocol::ChainPack,
        }
    }

    /// Builds the parameter of the "login" call from these parameters.
    pub fn to_rpcvalue(&self) -> (r: RpcValue)
        requires
            match self.heartbeat_interval {
                Some(secs) => secs <= u64::MAX / 3,
                None => true,
            },
        ensures
            r@ == login_param_view(*self),
    {
        let mut login_entries: Vec<(String, RpcValue)> = Vec::new();
        login_entries.push(("user".to_owned(), RpcValue::Str(self.user.clone())));
        login_entries.push(("password".to_owned(), RpcValue::Str(self.password.clone())));
        login_entries.push(("type".to_owned(), RpcValue::Str(self.password_type.to_str().to_owned())));
        proof {
            lemma_entries_view(login_entries@);
            assert(entries_view(login_entries@) =~~= seq![
                ("user"@, ValueView::Str(self.user@)),
                ("password"@, ValueView::Str(self.password@)),
                ("type"@, ValueView::Str(password_type_name(self.password_type))),
            ]);
        }
        let login_map = RpcValue::Mapping(login_entries);

        let mut options_entries: Vec<(String, RpcValue)> = Vec::new();
        match self.heartbeat_interval {
            Some(secs) => {
                options_entries.push(("idleWatchDogTimeOut".to_owned(), RpcValue::UInt(secs * 3)));
            },
            None => {},
        }
        if self.device_id.unicode_len() > 0 {
            let mut device_entries: Vec<(String, RpcValue)> = Vec::new();
            device_entries.push(("deviceId".to_owned(), RpcValue::Str(self.device_id.clone())));
            proof {
                lemma_entries_view(device_entries@);
                assert(entries_view(device_entries@) =~~= seq![
                    ("deviceId"@, ValueView::Str(self.device_id@)),
                ]);
            }
            options_entries.push(("device".to_owned(), RpcValue::Mapping(device_entries)));
        } else if self.mount_point.unicode_len() > 0 {
            let mut device_entries: Vec<(String, RpcValue)> = Vec::new();
            device_entries.push(("mountPoint".to_owned(), RpcValue::Str(self.mount_point.clone())));
            proof {
                lemma_entries_view(device_entries@);
                assert(entries_view(device_entries@) =~~= seq![
                    ("mountPoint"@, ValueView::Str(self.mount_point@)),
                ]);
            }
            options_entries.push(("device".to_owned(), RpcValue::Mapping(device_entries)));
        }
        proof {
            lemma_entries_view(options_entries@);
            assert(entries_view(options_entries@) =~~= login_options_view(*self));
        }
        let options_map = RpcValue::Mapping(options_entries);

        let mut entries: Vec<(String, RpcValue)> = Vec::new();
        entries.push(("login".to_owned(), login_map));
        entries.push(("options".to_owned(), options_map));
        proof {
            lemma_entries_view(entries@);
            assert(entries_view(entries@) =~~= login_param_view(*self)->Mapping_0);
        }
        RpcValue::Mapping(entries)
    }

    /// The parameters to use for the "login" call, given the "hello" result:
    /// when the password is not already in its 40-byte hashed form and
    /// the result carries a nonce, the password is replaced by the challenge
    /// hash and marked hashed; otherwise the parameters are kept as they are.
    /// A missing nonce is tolerated.
    pub fn upgraded_with_nonce(&self, hello_result: Option<&RpcValue>) -> (r: ConnectionParams)
        ensures
            ({
                let nonce = hello_nonce_view(
                    match hello_result {
                        Some(v) => Some(v@),
                        None => None,
                    },
                );
                if encode_utf8(self.password@).len() != 40 && nonce is Some {
                    r == (ConnectionParams {
                        password: r.password,
                        password_type: PasswordType::SHA1,
                        ..*self
                    }) && r.password@ == login_hash(
                        encode_utf8(self.password@),
                        encode_utf8(nonce->Some_0),
                    )
                } else {
                    r == *self
                }
            }),
    {
        if self.password.as_str().as_bytes().len() == 40 {
            return self.clone();
        }
        let nonce = match hello_result {
            Some(result) => match result.map_get("nonce") {
                Some(v) => v.as_str(),
                None => None,
            },
            None => None,
        };
        match nonce {
            Some(nonce_str) => {
                let password_bytes = self.password.as_str().as_bytes_vec();
                let nonce_bytes = nonce_str.as_str().as_bytes_vec();
                let hash = crate::utils::sha1_password_hash(&password_bytes, &nonce_bytes);
                ConnectionParams {
                    host: self.host.clone(),
                    port: self.port,
                    user: self.user.clone(),
                    password: hash,
                    password_type: PasswordType::SHA1,
                    device_id: self.device_id.clone(),
                    mount_point: self.mount_point.clone(),
                    heartbeat_interval: self.heartbeat_interval,
                    protocol: self.protocol,
                }
            },
            None => self.clone(),
        }
    }
}

/// The zero-argument "hello" call that opens the handshake, on the root
/// path.
pub fn hello_request(request_id: i64) -> (r: Message)
    ensures
        r@ == (MessageView {
            request_id: Some(request_id as int),
            path: Some(""@),
            method: Some("hello"@),
            params: None,
            result: None,
            error: None,
        }),
{
    Message::create_request(request_id, "", "hello", None)
}

/// The "login" call that closes the handshake, carrying the login
/// parameter built from `params`.
pub fn login_request(request_id: i64, params: &ConnectionParams) -> (r: Message)
    requires
        match params.heartbeat_interval {
            Some(secs) => secs <= u64::MAX / 3,
            None => true,
        },
    ensures
        r@ == (MessageView {
            request_id: Some(request_id as int),
            path: Some(""@),
            method: Some("login"@),
            params: Some(login_param_view(*params)),
            result: None,
            error: None,
        }),
{
    Message::create_request(request_id, "", "login", Some(params.to_rpcvalue()))
}

/// Whether a login response means success: success is exactly the presence
/// of a result value, whatever it is.
pub fn login_succeeded(response: &Message) -> (r: bool)
    ensures
        r == (response@.result is Some),
{
    match response.result() {
        Some(_) => true,
        None => false,
    }
}

} // verus!
