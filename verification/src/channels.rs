//! The three bridge channels, their socket names, the secure-token handshake
//! and the checks made on every peer and payload.
use vstd::prelude::*;

use crate::json::{forbidden_field_spec, forbidden_identity_field, json_parse, parse_json, JsonValue};
use crate::text::{owned, push_str, string_from_chars, trim_end};

verus! {

/// The environment variable that carries the secure token.
pub const SECURE_TOKEN_ENV_VAR: &'static str = "AI_BRIDGE_SECURE_TOKEN";

/// The prefix of the handshake line.
pub const HANDSHAKE_PREFIX: &'static str = "AI_BRIDGE_TOKEN:";

#[derive(Debug, Clone, Copy, PartialEq, Eq, PartialOrd, Ord, Hash, Structural)]
pub enum ChannelName {
    PrivateA,
    PrivateB,
    PublicMaestro,
}

impl ChannelName {
    pub open spec fn socket_file(self) -> Seq<char> {
        match self {
            ChannelName::PrivateA => "private_a.sock"@,
            ChannelName::PrivateB => "private_b.sock"@,
            ChannelName::PublicMaestro => "public_maestro.sock"@,
        }
    }

    /// The socket file name of the channel.
    pub fn as_str(&self) -> (r: &'static str)
        ensures
            r@ == self.socket_file(),
    {
        match self {
            ChannelName::PrivateA => "private_a.sock",
            ChannelName::PrivateB => "private_b.sock",
            ChannelName::PublicMaestro => "public_maestro.sock",
        }
    }

    pub fn all() -> (r: [ChannelName; 3])
        ensures
            r@ == seq![ChannelName::PrivateA, ChannelName::PrivateB, ChannelName::PublicMaestro],
    {
        [ChannelName::PrivateA, ChannelName::PrivateB, ChannelName::PublicMaestro]
    }
}

#[derive(Debug, Clone, PartialEq, Eq)]
pub enum ChannelError {
    SocketBind { path: String, source: String },
    SocketAccept(String),
    SocketIo(String),
    Json(String),
    PeerUidMismatch { expected: u32, actual: u32 },
    ForbiddenField { field: &'static str },
    PathAccess(String),
    Io(String),
    TokenGeneration(String),
    HandshakeMismatch,
    HandshakeWrite(String),
    HandshakeRead(String),
}

#[derive(Debug, Clone, Copy, PartialEq, Eq, Structural)]
pub struct PeerIdentity {
    pub uid: u32,
}

/// A peer is accepted only under the UID that the socket was created for.
pub fn validate_peer_uid(expected: u32, actual: u32) -> (r: Result<(), ChannelError>)
    ensures
        expected == actual ==> r is Ok,
        expected != actual ==> r == Err::<(), ChannelError>(
            ChannelError::PeerUidMismatch { expected, actual },
        ),
{
    if expected != actual {
        Err(ChannelError::PeerUidMismatch { expected, actual })
    } else {
        Ok(())
    }
}

/// The handshake line that presents `token`.
pub open spec fn handshake_line_spec(token: Seq<char>) -> Seq<char> {
    "AI_BRIDGE_TOKEN:"@ + token + seq!['\n']
}

/// The handshake line written before any payload: the prefix, the token and
/// a newline.
pub fn handshake_line(token: &str) -> (line: String)
    ensures
        line@ == handshake_line_spec(token@),
{
    let mut out: Vec<char> = Vec::new();
    push_str(&mut out, HANDSHAKE_PREFIX);
    push_str(&mut out, token);
    out.push('\n');
    proof {
        reveal_strlit("AI_BRIDGE_TOKEN:");
    }
    assert(out@ =~= handshake_line_spec(token@));
    string_from_chars(&out)
}

/// The token presented by a handshake line: the line without trailing
/// whitespace must start with the prefix, and the rest is the token.
pub open spec fn handshake_token_spec(line: Seq<char>) -> Option<Seq<char>> {
    let t = trim_end(line);
    let p = "AI_BRIDGE_TOKEN:"@;
    if t.len() >= p.len() && t.subrange(0, p.len() as int) == p {
        Some(t.subrange(p.len() as int, t.len() as int))
    } else {
        None
    }
}

/// Reads the token out of a received handshake line.
pub fn parse_handshake_line(line: &str) -> (r: Result<String, ChannelError>)
    ensures
        handshake_token_spec(line@) matches Some(tok) ==> (r matches Ok(s) && s@ == tok),
        handshake_token_spec(line@) is None ==> (r matches Err(ChannelError::HandshakeRead(m))
            && m@ == "malformed handshake: missing token prefix"@),
{
    let t = crate::text::trim_end_str(line);
    let p = crate::text::chars_of(HANDSHAKE_PREFIX);
    proof {
        reveal_strlit("AI_BRIDGE_TOKEN:");
    }
    if t.len() >= p.len() && crate::text::matches_at(&t, &p, 0) {
        let mut rest: Vec<char> = Vec::new();
        let mut i: usize = p.len();
        while i < t.len()
            invariant
                p.len() <= i <= t.len(),
                rest@ == t@.subrange(p.len() as int, i as int),
            decreases t.len() - i,
        {
            rest.push(t[i]);
            i = i + 1;
            assert(rest@ =~= t@.subrange(p.len() as int, i as int));
        }
        assert(t@.subrange(0, p@.len() as int) =~= p@);
        Ok(string_from_chars(&rest))
    } else {
        proof {
            if t@.len() >= p@.len() && t@.subrange(0, p@.len() as int) == p@ {
                assert(crate::text::occurs_at(t@, p@, 0));
            }
        }
        Err(ChannelError::HandshakeRead(owned("malformed handshake: missing token prefix")))
    }
}

/// The handshake is accepted only when the presented token is the one
/// registered for the channel.
pub fn verify_handshake_token(registered: &str, received: &str) -> (r: Result<(), ChannelError>)
    ensures
        received@ == registered@ ==> r is Ok,
        received@ != registered@ ==> r == Err::<(), ChannelError>(ChannelError::HandshakeMismatch),
{
    if crate::text::str_eq(received, registered) {
        Ok(())
    } else {
        Err(ChannelError::HandshakeMismatch)
    }
}

/// Rejects a payload that carries an identity field (`sender` or
/// `auth_token`, at any depth): identity comes from the socket, never from
/// the message.
pub fn validate_payload(value: &JsonValue) -> (r: Result<(), ChannelError>)
    ensures
        forbidden_field_spec(*value) is None ==> r is Ok,
        forbidden_field_spec(*value) matches Some(f) ==> (r matches Err(
            ChannelError::ForbiddenField { field },
        ) && field@ == f),
{
    match forbidden_identity_field(value) {
        Some(field) => Err(ChannelError::ForbiddenField { field }),
        None => Ok(()),
    }
}

/// The lowercase hexadecimal digit for `d < 16`.
pub open spec fn hex_digit(d: nat) -> char {
    if d < 10 {
        (('0' as u32) + d) as char
    } else {
        (('a' as u32) + (d - 10)) as char
    }
}

/// Lowercase hexadecimal encoding: two digits per byte, high nibble first.
pub open spec fn hex_spec(bytes: Seq<u8>) -> Seq<char>
    decreases bytes.len(),
{
    if bytes.len() == 0 {
        Seq::empty()
    } else {
        hex_spec(bytes.drop_last()) + seq![
            hex_digit((bytes.last() / 16) as nat),
            hex_digit((bytes.last() % 16) as nat),
        ]
    }
}

pub open spec fn is_lower_hex(c: char) -> bool {
    ('0' <= c && c <= '9') || ('a' <= c && c <= 'f')
}

pub proof fn lemma_hex_spec(bytes: Seq<u8>)
    ensures
        hex_spec(bytes).len() == 2 * bytes.len(),
        forall|i: int| 0 <= i < hex_spec(bytes).len() ==> is_lower_hex(#[trigger] hex_spec(bytes)[i]),
    decreases bytes.len(),
{
    if bytes.len() > 0 {
        lemma_hex_spec(bytes.drop_last());
        let h = hex_spec(bytes.drop_last());
        let hi = (bytes.last() / 16) as nat;
        let lo = (bytes.last() % 16) as nat;
        assert(is_lower_hex(hex_digit(hi)));
        assert(is_lower_hex(hex_digit(lo)));
        assert forall|i: int| 0 <= i < hex_spec(bytes).len() implies is_lower_hex(
            #[trigger] hex_spec(bytes)[i],
        ) by {
            if i < h.len() {
                assert(hex_spec(bytes)[i] == h[i]);
            }
        }
    }
}

/// Calls `hex::encode`, which writes each byte as two lowercase hexadecimal
/// digits, high nibble first; the contract states exactly that.
#[verifier::external_body]
fn hex_encode(data: &[u8]) -> (s: String)
    ensures
        s@ == hex_spec(data@),
{
    hex::encode(data)
}

/// Calls `getrandom::getrandom` on a 32-byte buffer. Nothing is claimed of
/// the bytes; a failure is passed on as its message.
#[verifier::external_body]
fn random_bytes() -> (r: Result<[u8; 32], String>) {
    let mut buf = [0u8; 32];
    getrandom::getrandom(&mut buf).map(|_| buf).map_err(|e| e.to_string())
}

/// A random bearer token presented as the first message on a channel.
#[derive(Debug, Clone, PartialEq, Eq)]
pub struct SecureToken(String);

impl View for SecureToken {
    type V = Seq<char>;

    closed spec fn view(&self) -> Seq<char> {
        self.0@
    }
}

impl SecureToken {
    /// A fresh token: 32 random bytes in lowercase hexadecimal.
    pub fn generate() -> (r: Result<SecureToken, ChannelError>)
        ensures
            r matches Ok(t) ==> t@.len() == 64 && forall|i: int|
                0 <= i < t@.len() ==> is_lower_hex(#[trigger] t@[i]),
            r matches Err(e) ==> e is TokenGeneration,
    {
        match random_bytes() {
            Ok(buf) => {
                let s = hex_encode(&buf);
                proof {
                    lemma_hex_spec(buf@);
                }
                Ok(SecureToken(s))
            },
            Err(msg) => Err(ChannelError::TokenGeneration(msg)),
        }
    }

    pub fn as_str(&self) -> (r: &str)
        ensures
            r@ == self@,
    {
        self.0.as_str()
    }
}

/// A message as it travels on a channel: its JSON payload, which never
/// carries an identity field.
#[derive(Debug)]
pub struct ChannelEnvelope {
    pub payload: JsonValue,
}

impl ChannelEnvelope {
    /// Reads an envelope from the text of a message: the text must parse as
    /// JSON and the value must carry no identity field.
    pub fn from_json_str(data: &str) -> (r: Result<ChannelEnvelope, ChannelError>)
        ensures
            json_parse(data@) is None ==> r matches Err(ChannelError::Json(_)),
            json_parse(data@) matches Some(v) ==> (forbidden_field_spec(v) is None ==> (r matches Ok(
                e,
            ) && e.payload == v)),
            json_parse(data@) matches Some(v) ==> (forbidden_field_spec(v) matches Some(f) ==> (
            r matches Err(ChannelError::ForbiddenField { field }) && field@ == f)),
    {
        match parse_json(data) {
            Err(m) => Err(ChannelError::Json(m)),
            Ok(value) => {
                validate_payload(&value)?;
                Ok(ChannelEnvelope { payload: value })
            },
        }
    }
}

} // verus!
