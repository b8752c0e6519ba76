//! One client connection: the wire envelope codec and the per-session state
//! machine.
//!
//! A session is driven by the I/O layer, which reads and writes the socket
//! and hands every decision to the methods here: what an 11-byte envelope
//! means, whether a handshake payload is acceptable, how a request is tagged
//! with the session's uuid, and when the session is closed.  Every
//! envelope, decode or I/O failure is terminal for this session alone.

use vstd::prelude::*;
use vstd::arithmetic::div_mod::{lemma_div_denominator, lemma_fundamental_div_mod};
use vstd::slice::slice_to_vec;
use vstd::string::StringExecFns;

use crate::messages::{KasuminRequest, RequestKind};
use crate::connect::ConnectRequest;
use crate::server_error::{EnvelopeError, ServerError, ServerErrorKind};
use crate::ENVELOPE_SIZE;

verus! {

/// The five magic bytes every envelope starts with: `"kasu:"`.
pub open spec fn envelope_magic() -> Seq<u8> {
    seq![107u8, 97u8, 115u8, 117u8, 58u8]
}

/// The two terminator bytes every envelope ends with: `"\r\n"`.
pub open spec fn envelope_footer() -> Seq<u8> {
    seq![13u8, 10u8]
}

/// The number a big-endian 4-byte group encodes.
pub open spec fn be32(b0: u8, b1: u8, b2: u8, b3: u8) -> int {
    b0 * 0x1000000 + b1 * 0x10000 + b2 * 0x100 + b3
}

/// The big-endian 4-byte group encoding `n`.
pub open spec fn be32_bytes(n: u32) -> Seq<u8> {
    seq![
        (n / 0x1000000) as u8,
        ((n / 0x10000) % 0x100) as u8,
        ((n / 0x100) % 0x100) as u8,
        (n % 0x100) as u8,
    ]
}

/// An 11-byte header whose magic and terminator are both correct.
pub open spec fn envelope_well_formed(env: Seq<u8>) -> bool {
    &&& env.len() == ENVELOPE_SIZE
    &&& env.subrange(0, 5) == envelope_magic()
    &&& env.subrange(9, 11) == envelope_footer()
}

/// The length field of an 11-byte header.
pub open spec fn envelope_length(env: Seq<u8>) -> int
    recommends
        env.len() == ENVELOPE_SIZE,
{
    be32(env[5], env[6], env[7], env[8])
}

/// A whole frame: magic, big-endian payload length, terminator, payload.
pub open spec fn spec_encode_envelope(payload: Seq<u8>) -> Seq<u8>
    recommends
        payload.len() <= u32::MAX,
{
    envelope_magic() + be32_bytes(payload.len() as u32) + envelope_footer() + payload
}

/// Reading the four big-endian bytes of `n` back gives `n`.
pub proof fn lemma_be32_round_trip(n: u32)
    ensures
        be32(
            (n / 0x1000000) as u8,
            ((n / 0x10000) % 0x100) as u8,
            ((n / 0x100) % 0x100) as u8,
            (n % 0x100) as u8,
        ) == n,
{
    let x = n as int;
    lemma_fundamental_div_mod(x, 0x100);
    lemma_fundamental_div_mod(x / 0x100, 0x100);
    lemma_fundamental_div_mod(x / 0x10000, 0x100);
    lemma_div_denominator(x, 0x100, 0x100);
    lemma_div_denominator(x, 0x10000, 0x100);
}

/// Envelope round-trip: framing a payload of any valid length produces a
/// well-formed header whose length field is the payload's length, and the
/// bytes after the header are exactly the payload.
pub proof fn lemma_envelope_round_trip(payload: Seq<u8>, limit: u32)
    requires
        1 <= payload.len() <= limit,
    ensures
        envelope_well_formed(spec_encode_envelope(payload).subrange(0, 11)),
        envelope_length(spec_encode_envelope(payload).subrange(0, 11)) == payload.len(),
        spec_encode_envelope(payload).skip(11) == payload,
{
    let framed = spec_encode_envelope(payload);
    let header = framed.subrange(0, 11);
    assert(header.subrange(0, 5) =~= envelope_magic());
    assert(header.subrange(9, 11) =~= envelope_footer());
    lemma_be32_round_trip(payload.len() as u32);
    assert(framed.skip(11) =~= payload);
}

/// The session's progress, from a fresh socket to teardown.
#[derive(Clone, Copy, Debug, PartialEq, Eq, Structural)]
pub enum SessionPhase {
    /// The socket was just accepted and split into read and write halves.
    Connecting,
    /// Waiting for the first frame, which must carry a connect request.
    Handshaking,
    /// Registered with the coordinator; frames flow in both directions.
    Active,
    /// Torn down; no further event changes the session.
    Closed,
}

/// Server-side state of one client connection.
///
/// The name is whatever the client supplied in its handshake; the uuid is
/// assigned by the coordinator and is what every forwarded request is
/// tagged with.
#[derive(Clone, Debug)]
pub struct Client {
    /// Client's provided name, which does not have to be unique.
    pub name: String,
    /// Uuid provided by the server; unique among active sessions.
    pub uuid: String,
    /// Frame-size limit for every envelope on this connection.
    pub limit: u32,
    /// Where in its lifecycle the session stands.
    pub phase: SessionPhase,
}

impl Client {
    /// Accept a connection: a session with no name or uuid yet.
    pub fn connect(limit: u32) -> (c: Client)
        requires
            1 <= limit,
        ensures
            c.phase == SessionPhase::Connecting,
            c.limit == limit,
            c.name@ == Seq::<char>::empty(),
            c.uuid@ == Seq::<char>::empty(),
    {
        Client { name: String::new(), uuid: String::new(), limit, phase: SessionPhase::Connecting }
    }

    /// The socket is split; wait for the handshake frame.
    pub fn begin_handshake(&mut self)
        requires
            old(self).phase == SessionPhase::Connecting,
        ensures
            *final(self) == (Client { phase: SessionPhase::Handshaking, ..*old(self) }),
    {
        self.phase = SessionPhase::Handshaking;
    }

    /// Validate one 11-byte envelope and extract the payload length.
    ///
    /// Exactly one of the outcomes holds: a header of the wrong size is
    /// `InvalidSize`; a wrong magic or terminator is `WrongFormat` with the
    /// raw bytes; a zero length field is `Zero`; a length over the limit is
    /// `DataTooLarge`; anything else is the length, which is then in
    /// `1..=limit`.
    pub fn decode_envelope(envelope: &[u8], limit: u32) -> (r: Result<u32, ServerErrorKind>)
        requires
            1 <= limit,
        ensures
            match r {
                Ok(n) => {
                    &&& envelope_well_formed(envelope@)
                    &&& n == envelope_length(envelope@)
                    &&& 1 <= n <= limit
                },
                Err(kind) => match kind {
                    ServerErrorKind::Envelope(e) => match e {
                        EnvelopeError::InvalidSize(got) => {
                            &&& envelope@.len() != ENVELOPE_SIZE
                            &&& got == envelope@.len()
                        },
                        EnvelopeError::WrongFormat(raw) => {
                            &&& envelope@.len() == ENVELOPE_SIZE
                            &&& !envelope_well_formed(envelope@)
                            &&& raw@ == envelope@
                        },
                        EnvelopeError::Zero(z) => {
                            &&& envelope_well_formed(envelope@)
                            &&& envelope_length(envelope@) == 0
                            &&& z == 0
                        },
                        EnvelopeError::DataTooLarge { limit: l, data_length: n } => {
                            &&& envelope_well_formed(envelope@)
                            &&& n == envelope_length(envelope@)
                            &&& n > limit
                            &&& l == limit
                        },
                        _ => false,
                    },
                    _ => false,
                },
            },
    {
        if envelope.len() != ENVELOPE_SIZE {
            return Err(ServerErrorKind::Envelope(EnvelopeError::InvalidSize(envelope.len())));
        }
        let magic_ok = envelope[0] == 107 && envelope[1] == 97 && envelope[2] == 115
            && envelope[3] == 117 && envelope[4] == 58;
        let footer_ok = envelope[9] == 13 && envelope[10] == 10;
        if !magic_ok || !footer_ok {
            proof {
                let e = envelope@;
                if envelope_well_formed(e) {
                    assert(e[0] == envelope_magic()[0]);
                    assert(e[1] == envelope_magic()[1]);
                    assert(e[2] == envelope_magic()[2]);
                    assert(e[3] == envelope_magic()[3]);
                    assert(e[4] == envelope_magic()[4]);
                    assert(e[9] == envelope_footer()[0]);
                    assert(e[10] == envelope_footer()[1]);
                }
            }
            return Err(ServerErrorKind::Envelope(EnvelopeError::WrongFormat(slice_to_vec(
                envelope,
            ))));
        }
        proof {
            assert(envelope@.subrange(0, 5) =~= envelope_magic());
            assert(envelope@.subrange(9, 11) =~= envelope_footer());
        }
        // Network byte order is big endian.
        let data_length: u32 = (envelope[5] as u32) * 0x1000000 + (envelope[6] as u32) * 0x10000
            + (envelope[7] as u32) * 0x100 + (envelope[8] as u32);
        if data_length == 0 {
            Err(ServerErrorKind::Envelope(EnvelopeError::Zero(data_length)))
        } else if data_length > limit {
            Err(ServerErrorKind::Envelope(EnvelopeError::DataTooLarge { limit, data_length }))
        } else {
            Ok(data_length)
        }
    }

    /// Frame a serialized payload: the envelope followed by the payload.
    ///
    /// Framing cannot fail for a payload whose length is valid for the
    /// connection's limit.
    pub fn encode_envelope(payload: &[u8], limit: u32) -> (r: Vec<u8>)
        requires
            1 <= limit,
            1 <= payload@.len() <= limit,
        ensures
            r@ == spec_encode_envelope(payload@),
            r@.len() == ENVELOPE_SIZE + payload@.len(),
    {
        let n: u32 = payload.len() as u32;
        assert(n / 0x1000000 < 0x100) by (nonlinear_arith)
            requires
                n <= 0xffffffffu32,
        ;
        let mut out: Vec<u8> = Vec::new();
        out.push(107);
        out.push(97);
        out.push(115);
        out.push(117);
        out.push(58);
        out.push((n / 0x1000000) as u8);
        out.push(((n / 0x10000) % 0x100) as u8);
        out.push(((n / 0x100) % 0x100) as u8);
        out.push((n % 0x100) as u8);
        out.push(13);
        out.push(10);
        out.extend_from_slice(payload);
        proof {
            assert(out@ =~= spec_encode_envelope(payload@));
        }
        out
    }

    /// Judge the handshake payload: the first decoded message must be a
    /// connect request carrying the client's name.
    ///
    /// On a connect request the session keeps the name and stays in the
    /// handshake, waiting for its uuid; on anything else the session closes
    /// unregistered and the error says so.
    pub fn handshake(&mut self, first: &KasuminRequest) -> (r: Result<(), ServerError>)
        requires
            old(self).phase == SessionPhase::Handshaking,
        ensures
            match first.message {
                RequestKind::Connect(ConnectRequest::Name(name)) => {
                    &&& r is Ok
                    &&& *final(self) == (Client { name, ..*old(self) })
                },
                _ => {
                    &&& *final(self) == (Client { phase: SessionPhase::Closed, ..*old(self) })
                    &&& match r {
                        Err(e) => e.kind is Decode && e.client_name is None && e.client_id is None,
                        Ok(_) => false,
                    }
                },
            },
    {
        match &first.message {
            RequestKind::Connect(ConnectRequest::Name(name)) => {
                self.name = name.clone();
                Ok(())
            },
            _ => {
                self.phase = SessionPhase::Closed;
                let kind = ServerErrorKind::Decode(
                    String::from_str("the handshake frame did not carry a connect request"),
                );
                Err(ServerError::new(kind, None, None))
            },
        }
    }

    /// The coordinator assigned this session a uuid: the session goes live.
    pub fn register(&mut self, uuid: String)
        requires
            old(self).phase == SessionPhase::Handshaking,
        ensures
            *final(self) == (Client { uuid, phase: SessionPhase::Active, ..*old(self) }),
    {
        self.uuid = uuid;
        self.phase = SessionPhase::Active;
    }

    /// Judge one inbound envelope of a live session.
    ///
    /// A valid envelope leaves the session untouched and tells the reader
    /// how many payload bytes to pull; any envelope fault closes the session
    /// and tags the error with this client's name and uuid.
    pub fn on_envelope(&mut self, envelope: &[u8]) -> (r: Result<u32, ServerError>)
        requires
            old(self).phase == SessionPhase::Active,
            1 <= old(self).limit,
        ensures
            match r {
                Ok(n) => {
                    &&& *final(self) == *old(self)
                    &&& envelope_well_formed(envelope@)
                    &&& n == envelope_length(envelope@)
                    &&& 1 <= n <= old(self).limit
                },
                Err(e) => {
                    &&& *final(self) == (Client { phase: SessionPhase::Closed, ..*old(self) })
                    &&& e.kind is Envelope
                    &&& (e.kind matches ServerErrorKind::Envelope(env_err) ==> match env_err {
                        EnvelopeError::InvalidSize(got) => {
                            &&& envelope@.len() != ENVELOPE_SIZE
                            &&& got == envelope@.len()
                        },
                        EnvelopeError::WrongFormat(raw) => {
                            &&& envelope@.len() == ENVELOPE_SIZE
                            &&& !envelope_well_formed(envelope@)
                            &&& raw@ == envelope@
                        },
                        EnvelopeError::Zero(z) => {
                            &&& envelope_well_formed(envelope@)
                            &&& envelope_length(envelope@) == 0
                            &&& z == 0
                        },
                        EnvelopeError::DataTooLarge { limit: l, data_length: n } => {
                            &&& envelope_well_formed(envelope@)
                            &&& n == envelope_length(envelope@)
                            &&& n > old(self).limit
                            &&& l == old(self).limit
                        },
                        _ => false,
                    })
                    &&& match e.client_name {
                        Some(n) => n@ == old(self).name@,
                        None => false,
                    }
                    &&& match e.client_id {
                        Some(i) => i@ == old(self).uuid@,
                        None => false,
                    }
                },
            },
    {
        match Client::decode_envelope(envelope, self.limit) {
            Ok(n) => Ok(n),
            Err(kind) => {
                self.phase = SessionPhase::Closed;
                Err(ServerError::new(kind, Some(self.name.as_str()), Some(self.uuid.as_str())))
            },
        }
    }

    /// Tag a decoded request with this session's uuid before forwarding it
    /// to the coordinator.
    pub fn tag_request(&self, request: KasuminRequest) -> (r: KasuminRequest)
        requires
            self.phase == SessionPhase::Active,
        ensures
            r.uuid@ == self.uuid@,
            r.version == request.version,
            r.message == request.message,
    {
        KasuminRequest { uuid: self.uuid.clone(), version: request.version, message: request.message }
    }

    /// A payload failed schema decoding: terminal for this session.
    pub fn on_decode_error(&mut self, description: String) -> (e: ServerError)
        ensures
            *final(self) == (Client { phase: SessionPhase::Closed, ..*old(self) }),
            e.kind matches ServerErrorKind::Decode(d) && d@ == description@,
            e.client_name matches Some(n) && n@ == old(self).name@,
            e.client_id matches Some(i) && i@ == old(self).uuid@,
    {
        self.phase = SessionPhase::Closed;
        ServerError::new(
            ServerErrorKind::Decode(description),
            Some(self.name.as_str()),
            Some(self.uuid.as_str()),
        )
    }

    /// A socket read or write failed: terminal for this session.
    pub fn on_io_error(&mut self, description: String) -> (e: ServerError)
        ensures
            *final(self) == (Client { phase: SessionPhase::Closed, ..*old(self) }),
            e.kind matches ServerErrorKind::Network(d) && d@ == description@,
            e.client_name matches Some(n) && n@ == old(self).name@,
            e.client_id matches Some(i) && i@ == old(self).uuid@,
    {
        self.phase = SessionPhase::Closed;
        ServerError::new(
            ServerErrorKind::Network(description),
            Some(self.name.as_str()),
            Some(self.uuid.as_str()),
        )
    }

    /// Tear the session down.  Closing is idempotent: either loop of the
    /// connection may close first, and a second close changes nothing.
    pub fn close(&mut self)
        ensures
            *final(self) == (Client { phase: SessionPhase::Closed, ..*old(self) }),
            old(self).phase == SessionPhase::Closed ==> *final(self) == *old(self),
    {
        self.phase = SessionPhase::Closed;
    }
}

} // verus!
