//! Binary protocol between cluster nodes.
//!
//! A message starts with a type byte, followed by its fields in a fixed
//! order, integers big-endian. Operations always come last, so that their
//! length check is independent of the rest of the message. Amounts travel as
//! the 32 bits of an IEEE-754 single-precision number; this module treats
//! them as opaque bit patterns, the one exception being the pattern of `-1.0`
//! (`NO_LIMIT`), which stands for "no limit".

use vstd::prelude::*;
use vstd::slice::slice_subrange;

use crate::address::{IpAddress, NodeAddr};
use crate::bytes::{
    be_u16, be_u32, be_u64, get_u16_be, get_u32_be, get_u64_be, push_u16_be, push_u32_be,
    push_u64_be, read_u16_be, read_u32_be, read_u64_be, lemma_read_u16_window,
    lemma_read_u32_window, lemma_read_u64_window, lemma_u16_bytes, lemma_u16_roundtrip,
    lemma_u32_bytes, lemma_u32_roundtrip, lemma_u64_bytes, lemma_u64_roundtrip,
};
use crate::errors::{AppError, DecodeError};

verus! {

// message types
pub const MSG_TYPE_REQUEST: u8 = 0x00;
pub const MSG_TYPE_LOG: u8 = 0x01;
pub const MSG_TYPE_ACK: u8 = 0x02;
pub const MSG_TYPE_ELECTION: u8 = 0x03;
pub const MSG_TYPE_ELECTION_OK: u8 = 0x04;
pub const MSG_TYPE_COORDINATOR: u8 = 0x05;

// operation types
pub const OP_TYPE_CHARGE: u8 = 0x00;
pub const OP_TYPE_LIMIT_CARD: u8 = 0x01;
pub const OP_TYPE_LIMIT_ACCOUNT: u8 = 0x02;

/// Bit pattern of the single-precision value `-1.0`, written for "no limit".
pub const NO_LIMIT: u32 = 0xBF80_0000;
pub const TRUE: u8 = 0x01;
pub const FALSE: u8 = 0x00;

// lengths of attribute serials
pub const OP_ID_SRL_LEN: usize = 4;
pub const NODE_ID_SRL_LEN: usize = 8;
pub const SOCKET_ADDR_LEN: usize = 6;
pub const ACC_ID_SRL_LEN: usize = 8;
pub const CARD_ID_SRL_LEN: usize = 8;
pub const AMOUNT_SRL_LEN: usize = 4;
pub const OFFLINE_SRL_LEN: usize = 1;

// lengths of operation bodies (without the type byte)
pub const CHARGE_SRL_LEN: usize = ACC_ID_SRL_LEN + CARD_ID_SRL_LEN + AMOUNT_SRL_LEN
    + OFFLINE_SRL_LEN;
pub const LIMIT_ACC_SRL_LEN: usize = ACC_ID_SRL_LEN + AMOUNT_SRL_LEN;
pub const LIMIT_CARD_SRL_LEN: usize = ACC_ID_SRL_LEN + CARD_ID_SRL_LEN + AMOUNT_SRL_LEN;

/// An operation as it travels between nodes. Amounts and limits are the bit
/// patterns of single-precision numbers.
#[derive(Clone, Copy, Debug, PartialEq, Eq, Structural)]
pub enum WireOperation {
    Charge { account_id: u64, card_id: u64, amount: u32, from_offline_station: bool },
    LimitAccount { account_id: u64, new_limit: Option<u32> },
    LimitCard { account_id: u64, card_id: u64, new_limit: Option<u32> },
}

/// A replication message as it travels between nodes.
#[derive(Clone, Copy, Debug, PartialEq, Eq, Structural)]
pub enum WireMessage {
    /// A client request forwarded to the coordinator.
    Request { op_id: u32, addr: NodeAddr, op: WireOperation },
    /// A log entry sent by the coordinator to the replicas.
    Log { op_id: u32, op: WireOperation },
    /// A replica's acknowledgement of a log entry.
    Ack { op_id: u32 },
    /// A candidate's election message.
    Election { candidate_id: u64, candidate_addr: NodeAddr },
    /// A higher node's answer to a candidate.
    ElectionOk { responder_id: u64 },
    /// Announcement of the new leader.
    Coordinator { leader_id: u64, leader_addr: NodeAddr },
}

// ----------------------------------------------------------------------
// Specification of the format
// ----------------------------------------------------------------------

/// The bits written for a limit.
pub open spec fn limit_bits(limit: Option<u32>) -> u32 {
    match limit {
        Some(bits) => bits,
        None => NO_LIMIT,
    }
}

/// The limit read from its bits.
pub open spec fn limit_from_bits(bits: u32) -> Option<u32> {
    if bits == NO_LIMIT {
        None
    } else {
        Some(bits)
    }
}

/// The byte written for a flag.
pub open spec fn flag_byte(b: bool) -> u8 {
    if b {
        TRUE
    } else {
        FALSE
    }
}

/// The bytes of an operation.
pub open spec fn spec_serialize_operation(op: WireOperation) -> Seq<u8> {
    match op {
        WireOperation::Charge { account_id, card_id, amount, from_offline_station } => seq![
            OP_TYPE_CHARGE,
        ] + be_u64(account_id) + be_u64(card_id) + be_u32(amount) + seq![
            flag_byte(from_offline_station),
        ],
        WireOperation::LimitAccount { account_id, new_limit } => seq![OP_TYPE_LIMIT_ACCOUNT]
            + be_u64(account_id) + be_u32(limit_bits(new_limit)),
        WireOperation::LimitCard { account_id, card_id, new_limit } => seq![OP_TYPE_LIMIT_CARD]
            + be_u64(account_id) + be_u64(card_id) + be_u32(limit_bits(new_limit)),
    }
}

/// The bytes of an IPv4 socket address: the four octets, then the port.
pub open spec fn spec_addr_bytes(addr: NodeAddr) -> Seq<u8> {
    match addr.ip {
        IpAddress::V4(a, b, c, d) => seq![a, b, c, d] + be_u16(addr.port),
        IpAddress::V6(..) => Seq::empty(),
    }
}

/// The bytes of a message.
pub open spec fn spec_serialize_message(msg: WireMessage) -> Seq<u8> {
    match msg {
        WireMessage::Request { op_id, addr, op } => seq![MSG_TYPE_REQUEST] + be_u32(op_id)
            + spec_addr_bytes(addr) + spec_serialize_operation(op),
        WireMessage::Log { op_id, op } => seq![MSG_TYPE_LOG] + be_u32(op_id)
            + spec_serialize_operation(op),
        WireMessage::Ack { op_id } => seq![MSG_TYPE_ACK] + be_u32(op_id),
        WireMessage::Election { candidate_id, candidate_addr } => seq![MSG_TYPE_ELECTION]
            + be_u64(candidate_id) + spec_addr_bytes(candidate_addr),
        WireMessage::ElectionOk { responder_id } => seq![MSG_TYPE_ELECTION_OK] + be_u64(
            responder_id,
        ),
        WireMessage::Coordinator { leader_id, leader_addr } => seq![MSG_TYPE_COORDINATOR]
            + be_u64(leader_id) + spec_addr_bytes(leader_addr),
    }
}

/// Whether a message can be written: its address, if any, is IPv4.
pub open spec fn is_serializable(msg: WireMessage) -> bool {
    match msg {
        WireMessage::Request { addr, .. } => addr.ip is V4,
        WireMessage::Election { candidate_addr, .. } => candidate_addr.ip is V4,
        WireMessage::Coordinator { leader_addr, .. } => leader_addr.ip is V4,
        _ => true,
    }
}

/// A protocol error.
pub open spec fn protocol_err(reason: DecodeError) -> AppError {
    AppError::InvalidProtocol { reason }
}

/// The charge operation read from its body (the bytes after the type byte).
pub open spec fn spec_deserialize_charge(body: Seq<u8>) -> Result<WireOperation, AppError> {
    if body.len() != CHARGE_SRL_LEN {
        Err(protocol_err(DecodeError::WrongLength { tag: OP_TYPE_CHARGE, len: body.len() as usize }))
    } else if body[20] != TRUE && body[20] != FALSE {
        Err(protocol_err(DecodeError::InvalidOfflineFlag { value: body[20] }))
    } else {
        Ok(
            WireOperation::Charge {
                account_id: read_u64_be(body, 0),
                card_id: read_u64_be(body, 8),
                amount: read_u32_be(body, 16),
                from_offline_station: body[20] == TRUE,
            },
        )
    }
}

/// The account-limit operation read from its body.
pub open spec fn spec_deserialize_limit_account(body: Seq<u8>) -> Result<WireOperation, AppError> {
    if body.len() != LIMIT_ACC_SRL_LEN {
        Err(
            protocol_err(
                DecodeError::WrongLength { tag: OP_TYPE_LIMIT_ACCOUNT, len: body.len() as usize },
            ),
        )
    } else {
        Ok(
            WireOperation::LimitAccount {
                account_id: read_u64_be(body, 0),
                new_limit: limit_from_bits(read_u32_be(body, 8)),
            },
        )
    }
}

/// The card-limit operation read from its body.
pub open spec fn spec_deserialize_limit_card(body: Seq<u8>) -> Result<WireOperation, AppError> {
    if body.len() != LIMIT_CARD_SRL_LEN {
        Err(
            protocol_err(
                DecodeError::WrongLength { tag: OP_TYPE_LIMIT_CARD, len: body.len() as usize },
            ),
        )
    } else {
        Ok(
            WireOperation::LimitCard {
                account_id: read_u64_be(body, 0),
                card_id: read_u64_be(body, 8),
                new_limit: limit_from_bits(read_u32_be(body, 16)),
            },
        )
    }
}

/// The operation read from a byte sequence.
pub open spec fn spec_deserialize_operation(p: Seq<u8>) -> Result<WireOperation, AppError> {
    let body = p.subrange(1, p.len() as int);
    if p.len() == 0 {
        Err(protocol_err(DecodeError::NotEnoughBytes))
    } else if p[0] == OP_TYPE_CHARGE {
        spec_deserialize_charge(body)
    } else if p[0] == OP_TYPE_LIMIT_ACCOUNT {
        spec_deserialize_limit_account(body)
    } else if p[0] == OP_TYPE_LIMIT_CARD {
        spec_deserialize_limit_card(body)
    } else {
        Err(protocol_err(DecodeError::UnknownOperationType { tag: p[0] }))
    }
}

/// The operation that closes a message, read from the bytes at and after `start`.
pub open spec fn spec_trailing_operation(p: Seq<u8>, start: int) -> Result<
    WireOperation,
    AppError,
> {
    if p.len() <= start {
        Err(protocol_err(DecodeError::NotEnoughBytes))
    } else {
        spec_deserialize_operation(p.subrange(start, p.len() as int))
    }
}

/// The address stored in six bytes at position `i`.
pub open spec fn read_addr(p: Seq<u8>, i: int) -> NodeAddr {
    NodeAddr { ip: IpAddress::V4(p[i], p[i + 1], p[i + 2], p[i + 3]), port: read_u16_be(p, i + 4) }
}

/// The message read from a byte sequence.
pub open spec fn spec_deserialize_message(p: Seq<u8>) -> Result<WireMessage, AppError> {
    if p.len() == 0 {
        Err(AppError::InvalidData { reason: DecodeError::NotEnoughBytes })
    } else if p[0] == MSG_TYPE_REQUEST {
        if p.len() < 11 {
            Err(protocol_err(DecodeError::NotEnoughBytes))
        } else {
            match spec_trailing_operation(p, 11) {
                Ok(op) => Ok(
                    WireMessage::Request { op_id: read_u32_be(p, 1), addr: read_addr(p, 5), op },
                ),
                Err(e) => Err(e),
            }
        }
    } else if p[0] == MSG_TYPE_LOG {
        if p.len() < 5 {
            Err(protocol_err(DecodeError::NotEnoughBytes))
        } else {
            match spec_trailing_operation(p, 5) {
                Ok(op) => Ok(WireMessage::Log { op_id: read_u32_be(p, 1), op }),
                Err(e) => Err(e),
            }
        }
    } else if p[0] == MSG_TYPE_ACK {
        if p.len() < 5 {
            Err(protocol_err(DecodeError::NotEnoughBytes))
        } else {
            Ok(WireMessage::Ack { op_id: read_u32_be(p, 1) })
        }
    } else if p[0] == MSG_TYPE_ELECTION {
        if p.len() < 15 {
            Err(protocol_err(DecodeError::NotEnoughBytes))
        } else {
            Ok(WireMessage::Election { candidate_id: read_u64_be(p, 1), candidate_addr: read_addr(p, 9) })
        }
    } else if p[0] == MSG_TYPE_ELECTION_OK {
        if p.len() < 9 {
            Err(protocol_err(DecodeError::NotEnoughBytes))
        } else {
            Ok(WireMessage::ElectionOk { responder_id: read_u64_be(p, 1) })
        }
    } else if p[0] == MSG_TYPE_COORDINATOR {
        if p.len() < 15 {
            Err(protocol_err(DecodeError::NotEnoughBytes))
        } else {
            Ok(WireMessage::Coordinator { leader_id: read_u64_be(p, 1), leader_addr: read_addr(p, 9) })
        }
    } else {
        Err(AppError::InvalidData { reason: DecodeError::UnknownMessageType { tag: p[0] } })
    }
}

/// The length of a message whose size is fixed by its type: bytes after
/// that length are not read.
pub open spec fn fixed_message_len(msg: WireMessage) -> Option<int> {
    match msg {
        WireMessage::Request { .. } => None,
        WireMessage::Log { .. } => None,
        WireMessage::Ack { .. } => Some(5),
        WireMessage::ElectionOk { .. } => Some(9),
        WireMessage::Election { .. } => Some(15),
        WireMessage::Coordinator { .. } => Some(15),
    }
}

// ----------------------------------------------------------------------
// Serialization
// ----------------------------------------------------------------------

/// Serializes a charge operation.
pub fn serialize_charge_operation(
    account_id: u64,
    card_id: u64,
    amount: u32,
    from_offline_station: bool,
) -> (srl: Vec<u8>)
    ensures
        srl@ == spec_serialize_operation(
            WireOperation::Charge { account_id, card_id, amount, from_offline_station },
        ),
{
    let mut srl: Vec<u8> = Vec::new();
    srl.push(OP_TYPE_CHARGE);
    push_u64_be(&mut srl, account_id);
    push_u64_be(&mut srl, card_id);
    push_u32_be(&mut srl, amount);
    if from_offline_station {
        srl.push(TRUE);
    } else {
        srl.push(FALSE);
    }
    assert(srl@ =~= spec_serialize_operation(
        WireOperation::Charge { account_id, card_id, amount, from_offline_station },
    ));
    srl
}

/// The bits written for a limit (`NO_LIMIT` when there is none).
fn limit_to_bits(new_limit: Option<u32>) -> (bits: u32)
    ensures
        bits == limit_bits(new_limit),
{
    match new_limit {
        Some(bits) => bits,
        None => NO_LIMIT,
    }
}

/// Serializes an account-limit operation.
pub fn serialize_limit_account_operation(account_id: u64, new_limit: Option<u32>) -> (srl: Vec<u8>)
    ensures
        srl@ == spec_serialize_operation(WireOperation::LimitAccount { account_id, new_limit }),
{
    let mut srl: Vec<u8> = Vec::new();
    srl.push(OP_TYPE_LIMIT_ACCOUNT);
    push_u64_be(&mut srl, account_id);
    push_u32_be(&mut srl, limit_to_bits(new_limit));
    assert(srl@ =~= spec_serialize_operation(
        WireOperation::LimitAccount { account_id, new_limit },
    ));
    srl
}

/// Serializes a card-limit operation.
pub fn serialize_limit_card_operation(account_id: u64, card_id: u64, new_limit: Option<u32>) -> (srl:
    Vec<u8>)
    ensures
        srl@ == spec_serialize_operation(
            WireOperation::LimitCard { account_id, card_id, new_limit },
        ),
{
    let mut srl: Vec<u8> = Vec::new();
    srl.push(OP_TYPE_LIMIT_CARD);
    push_u64_be(&mut srl, account_id);
    push_u64_be(&mut srl, card_id);
    push_u32_be(&mut srl, limit_to_bits(new_limit));
    assert(srl@ =~= spec_serialize_operation(
        WireOperation::LimitCard { account_id, card_id, new_limit },
    ));
    srl
}

/// Serializes an operation.
pub fn serialize_operation(op: WireOperation) -> (srl: Vec<u8>)
    ensures
        srl@ == spec_serialize_operation(op),
{
    match op {
        WireOperation::Charge { account_id, card_id, amount, from_offline_station } =>
            serialize_charge_operation(account_id, card_id, amount, from_offline_station),
        WireOperation::LimitAccount { account_id, new_limit } =>
            serialize_limit_account_operation(account_id, new_limit),
        WireOperation::LimitCard { account_id, card_id, new_limit } =>
            serialize_limit_card_operation(account_id, card_id, new_limit),
    }
}

/// Appends every byte of `src` to `dst`.
fn extend_bytes(dst: &mut Vec<u8>, src: &Vec<u8>)
    ensures
        final(dst)@ == old(dst)@ + src@,
{
    let mut i: usize = 0;
    while i < src.len()
        invariant
            0 <= i <= src@.len(),
            dst@ == old(dst)@ + src@.subrange(0, i as int),
        decreases src@.len() - i,
    {
        dst.push(src[i]);
        i = i + 1;
        assert(dst@ =~= old(dst)@ + src@.subrange(0, i as int));
    }
    assert(src@.subrange(0, src@.len() as int) =~= src@);
}

/// Serializes a socket address; only IPv4 addresses can be written.
pub fn serialize_socket_addr(addr: NodeAddr) -> (res: Result<Vec<u8>, AppError>)
    ensures
        addr.ip is V4 ==> (res matches Ok(bytes) && bytes@ == spec_addr_bytes(addr)),
        addr.ip is V6 ==> res == Err::<Vec<u8>, AppError>(protocol_err(DecodeError::NotIpv4)),
{
    match addr.ip {
        IpAddress::V4(a, b, c, d) => {
            let mut bytes: Vec<u8> = Vec::new();
            bytes.push(a);
            bytes.push(b);
            bytes.push(c);
            bytes.push(d);
            push_u16_be(&mut bytes, addr.port);
            assert(bytes@ =~= spec_addr_bytes(addr));
            Ok(bytes)
        },
        IpAddress::V6(..) => Err(AppError::InvalidProtocol { reason: DecodeError::NotIpv4 }),
    }
}

/// Serializes a request message.
pub fn serialize_request_message(op_id: u32, addr: NodeAddr, op: WireOperation) -> (srl: Vec<u8>)
    requires
        addr.ip is V4,
    ensures
        srl@ == spec_serialize_message(WireMessage::Request { op_id, addr, op }),
{
    let mut srl: Vec<u8> = Vec::new();
    srl.push(MSG_TYPE_REQUEST);
    push_u32_be(&mut srl, op_id);
    push_addr(&mut srl, addr);
    let op_srl = serialize_operation(op);
    extend_bytes(&mut srl, &op_srl);
    assert(srl@ =~= spec_serialize_message(WireMessage::Request { op_id, addr, op }));
    srl
}

/// Serializes a log message.
pub fn serialize_log_message(op_id: u32, op: WireOperation) -> (srl: Vec<u8>)
    ensures
        srl@ == spec_serialize_message(WireMessage::Log { op_id, op }),
{
    let mut srl: Vec<u8> = Vec::new();
    srl.push(MSG_TYPE_LOG);
    push_u32_be(&mut srl, op_id);
    let op_srl = serialize_operation(op);
    extend_bytes(&mut srl, &op_srl);
    assert(srl@ =~= spec_serialize_message(WireMessage::Log { op_id, op }));
    srl
}

/// Serializes an acknowledgement message.
pub fn serialize_ack_message(op_id: u32) -> (srl: Vec<u8>)
    ensures
        srl@ == spec_serialize_message(WireMessage::Ack { op_id }),
        srl@.len() == 5,
{
    let mut srl: Vec<u8> = Vec::new();
    srl.push(MSG_TYPE_ACK);
    push_u32_be(&mut srl, op_id);
    assert(srl@ =~= spec_serialize_message(WireMessage::Ack { op_id }));
    srl
}

/// Appends the bytes of an IPv4 socket address.
fn push_addr(srl: &mut Vec<u8>, addr: NodeAddr)
    requires
        addr.ip is V4,
    ensures
        final(srl)@ == old(srl)@ + spec_addr_bytes(addr),
{
    let addr_srl = serialize_socket_addr(addr);
    match addr_srl {
        Ok(bytes) => extend_bytes(srl, &bytes),
        Err(_) => {},
    }
}

/// Serializes a candidate's election message.
pub fn serialize_election_message(candidate_id: u64, candidate_addr: NodeAddr) -> (srl: Vec<u8>)
    requires
        candidate_addr.ip is V4,
    ensures
        srl@ == spec_serialize_message(WireMessage::Election { candidate_id, candidate_addr }),
{
    let mut srl: Vec<u8> = Vec::new();
    srl.push(MSG_TYPE_ELECTION);
    push_u64_be(&mut srl, candidate_id);
    push_addr(&mut srl, candidate_addr);
    assert(srl@ =~= spec_serialize_message(WireMessage::Election { candidate_id, candidate_addr }));
    srl
}

/// Serializes a higher node's answer to a candidate.
pub fn serialize_election_ok_message(responder_id: u64) -> (srl: Vec<u8>)
    ensures
        srl@ == spec_serialize_message(WireMessage::ElectionOk { responder_id }),
{
    let mut srl: Vec<u8> = Vec::new();
    srl.push(MSG_TYPE_ELECTION_OK);
    push_u64_be(&mut srl, responder_id);
    assert(srl@ =~= spec_serialize_message(WireMessage::ElectionOk { responder_id }));
    srl
}

/// Serializes the announcement of a new leader.
pub fn serialize_coordinator_message(leader_id: u64, leader_addr: NodeAddr) -> (srl: Vec<u8>)
    requires
        leader_addr.ip is V4,
    ensures
        srl@ == spec_serialize_message(WireMessage::Coordinator { leader_id, leader_addr }),
{
    let mut srl: Vec<u8> = Vec::new();
    srl.push(MSG_TYPE_COORDINATOR);
    push_u64_be(&mut srl, leader_id);
    push_addr(&mut srl, leader_addr);
    assert(srl@ =~= spec_serialize_message(WireMessage::Coordinator { leader_id, leader_addr }));
    srl
}

/// Serializes a message; the address of a request must be IPv4.
pub fn serialize_message(msg: WireMessage) -> (srl: Vec<u8>)
    requires
        is_serializable(msg),
    ensures
        srl@ == spec_serialize_message(msg),
{
    match msg {
        WireMessage::Request { op_id, addr, op } => serialize_request_message(op_id, addr, op),
        WireMessage::Log { op_id, op } => serialize_log_message(op_id, op),
        WireMessage::Ack { op_id } => serialize_ack_message(op_id),
        WireMessage::Election { candidate_id, candidate_addr } => serialize_election_message(
            candidate_id,
            candidate_addr,
        ),
        WireMessage::ElectionOk { responder_id } => serialize_election_ok_message(responder_id),
        WireMessage::Coordinator { leader_id, leader_addr } => serialize_coordinator_message(
            leader_id,
            leader_addr,
        ),
    }
}

// ----------------------------------------------------------------------
// Deserialization
// ----------------------------------------------------------------------

/// Copies `payload[start..end]` when that range lies in the payload and
/// holds exactly `n` bytes.
pub fn read_bytes(payload: &[u8], start: usize, end: usize, n: usize) -> (res: Result<
    Vec<u8>,
    AppError,
>)
    ensures
        res is Ok <==> start <= end <= payload@.len() && end - start == n,
        res matches Ok(bytes) ==> bytes@ == payload@.subrange(start as int, end as int),
        res is Err ==> res == Err::<Vec<u8>, AppError>(
            AppError::InvalidData { reason: DecodeError::NotEnoughBytes },
        ),
{
    if start > end || end > payload.len() || end - start != n {
        return Err(AppError::InvalidData { reason: DecodeError::NotEnoughBytes });
    }
    let mut bytes: Vec<u8> = Vec::new();
    let mut i = start;
    while i < end
        invariant
            start <= i <= end <= payload@.len(),
            bytes@ == payload@.subrange(start as int, i as int),
        decreases end - i,
    {
        bytes.push(payload[i]);
        i = i + 1;
        assert(bytes@ =~= payload@.subrange(start as int, i as int));
    }
    Ok(bytes)
}

/// Reads a socket address from its six bytes: four IPv4 octets, then the port.
pub fn deserialize_socket_addr(bytes: &[u8]) -> (res: Result<NodeAddr, AppError>)
    requires
        bytes@.len() == SOCKET_ADDR_LEN,
    ensures
        res == Ok::<NodeAddr, AppError>(read_addr(bytes@, 0)),
{
    NodeAddr::v4(bytes[0], bytes[1], bytes[2], bytes[3], get_u16_be(bytes, 4))
        .into_result()
}

impl NodeAddr {
    /// Wraps the address in `Ok`.
    fn into_result(self) -> (res: Result<NodeAddr, AppError>)
        ensures
            res == Ok::<NodeAddr, AppError>(self),
    {
        Ok(self)
    }
}

/// Reads an account id from the first eight bytes.
pub fn deserialize_account_id(payload: &[u8]) -> (id: u64)
    requires
        payload@.len() >= ACC_ID_SRL_LEN,
    ensures
        id == read_u64_be(payload@, 0),
{
    get_u64_be(payload, 0)
}

/// Reads a card id from the first eight bytes.
pub fn deserialize_card_id(payload: &[u8]) -> (id: u64)
    requires
        payload@.len() >= CARD_ID_SRL_LEN,
    ensures
        id == read_u64_be(payload@, 0),
{
    get_u64_be(payload, 0)
}

/// Reads the bits of an amount from the first four bytes.
pub fn deserialize_amount(payload: &[u8]) -> (bits: u32)
    requires
        payload@.len() >= AMOUNT_SRL_LEN,
    ensures
        bits == read_u32_be(payload@, 0),
{
    get_u32_be(payload, 0)
}

/// Reads a limit from the first four bytes; `NO_LIMIT` reads as no limit.
pub fn deserialize_limit(payload: &[u8]) -> (limit: Option<u32>)
    requires
        payload@.len() >= AMOUNT_SRL_LEN,
    ensures
        limit == limit_from_bits(read_u32_be(payload@, 0)),
{
    let bits = deserialize_amount(payload);
    if bits == NO_LIMIT {
        None
    } else {
        Some(bits)
    }
}

/// Reads the `from_offline_station` flag from the first byte.
pub fn deserialize_from_offline_station(payload: &[u8]) -> (res: Result<bool, AppError>)
    requires
        payload@.len() >= OFFLINE_SRL_LEN,
    ensures
        payload@[0] == TRUE ==> res == Ok::<bool, AppError>(true),
        payload@[0] == FALSE ==> res == Ok::<bool, AppError>(false),
        payload@[0] != TRUE && payload@[0] != FALSE ==> res == Err::<bool, AppError>(
            protocol_err(DecodeError::InvalidOfflineFlag { value: payload@[0] }),
        ),
{
    if payload[0] == TRUE {
        Ok(true)
    } else if payload[0] == FALSE {
        Ok(false)
    } else {
        Err(AppError::InvalidProtocol { reason: DecodeError::InvalidOfflineFlag { value: payload[0] } })
    }
}

/// Reads a charge operation from its body.
pub fn deserialize_charge_operation(payload: &[u8]) -> (res: Result<WireOperation, AppError>)
    ensures
        res == spec_deserialize_charge(payload@),
{
    if payload.len() != CHARGE_SRL_LEN {
        return Err(
            AppError::InvalidProtocol {
                reason: DecodeError::WrongLength { tag: OP_TYPE_CHARGE, len: payload.len() },
            },
        );
    }
    let account_id = deserialize_account_id(payload);
    let card_id = deserialize_card_id(slice_subrange(payload, 8, 21));
    let amount = deserialize_amount(slice_subrange(payload, 16, 21));
    let from_offline_station = deserialize_from_offline_station(slice_subrange(payload, 20, 21));
    match from_offline_station {
        Ok(from_offline_station) => Ok(
            WireOperation::Charge { account_id, card_id, amount, from_offline_station },
        ),
        Err(e) => Err(e),
    }
}

/// Reads an account-limit operation from its body.
pub fn deserialize_limit_account_operation(payload: &[u8]) -> (res: Result<WireOperation, AppError>)
    ensures
        res == spec_deserialize_limit_account(payload@),
{
    if payload.len() != LIMIT_ACC_SRL_LEN {
        return Err(
            AppError::InvalidProtocol {
                reason: DecodeError::WrongLength { tag: OP_TYPE_LIMIT_ACCOUNT, len: payload.len() },
            },
        );
    }
    let account_id = deserialize_account_id(payload);
    let new_limit = deserialize_limit(slice_subrange(payload, 8, 12));
    Ok(WireOperation::LimitAccount { account_id, new_limit })
}

/// Reads a card-limit operation from its body.
pub fn deserialize_limit_card_operation(payload: &[u8]) -> (res: Result<WireOperation, AppError>)
    ensures
        res == spec_deserialize_limit_card(payload@),
{
    if payload.len() != LIMIT_CARD_SRL_LEN {
        return Err(
            AppError::InvalidProtocol {
                reason: DecodeError::WrongLength { tag: OP_TYPE_LIMIT_CARD, len: payload.len() },
            },
        );
    }
    let account_id = deserialize_account_id(payload);
    let card_id = deserialize_card_id(slice_subrange(payload, 8, 20));
    let new_limit = deserialize_limit(slice_subrange(payload, 16, 20));
    Ok(WireOperation::LimitCard { account_id, card_id, new_limit })
}

/// Reads an operation: a type byte, then the body of that type.
pub fn deserialize_operation(payload: &[u8]) -> (res: Result<WireOperation, AppError>)
    ensures
        res == spec_deserialize_operation(payload@),
{
    if payload.len() == 0 {
        return Err(AppError::InvalidProtocol { reason: DecodeError::NotEnoughBytes });
    }
    let body = slice_subrange(payload, 1, payload.len());
    if payload[0] == OP_TYPE_CHARGE {
        deserialize_charge_operation(body)
    } else if payload[0] == OP_TYPE_LIMIT_ACCOUNT {
        deserialize_limit_account_operation(body)
    } else if payload[0] == OP_TYPE_LIMIT_CARD {
        deserialize_limit_card_operation(body)
    } else {
        Err(AppError::InvalidProtocol { reason: DecodeError::UnknownOperationType { tag: payload[0] } })
    }
}

/// Reads the operation that closes a message, from position `start` on.
fn deserialize_trailing_operation(payload: &[u8], start: usize) -> (res: Result<
    WireOperation,
    AppError,
>)
    requires
        start <= payload@.len(),
    ensures
        res == spec_trailing_operation(payload@, start as int),
{
    if payload.len() <= start {
        return Err(AppError::InvalidProtocol { reason: DecodeError::NotEnoughBytes });
    }
    deserialize_operation(slice_subrange(payload, start, payload.len()))
}

/// Reads a message: a type byte, then the fields of that type.
pub fn deserialize_message(payload: &[u8]) -> (res: Result<WireMessage, AppError>)
    ensures
        res == spec_deserialize_message(payload@),
{
    if payload.len() == 0 {
        return Err(AppError::InvalidData { reason: DecodeError::NotEnoughBytes });
    }
    if payload[0] == MSG_TYPE_REQUEST {
        if payload.len() < 11 {
            return Err(AppError::InvalidProtocol { reason: DecodeError::NotEnoughBytes });
        }
        let op_id = get_u32_be(payload, 1);
        let addr = deserialize_socket_addr(slice_subrange(payload, 5, 11));
        let op = deserialize_trailing_operation(payload, 11);
        match (addr, op) {
            (Ok(addr), Ok(op)) => Ok(WireMessage::Request { op_id, addr, op }),
            (_, Err(e)) => Err(e),
            (Err(e), _) => Err(e),
        }
    } else if payload[0] == MSG_TYPE_LOG {
        if payload.len() < 5 {
            return Err(AppError::InvalidProtocol { reason: DecodeError::NotEnoughBytes });
        }
        let op_id = get_u32_be(payload, 1);
        match deserialize_trailing_operation(payload, 5) {
            Ok(op) => Ok(WireMessage::Log { op_id, op }),
            Err(e) => Err(e),
        }
    } else if payload[0] == MSG_TYPE_ACK {
        if payload.len() < 5 {
            return Err(AppError::InvalidProtocol { reason: DecodeError::NotEnoughBytes });
        }
        Ok(WireMessage::Ack { op_id: get_u32_be(payload, 1) })
    } else if payload[0] == MSG_TYPE_ELECTION {
        if payload.len() < 15 {
            return Err(AppError::InvalidProtocol { reason: DecodeError::NotEnoughBytes });
        }
        let candidate_id = get_u64_be(payload, 1);
        match deserialize_socket_addr(slice_subrange(payload, 9, 15)) {
            Ok(candidate_addr) => Ok(WireMessage::Election { candidate_id, candidate_addr }),
            Err(e) => Err(e),
        }
    } else if payload[0] == MSG_TYPE_ELECTION_OK {
        if payload.len() < 9 {
            return Err(AppError::InvalidProtocol { reason: DecodeError::NotEnoughBytes });
        }
        Ok(WireMessage::ElectionOk { responder_id: get_u64_be(payload, 1) })
    } else if payload[0] == MSG_TYPE_COORDINATOR {
        if payload.len() < 15 {
            return Err(AppError::InvalidProtocol { reason: DecodeError::NotEnoughBytes });
        }
        let leader_id = get_u64_be(payload, 1);
        match deserialize_socket_addr(slice_subrange(payload, 9, 15)) {
            Ok(leader_addr) => Ok(WireMessage::Coordinator { leader_id, leader_addr }),
            Err(e) => Err(e),
        }
    } else {
        Err(AppError::InvalidData { reason: DecodeError::UnknownMessageType { tag: payload[0] } })
    }
}

} // verus!

verus! {

// ----------------------------------------------------------------------
// Laws of the format
// ----------------------------------------------------------------------

/// Whether an operation carries no limit whose bits are `NO_LIMIT` (such a
/// limit is written exactly like "no limit").
pub open spec fn has_distinct_limit(op: WireOperation) -> bool {
    match op {
        WireOperation::LimitAccount { new_limit, .. } => new_limit != Some(NO_LIMIT),
        WireOperation::LimitCard { new_limit, .. } => new_limit != Some(NO_LIMIT),
        _ => true,
    }
}

/// Reading back the bytes of an operation gives the operation, for every
/// operation whose limit is not the `NO_LIMIT` pattern.
#[verifier::spinoff_prover]
#[verifier::rlimit(40)]
pub proof fn lemma_operation_roundtrip(op: WireOperation)
    requires
        has_distinct_limit(op),
    ensures
        spec_deserialize_operation(spec_serialize_operation(op)) == Ok::<WireOperation, AppError>(op),
{
    let s = spec_serialize_operation(op);
    let body = s.subrange(1, s.len() as int);
    match op {
        WireOperation::Charge { account_id, card_id, amount, from_offline_station } => {
            assert(body =~= be_u64(account_id) + be_u64(card_id) + be_u32(amount) + seq![
                flag_byte(from_offline_station),
            ]);
            assert(body.subrange(0, 8) =~= be_u64(account_id));
            assert(body.subrange(8, 16) =~= be_u64(card_id));
            assert(body.subrange(16, 20) =~= be_u32(amount));
            lemma_read_u64_window(body, 0, be_u64(account_id));
            lemma_read_u64_window(body, 8, be_u64(card_id));
            lemma_read_u32_window(body, 16, be_u32(amount));
            lemma_u64_roundtrip(account_id);
            lemma_u64_roundtrip(card_id);
            lemma_u32_roundtrip(amount);
        },
        WireOperation::LimitAccount { account_id, new_limit } => {
            assert(body =~= be_u64(account_id) + be_u32(limit_bits(new_limit)));
            assert(body.subrange(0, 8) =~= be_u64(account_id));
            assert(body.subrange(8, 12) =~= be_u32(limit_bits(new_limit)));
            lemma_read_u64_window(body, 0, be_u64(account_id));
            lemma_read_u32_window(body, 8, be_u32(limit_bits(new_limit)));
            lemma_u64_roundtrip(account_id);
            lemma_u32_roundtrip(limit_bits(new_limit));
        },
        WireOperation::LimitCard { account_id, card_id, new_limit } => {
            assert(body =~= be_u64(account_id) + be_u64(card_id) + be_u32(limit_bits(new_limit)));
            assert(body.subrange(0, 8) =~= be_u64(account_id));
            assert(body.subrange(8, 16) =~= be_u64(card_id));
            assert(body.subrange(16, 20) =~= be_u32(limit_bits(new_limit)));
            lemma_read_u64_window(body, 0, be_u64(account_id));
            lemma_read_u64_window(body, 8, be_u64(card_id));
            lemma_read_u32_window(body, 16, be_u32(limit_bits(new_limit)));
            lemma_u64_roundtrip(account_id);
            lemma_u64_roundtrip(card_id);
            lemma_u32_roundtrip(limit_bits(new_limit));
        },
    }
}

} // verus!

verus! {

/// Whether a message carries an operation whose limit is the `NO_LIMIT` pattern.
pub open spec fn message_has_distinct_limit(msg: WireMessage) -> bool {
    match msg {
        WireMessage::Request { op, .. } => has_distinct_limit(op),
        WireMessage::Log { op, .. } => has_distinct_limit(op),
        _ => true,
    }
}

/// An operation is written with at least its type byte.
pub proof fn lemma_operation_nonempty(op: WireOperation)
    ensures
        spec_serialize_operation(op).len() >= 1,
        spec_serialize_operation(op)[0] == match op {
            WireOperation::Charge { .. } => OP_TYPE_CHARGE,
            WireOperation::LimitAccount { .. } => OP_TYPE_LIMIT_ACCOUNT,
            WireOperation::LimitCard { .. } => OP_TYPE_LIMIT_CARD,
        },
{
}

/// Reading back the bytes of a message gives the message, for every message
/// that can be written and whose limit is not the `NO_LIMIT` pattern.
pub proof fn lemma_message_roundtrip(msg: WireMessage)
    requires
        is_serializable(msg),
        message_has_distinct_limit(msg),
    ensures
        spec_deserialize_message(spec_serialize_message(msg)) == Ok::<WireMessage, AppError>(msg),
{
    let s = spec_serialize_message(msg);
    match msg {
        WireMessage::Request { op_id, addr, op } => {
            let a = spec_addr_bytes(addr);
            let o = spec_serialize_operation(op);
            lemma_operation_nonempty(op);
            assert(s.subrange(1, 5) =~= be_u32(op_id));
            assert(s.subrange(11, s.len() as int) =~= o);
            lemma_read_u32_window(s, 1, be_u32(op_id));
            lemma_u32_roundtrip(op_id);
            lemma_operation_roundtrip(op);
            match addr.ip {
                IpAddress::V4(a0, a1, a2, a3) => {
                    assert(s.subrange(9, 11) =~= be_u16(addr.port));
                    lemma_read_u16_window(s, 9, be_u16(addr.port));
                    lemma_u16_roundtrip(addr.port);
                    assert(s[5] == a0 && s[6] == a1 && s[7] == a2 && s[8] == a3);
                    assert(read_addr(s, 5) == addr);
                },
                IpAddress::V6(..) => {},
            }
        },
        WireMessage::Log { op_id, op } => {
            let o = spec_serialize_operation(op);
            lemma_operation_nonempty(op);
            assert(s.subrange(1, 5) =~= be_u32(op_id));
            assert(s.subrange(5, s.len() as int) =~= o);
            lemma_read_u32_window(s, 1, be_u32(op_id));
            lemma_u32_roundtrip(op_id);
            lemma_operation_roundtrip(op);
        },
        WireMessage::Ack { op_id } => {
            assert(s.subrange(1, 5) =~= be_u32(op_id));
            lemma_read_u32_window(s, 1, be_u32(op_id));
            lemma_u32_roundtrip(op_id);
        },
        WireMessage::ElectionOk { responder_id } => {
            assert(s.subrange(1, 9) =~= be_u64(responder_id));
            lemma_read_u64_window(s, 1, be_u64(responder_id));
            lemma_u64_roundtrip(responder_id);
        },
        WireMessage::Election { candidate_id: id, candidate_addr: addr }
        | WireMessage::Coordinator { leader_id: id, leader_addr: addr } => {
            assert(s.subrange(1, 9) =~= be_u64(id));
            lemma_read_u64_window(s, 1, be_u64(id));
            lemma_u64_roundtrip(id);
            match addr.ip {
                IpAddress::V4(a0, a1, a2, a3) => {
                    assert(s.subrange(13, 15) =~= be_u16(addr.port));
                    lemma_read_u16_window(s, 13, be_u16(addr.port));
                    lemma_u16_roundtrip(addr.port);
                    assert(s[9] == a0 && s[10] == a1 && s[11] == a2 && s[12] == a3);
                    assert(read_addr(s, 9) == addr);
                },
                IpAddress::V6(..) => {},
            }
        },
    }
}

/// Writing an operation that was read from bytes gives back those bytes.
pub proof fn lemma_operation_bytes_roundtrip(p: Seq<u8>)
    requires
        spec_deserialize_operation(p) is Ok,
    ensures
        spec_serialize_operation(spec_deserialize_operation(p)->Ok_0) == p,
{
    let body = p.subrange(1, p.len() as int);
    let op = spec_deserialize_operation(p)->Ok_0;
    let s = spec_serialize_operation(op);
    lemma_u64_bytes(body[0], body[1], body[2], body[3], body[4], body[5], body[6], body[7]);
    assert(body.subrange(0, 8) =~= seq![body[0], body[1], body[2], body[3], body[4], body[5], body[6], body[7]]);
    if p[0] == OP_TYPE_CHARGE {
        lemma_u64_bytes(body[8], body[9], body[10], body[11], body[12], body[13], body[14], body[15]);
        lemma_u32_bytes(body[16], body[17], body[18], body[19]);
        assert(s =~= p);
    } else if p[0] == OP_TYPE_LIMIT_ACCOUNT {
        lemma_u32_bytes(body[8], body[9], body[10], body[11]);
        assert(s =~= p);
    } else {
        lemma_u64_bytes(body[8], body[9], body[10], body[11], body[12], body[13], body[14], body[15]);
        lemma_u32_bytes(body[16], body[17], body[18], body[19]);
        assert(s =~= p);
    }
}

/// Writing a message that was read from bytes gives back those bytes: all of
/// them for requests and log entries, and for a message of fixed size the
/// bytes up to that size (bytes after them are not read).
pub proof fn lemma_message_bytes_roundtrip(p: Seq<u8>)
    requires
        spec_deserialize_message(p) is Ok,
    ensures
        ({
            let msg = spec_deserialize_message(p)->Ok_0;
            match fixed_message_len(msg) {
                Some(n) => spec_serialize_message(msg) == p.subrange(0, n),
                None => spec_serialize_message(msg) == p,
            }
        }),
{
    let msg = spec_deserialize_message(p)->Ok_0;
    let s = spec_serialize_message(msg);
    if p[0] == MSG_TYPE_ELECTION || p[0] == MSG_TYPE_ELECTION_OK || p[0] == MSG_TYPE_COORDINATOR {
        lemma_u64_bytes(p[1], p[2], p[3], p[4], p[5], p[6], p[7], p[8]);
        if p[0] != MSG_TYPE_ELECTION_OK {
            lemma_u16_bytes(p[13], p[14]);
            assert(s =~= p.subrange(0, 15));
        } else {
            assert(s =~= p.subrange(0, 9));
        }
    } else {
        lemma_u32_bytes(p[1], p[2], p[3], p[4]);
        if p[0] == MSG_TYPE_REQUEST {
            let tail = p.subrange(11, p.len() as int);
            lemma_operation_bytes_roundtrip(tail);
            lemma_u16_bytes(p[9], p[10]);
            assert(s =~= p);
        } else if p[0] == MSG_TYPE_LOG {
            let tail = p.subrange(5, p.len() as int);
            lemma_operation_bytes_roundtrip(tail);
            assert(s =~= p);
        } else {
            assert(s =~= p.subrange(0, 5));
        }
    }
}

} // verus!
