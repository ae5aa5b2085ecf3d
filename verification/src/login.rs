//! The login server's side of the Titanium login exchange: the replies to
//! each client request, with the login acknowledgement encrypted as the
//! client expects.
use des::cipher::{BlockEncryptMut, KeyIvInit};

use vstd::prelude::*;
use vstd::utf8::encode_utf8;

use crate::bytes::{le32, le32_value_at, push_all, push_repeated, push_u32_le, zeroed, zeros};
use crate::opcodes::{
    messages_view, AppMessage, OP_LOGIN_ACCEPTED, OP_LOGIN_CHAT_MESSAGE, OP_LOGIN_LOGIN,
    OP_LOGIN_PLAY_REQUEST, OP_LOGIN_PLAY_RESPONSE, OP_LOGIN_SERVER_LIST_REQUEST,
    OP_LOGIN_SERVER_LIST_RESPONSE, OP_LOGIN_SESSION_READY,
};
use crate::text::push_text;

verus! {

/// Size of the header that starts every login message.
pub const BASE_MSG_SIZE: usize = 10;

/// Size of the success/error block that starts every login reply.
pub const BASE_REPLY_SIZE: usize = 6;

/// Size of the encrypted block of the login acknowledgement.
pub const LOGIN_REPLY_SIZE: usize = 80;

/// The message header: the sequence number, then six zero bytes
/// (uncompressed, unencrypted).
pub open spec fn base_message(sequence: i32) -> Seq<u8> {
    le32(sequence as u32) + zeros(6)
}

/// The reply block: the success flag, the message-string id and an empty
/// string.
pub open spec fn base_reply(success: bool, error_str_id: i32) -> Seq<u8> {
    seq![if success { 1u8 } else { 0u8 }] + le32(error_str_id as u32) + seq![0u8]
}

/// Builds the header that starts every login message.
pub fn build_base_message(sequence: i32) -> (buf: Vec<u8>)
    ensures
        buf@ == base_message(sequence),
{
    let mut buf: Vec<u8> = Vec::new();
    push_u32_le(&mut buf, sequence as u32);
    push_repeated(&mut buf, 0, 6);
    assert(buf@ =~= base_message(sequence));
    buf
}

/// Builds the success/error block of a login reply.
pub fn build_base_reply(success: bool, error_str_id: i32) -> (buf: Vec<u8>)
    ensures
        buf@ == base_reply(success, error_str_id),
{
    let mut buf: Vec<u8> = Vec::new();
    buf.push(if success { 1u8 } else { 0u8 });
    push_u32_le(&mut buf, error_str_id as u32);
    buf.push(0u8);
    assert(buf@ =~= base_reply(success, error_str_id));
    buf
}

/// The DES-CBC encryption, under the all-zero key and IV, of a whole
/// number of blocks.
pub uninterp spec fn des_cbc_zero_key(plain: Seq<u8>) -> Seq<u8>;

/// `cbc::Encryptor::<des::Des>::encrypt_padded_mut` with `NoPadding`,
/// under the all-zero key and IV: encrypts whole 8-byte blocks. The
/// contract names the ciphertext and states that it is as long as the
/// plaintext; the cipher itself is left unsaid.
#[verifier::external_body]
fn des_cbc_encrypt_blocks(plain: &[u8]) -> (cipher: Vec<u8>)
    requires
        plain@.len() % 8 == 0,
    ensures
        cipher@ == des_cbc_zero_key(plain@),
        cipher@.len() == plain@.len(),
{
    let mut buf = plain.to_vec();
    let n = buf.len();
    let enc = cbc::Encryptor::<des::Des>::new(&[0u8; 8].into(), &[0u8; 8].into());
    enc.encrypt_padded_mut::<des::cipher::block_padding::NoPadding>(&mut buf, n)
        .expect("whole blocks")
        .to_vec()
}

/// `data` followed by zero bytes up to a multiple of eight bytes.
pub open spec fn zero_padded(data: Seq<u8>) -> Seq<u8> {
    data + zeros((((data.len() + 7) / 8) * 8 - data.len()) as nat)
}

/// Encrypts `data`, zero-padded to whole blocks, with DES-CBC under the
/// all-zero key and IV.
pub fn des_encrypt_zero_key(data: &[u8]) -> (cipher: Vec<u8>)
    requires
        data@.len() + 7 <= usize::MAX,
    ensures
        cipher@ == des_cbc_zero_key(zero_padded(data@)),
        cipher@.len() == zero_padded(data@).len(),
{
    let padded_len = ((data.len() + 7) / 8) * 8;
    let mut padded: Vec<u8> = Vec::new();
    push_all(&mut padded, data);
    push_repeated(&mut padded, 0, padded_len - data.len());
    assert(padded@ =~= zero_padded(data@));
    des_cbc_encrypt_blocks(padded.as_slice())
}

/// The session key the login server hands out, NUL-terminated.
pub open spec fn session_key_field() -> Seq<u8> {
    seq![65u8, 66u8, 67u8, 68u8, 69u8, 70u8, 71u8, 72u8, 73u8, 74u8, 0u8]
}

/// The fields of the login acknowledgement before encryption: success
/// (message 101), login-server account id 1, the session key, no failed
/// attempts, the offer fields, and empty user name and unknown strings.
pub open spec fn player_login_reply_fields() -> Seq<u8> {
    base_reply(true, 101) + seq![0u8, 0u8] + le32(1) + session_key_field() + le32(0) + seq![0u8]
        + le32(99) + le32(0xFFFF_FFFF) + le32(0) + le32(0) + le32(99) + le32(0xFFFF_FFFF) + le32(0)
        + seq![0u8, 0u8]
}

/// The login acknowledgement before encryption: its fields, zero-filled to
/// `LOGIN_REPLY_SIZE` bytes.
pub open spec fn player_login_reply() -> Seq<u8> {
    player_login_reply_fields() + zeros((80 - player_login_reply_fields().len()) as nat)
}

/// Builds the login acknowledgement before encryption.
pub fn build_player_login_reply() -> (buf: Vec<u8>)
    ensures
        buf@ == player_login_reply(),
{
    let mut buf = build_base_reply(true, 101);
    buf.push(0u8);
    buf.push(0u8);
    push_u32_le(&mut buf, 1);
    let key: [u8; 11] = [65u8, 66u8, 67u8, 68u8, 69u8, 70u8, 71u8, 72u8, 73u8, 74u8, 0u8];
    assert(key@ =~= session_key_field());
    push_all(&mut buf, key.as_slice());
    push_u32_le(&mut buf, 0);
    buf.push(0u8);
    push_u32_le(&mut buf, 99);
    push_u32_le(&mut buf, 0xFFFF_FFFF);
    push_u32_le(&mut buf, 0);
    push_u32_le(&mut buf, 0);
    push_u32_le(&mut buf, 99);
    push_u32_le(&mut buf, 0xFFFF_FFFF);
    push_u32_le(&mut buf, 0);
    buf.push(0u8);
    buf.push(0u8);
    assert(buf@ =~= player_login_reply_fields());
    let n = buf.len();
    push_repeated(&mut buf, 0, LOGIN_REPLY_SIZE - n);
    buf
}

/// The login acknowledgement as sent: the plain header with the client's
/// sequence number, then the encrypted reply.
pub fn login_accepted_payload(client_sequence: i32, encrypted: &[u8]) -> (buf: Vec<u8>)
    ensures
        buf@ == base_message(client_sequence) + encrypted@,
{
    let mut buf = build_base_message(client_sequence);
    push_all(&mut buf, encrypted);
    buf
}

/// The list of world servers: one standard server, "ADIF Dev" at
/// 127.0.0.1, region "us", language "en", up, with one player.
pub open spec fn server_list() -> Seq<u8> {
    base_message(4) + base_reply(true, 101) + le32(1) + encode_utf8("127.0.0.1"@) + seq![0u8] + le32(
        1,
    ) + le32(1) + encode_utf8("ADIF Dev"@) + seq![0u8] + encode_utf8("us"@) + seq![0u8]
        + encode_utf8("en"@) + seq![0u8] + le32(0) + le32(1)
}

/// Builds the list of world servers.
pub fn build_server_list() -> (buf: Vec<u8>)
    ensures
        buf@ == server_list(),
{
    let mut buf = build_base_message(4);
    let reply = build_base_reply(true, 101);
    push_all(&mut buf, reply.as_slice());
    push_u32_le(&mut buf, 1);
    push_text(&mut buf, "127.0.0.1");
    buf.push(0u8);
    push_u32_le(&mut buf, 1);
    push_u32_le(&mut buf, 1);
    push_text(&mut buf, "ADIF Dev");
    buf.push(0u8);
    push_text(&mut buf, "us");
    buf.push(0u8);
    push_text(&mut buf, "en");
    buf.push(0u8);
    push_u32_le(&mut buf, 0);
    push_u32_le(&mut buf, 1);
    assert(buf@ =~= server_list());
    buf
}

/// The sequence number at the start of a client message, or `default`
/// when the message is shorter than four bytes.
pub open spec fn client_sequence(data: Seq<u8>, default: i32) -> i32 {
    if data.len() >= 4 {
        le32_value_at(data, 0) as i32
    } else {
        default
    }
}

/// The world server a play request asks for (bytes 10 to 13), or 1 when
/// the request is shorter than 14 bytes.
pub open spec fn requested_server(data: Seq<u8>) -> u32 {
    if data.len() >= 14 {
        le32_value_at(data, 10)
    } else {
        1
    }
}

/// The replies to a login-server request, in sending order. A login is
/// acknowledged (the reply encrypted) and followed by the server list; a
/// play request is approved for the server asked for; requests of other
/// kinds get no reply.
pub open spec fn login_replies(opcode: u16, data: Seq<u8>) -> Seq<(u16, Seq<u8>)> {
    if opcode == OP_LOGIN_SESSION_READY {
        seq![(OP_LOGIN_CHAT_MESSAGE, base_message(2) + base_reply(true, 101))]
    } else if opcode == OP_LOGIN_LOGIN {
        seq![
            (OP_LOGIN_ACCEPTED, base_message(client_sequence(data, 3)) + des_cbc_zero_key(
                zero_padded(player_login_reply()),
            )),
            (OP_LOGIN_SERVER_LIST_RESPONSE, server_list()),
        ]
    } else if opcode == OP_LOGIN_SERVER_LIST_REQUEST {
        seq![(OP_LOGIN_SERVER_LIST_RESPONSE, server_list())]
    } else if opcode == OP_LOGIN_PLAY_REQUEST {
        seq![
            (OP_LOGIN_PLAY_RESPONSE, base_message(client_sequence(data, 0)) + base_reply(true, 101)
                + le32(requested_server(data))),
        ]
    } else {
        Seq::empty()
    }
}

fn read_client_sequence(data: &[u8], default: i32) -> (v: i32)
    ensures
        v == client_sequence(data@, default),
{
    if data.len() >= 4 {
        let v: u32 = (data[3] as u32) * 0x100_0000 + (data[2] as u32) * 0x1_0000 + (data[1] as u32)
            * 0x100 + (data[0] as u32);
        v as i32
    } else {
        default
    }
}

fn read_requested_server(data: &[u8]) -> (v: u32)
    ensures
        v == requested_server(data@),
{
    if data.len() >= 14 {
        (data[13] as u32) * 0x100_0000 + (data[12] as u32) * 0x1_0000 + (data[11] as u32) * 0x100
            + (data[10] as u32)
    } else {
        1
    }
}

/// The messages the login server sends in answer to a client request.
pub fn handle_login_opcode(opcode: u16, data: &[u8]) -> (replies: Vec<AppMessage>)
    ensures
        messages_view(replies@) == login_replies(opcode, data@),
{
    let mut replies: Vec<AppMessage> = Vec::new();
    if opcode == OP_LOGIN_SESSION_READY {
        let mut reply = build_base_message(2);
        let tail = build_base_reply(true, 101);
        push_all(&mut reply, tail.as_slice());
        replies.push(AppMessage { opcode: OP_LOGIN_CHAT_MESSAGE, payload: reply });
    } else if opcode == OP_LOGIN_LOGIN {
        let seq_no = read_client_sequence(data, 3);
        let plain = build_player_login_reply();
        let encrypted = des_encrypt_zero_key(plain.as_slice());
        let accepted = login_accepted_payload(seq_no, encrypted.as_slice());
        replies.push(AppMessage { opcode: OP_LOGIN_ACCEPTED, payload: accepted });
        replies.push(AppMessage { opcode: OP_LOGIN_SERVER_LIST_RESPONSE, payload: build_server_list() });
    } else if opcode == OP_LOGIN_SERVER_LIST_REQUEST {
        replies.push(AppMessage { opcode: OP_LOGIN_SERVER_LIST_RESPONSE, payload: build_server_list() });
    } else if opcode == OP_LOGIN_PLAY_REQUEST {
        let seq_no = read_client_sequence(data, 0);
        let server = read_requested_server(data);
        let mut reply = build_base_message(seq_no);
        let tail = build_base_reply(true, 101);
        push_all(&mut reply, tail.as_slice());
        push_u32_le(&mut reply, server);
        replies.push(AppMessage { opcode: OP_LOGIN_PLAY_RESPONSE, payload: reply });
    }
    assert(messages_view(replies@) =~= login_replies(opcode, data@));
    replies
}

} // verus!
