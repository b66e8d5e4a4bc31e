//! Obfuscation of the login secret: a byte-wise exclusive-or with a fixed,
//! publicly known key. It hides nothing from anyone who knows the protocol.
use vstd::prelude::*;

use vstd::string::StringSliceAdditionalSpecFns;

use crate::cmds::Cmd;
use crate::tlv::{RecordView, TypeLengthValue};

verus! {

/// The fixed key: ASCII `NtgrSmartSwitchRock`.
pub open spec fn obfuscation_key() -> Seq<u8> {
    seq![
        0x4eu8, 0x74u8, 0x67u8, 0x72u8, 0x53u8, 0x6du8, 0x61u8, 0x72u8, 0x74u8, 0x53u8,
        0x77u8, 0x69u8, 0x74u8, 0x63u8, 0x68u8, 0x52u8, 0x6fu8, 0x63u8, 0x6bu8,
    ]
}

/// Byte `i` of `s` combined with byte `i` of `k`, as long as the shorter of
/// the two.
pub open spec fn xor_bytes(s: Seq<u8>, k: Seq<u8>) -> Seq<u8> {
    Seq::new(
        if s.len() <= k.len() {
            s.len()
        } else {
            k.len()
        },
        |i: int| s[i] ^ k[i],
    )
}

/// The fixed key as bytes.
pub fn key_bytes() -> (r: Vec<u8>)
    ensures
        r@ == obfuscation_key(),
{
    let r: Vec<u8> = vec![
        0x4e, 0x74, 0x67, 0x72, 0x53, 0x6d, 0x61, 0x72, 0x74, 0x53, 0x77, 0x69, 0x74, 0x63, 0x68,
        0x52, 0x6f, 0x63, 0x6b,
    ];
    assert(r@ =~= obfuscation_key());
    r
}

/// Pairs byte `i` of `secret` with byte `i` of `key`; the result is as long
/// as the shorter input.
pub fn xor_with_key(secret: &[u8], key: &[u8]) -> (r: Vec<u8>)
    ensures
        r@ == xor_bytes(secret@, key@),
{
    let n: usize = if secret.len() <= key.len() {
        secret.len()
    } else {
        key.len()
    };
    let mut r: Vec<u8> = Vec::new();
    let mut i: usize = 0;
    while i < n
        invariant
            i <= n,
            n == xor_bytes(secret@, key@).len(),
            r@ == xor_bytes(secret@, key@).take(i as int),
        decreases n - i,
    {
        r.push(secret[i] ^ key[i]);
        i = i + 1;
        assert(xor_bytes(secret@, key@).take(i as int) =~= xor_bytes(secret@, key@).take(
            i - 1,
        ).push(secret@[i - 1] ^ key@[i - 1]));
    }
    assert(xor_bytes(secret@, key@).take(i as int) =~= xor_bytes(secret@, key@));
    r
}

/// The plaintext secret obfuscated with the fixed key, as the login record
/// carries it.
pub fn password(plain: &str) -> (r: Vec<u8>)
    ensures
        r@ == xor_bytes(plain.spec_bytes(), obfuscation_key()),
{
    let key = key_bytes();
    xor_with_key(plain.as_bytes(), key.as_slice())
}

/// The login record: the password command carrying the obfuscated secret.
pub fn login_record(plain: &str) -> (r: TypeLengthValue)
    ensures
        r@ == (RecordView {
            code: Cmd::CMD_Password.spec_code(),
            payload: xor_bytes(plain.spec_bytes(), obfuscation_key()),
        }),
{
    TypeLengthValue::with_value(Cmd::CMD_Password, password(plain))
}

/// Obfuscating twice with the same key gives back any secret no longer than
/// the key.
pub proof fn lemma_xor_involution(secret: Seq<u8>, key: Seq<u8>)
    requires
        secret.len() <= key.len(),
    ensures
        xor_bytes(xor_bytes(secret, key), key) == secret,
{
    let once = xor_bytes(secret, key);
    assert forall|i: int| 0 <= i < secret.len() implies #[trigger] xor_bytes(once, key)[i]
        == secret[i] by {
        let a = secret[i];
        let b = key[i];
        assert((a ^ b) ^ b == a) by (bit_vector);
    }
    assert(xor_bytes(once, key) =~= secret);
}

} // verus!
