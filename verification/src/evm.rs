//! Keys, addresses and signatures of the chain.
use vstd::prelude::*;
use vstd::string::{StrSliceExecFns, StringExecFns};
use vstd::utf8::encode_utf8;

use crate::text::{
    begins_with, chars_of, decimal, decimal_text, digit_char, digit_value, lower, lowered,
    same_chars, strip_prefixes, text_of, trim, trimmed, trimmed_end, trimmed_start, white_space,
    without_prefixes,
};

verus! {

/// The Keccak-256 digest of the bytes.
pub uninterp spec fn keccak256(bytes: Seq<u8>) -> Seq<u8>;

/// Hashes the bytes with `sha3::Keccak256::digest`. The digest is claimed to depend on the
/// bytes alone and to have thirty-two bytes.
#[verifier::external_body]
pub(crate) fn keccak(bytes: &Vec<u8>) -> (digest: Vec<u8>)
    ensures
        digest@ == keccak256(bytes@),
        digest@.len() == 32,
{
    <sha3::Keccak256 as sha3::Digest>::digest(bytes.as_slice()).to_vec()
}

/// Two hexadecimal digits for each byte.
pub open spec fn hex_of(bytes: Seq<u8>) -> Seq<char> {
    Seq::new(
        2 * bytes.len(),
        |i: int|
            if i % 2 == 0 {
                digit_char(bytes[i / 2] as int / 16)
            } else {
                digit_char(bytes[i / 2] as int % 16)
            },
    )
}

/// Writes bytes with `hex::encode`: two small hexadecimal digits for each byte.
#[verifier::external_body]
pub(crate) fn hex_encode(bytes: &Vec<u8>) -> (text: String)
    ensures
        text@ == hex_of(bytes@),
{
    hex::encode(bytes)
}

/// Whether the text is made of pairs of hexadecimal digits.
pub open spec fn is_hex(text: Seq<char>) -> bool {
    &&& text.len() % 2 == 0
    &&& forall|i: int| 0 <= i < text.len() ==> digit_value(#[trigger] text[i], 16) is Some
}

/// The bytes that pairs of hexadecimal digits spell.
pub open spec fn bytes_of_hex(text: Seq<char>) -> Seq<u8> {
    Seq::new(
        text.len() / 2,
        |i: int|
            (16 * digit_value(text[2 * i], 16)->0 + digit_value(text[2 * i + 1], 16)->0) as u8,
    )
}

/// What `hex::decode` says of a text that is not made of pairs of digits.
pub uninterp spec fn hex_error(text: Seq<char>) -> Seq<char>;

/// Reads bytes with `hex::decode`: it accepts exactly pairs of hexadecimal digits in either
/// case. What it says of other texts is claimed to depend on the text alone.
#[verifier::external_body]
pub(crate) fn hex_decode(text: &str) -> (bytes: Result<Vec<u8>, String>)
    ensures
        bytes is Ok <==> is_hex(text@),
        bytes is Ok ==> bytes->Ok_0@ == bytes_of_hex(text@),
        bytes is Err ==> bytes->Err_0@ == hex_error(text@),
{
    hex::decode(text).map_err(|error| error.to_string())
}

/// What `k256::ecdsa::SigningKey::from_slice` makes of bytes: the thirty-two bytes of a secret
/// key, or what is wrong with them.
pub uninterp spec fn loaded_secret(bytes: Seq<u8>) -> Result<Seq<u8>, Seq<char>>;

/// Loads a secret key with `k256::ecdsa::SigningKey::from_slice` and hands out its
/// `to_bytes`. The result is claimed to depend on the bytes alone, and a secret key to be
/// loaded as itself.
#[verifier::external_body]
fn load_secret(bytes: &Vec<u8>) -> (secret: Result<Vec<u8>, String>)
    ensures
        secret is Ok <==> loaded_secret(bytes@) is Ok,
        secret is Ok ==> secret->Ok_0@ == loaded_secret(bytes@)->Ok_0,
        secret is Ok ==> secret->Ok_0@.len() == 32 && is_secret(secret->Ok_0@),
        secret is Err ==> secret->Err_0@ == loaded_secret(bytes@)->Err_0,
{
    match k256::ecdsa::SigningKey::from_slice(bytes.as_slice()) {
        Ok(key) => Ok(key.to_bytes().to_vec()),
        Err(error) => Err(error.to_string()),
    }
}

/// Whether these are the bytes of a secret key.
pub open spec fn is_secret(bytes: Seq<u8>) -> bool {
    loaded_secret(bytes) is Ok && loaded_secret(bytes)->Ok_0 == bytes
}

/// A new secret key from `k256::ecdsa::SigningKey::random` and the system's source of
/// randomness. It depends on chance; whatever comes back is a secret key.
#[verifier::external_body]
fn random_secret() -> (secret: Vec<u8>)
    ensures
        secret@.len() == 32,
        is_secret(secret@),
{
    k256::ecdsa::SigningKey::random(&mut k256::elliptic_curve::rand_core::OsRng).to_bytes().to_vec()
}

/// The uncompressed point of the public key that belongs to a secret key.
pub uninterp spec fn public_point(secret: Seq<u8>) -> Seq<u8>;

/// Finds the public key with `k256::ecdsa::SigningKey::verifying_key` and writes it with
/// `to_encoded_point(false)`. The point is claimed to depend on the secret key alone and to
/// have sixty-five bytes.
#[verifier::external_body]
fn public_point_of(secret: &Vec<u8>) -> (point: Vec<u8>)
    requires
        is_secret(secret@),
    ensures
        point@ == public_point(secret@),
        point@.len() == 65,
{
    let key = k256::ecdsa::SigningKey::from_slice(secret.as_slice()).expect("a secret key");
    key.verifying_key().to_encoded_point(false).as_bytes().to_vec()
}

/// Whether `k256::ecdsa::Signature::try_from` accepts the bytes as a signature.
pub uninterp spec fn is_signature(bytes: Seq<u8>) -> bool;

/// Tests bytes with `k256::ecdsa::Signature::try_from`. The answer is claimed to depend on
/// the bytes alone.
#[verifier::external_body]
fn accepts_signature(bytes: &Vec<u8>) -> (accepted: bool)
    ensures
        accepted == is_signature(bytes@),
{
    k256::ecdsa::Signature::try_from(bytes.as_slice()).is_ok()
}

/// The point of the public key that `k256::ecdsa::VerifyingKey::recover_from_prehash` finds,
/// if it finds one.
pub uninterp spec fn recovered_point(digest: Seq<u8>, signature: Seq<u8>, id: u8) -> Option<
    Seq<u8>,
>;

/// Recovers the signer's public key with `k256::ecdsa::VerifyingKey::recover_from_prehash`
/// and writes it with `to_encoded_point(false)`. The result is claimed to depend on the
/// digest, the signature and the recovery number alone, and a point to have sixty-five bytes.
#[verifier::external_body]
fn recover_point(digest: &Vec<u8>, signature: &Vec<u8>, id: u8) -> (point: Option<Vec<u8>>)
    requires
        is_signature(signature@),
        id < 4,
    ensures
        point is Some <==> recovered_point(digest@, signature@, id) is Some,
        point is Some ==> point->0@ == recovered_point(digest@, signature@, id)->0,
        point is Some ==> point->0@.len() == 65,
{
    let given = k256::ecdsa::Signature::try_from(signature.as_slice()).expect("a signature");
    let number = k256::ecdsa::RecoveryId::from_byte(id).expect("a recovery number");
    match k256::ecdsa::VerifyingKey::recover_from_prehash(digest.as_slice(), &given, number) {
        Ok(key) => Some(key.to_encoded_point(false).as_bytes().to_vec()),
        Err(_) => None,
    }
}

/// What `k256::ecdsa::SigningKey::sign_prehash_recoverable` makes of a digest: a signature and
/// its recovery number, or what went wrong.
pub uninterp spec fn signed_digest(secret: Seq<u8>, digest: Seq<u8>) -> Result<
    (Seq<u8>, u8),
    Seq<char>,
>;

/// Signs a digest with `k256::ecdsa::SigningKey::sign_prehash_recoverable`, which derives its
/// nonce from the key and the digest. The result is claimed to depend on those alone; a
/// signature has sixty-four bytes, is accepted as one, and the signer's public key is
/// recovered from it under its recovery number.
#[verifier::external_body]
pub(crate) fn sign_digest(secret: &Vec<u8>, digest: &Vec<u8>) -> (signed: Result<
    (Vec<u8>, u8),
    String,
>)
    requires
        is_secret(secret@),
        digest@.len() == 32,
    ensures
        signed is Ok <==> signed_digest(secret@, digest@) is Ok,
        signed is Ok ==> (signed->Ok_0.0@, signed->Ok_0.1) == signed_digest(secret@, digest@)->Ok_0,
        signed is Ok ==> signed->Ok_0.0@.len() == 64 && signed->Ok_0.1 < 4,
        signed is Ok ==> is_signature(signed->Ok_0.0@),
        signed is Ok ==> recovered_point(digest@, signed->Ok_0.0@, signed->Ok_0.1) == Some(
            public_point(secret@),
        ),
        signed is Err ==> signed->Err_0@ == signed_digest(secret@, digest@)->Err_0,
{
    let key = k256::ecdsa::SigningKey::from_slice(secret.as_slice()).expect("a secret key");
    match key.sign_prehash_recoverable(digest.as_slice()) {
        Ok((signature, id)) => Ok((signature.to_bytes().to_vec(), id.to_byte())),
        Err(error) => Err(error.to_string()),
    }
}

/// A public key, by its uncompressed point.
pub struct EvmVerifyingKey {
    point: Vec<u8>,
}

/// A secret key.
pub struct EvmSigningKey {
    secret: Vec<u8>,
}

impl EvmVerifyingKey {
    pub closed spec fn point(self) -> Seq<u8> {
        self.point@
    }

    #[verifier::type_invariant]
    spec fn whole(self) -> bool {
        self.point@.len() == 65
    }
}

impl EvmSigningKey {
    pub closed spec fn secret(self) -> Seq<u8> {
        self.secret@
    }

    #[verifier::type_invariant]
    spec fn loaded(self) -> bool {
        is_secret(self.secret@) && self.secret@.len() == 32
    }

    /// Loads a secret key from its bytes, or says what is wrong with them.
    pub fn from_slice(bytes: &[u8]) -> (key: Result<EvmSigningKey, String>)
        ensures
            match key {
                Ok(key) => loaded_secret(bytes@) is Ok && key.secret() == loaded_secret(
                    bytes@,
                )->Ok_0,
                Err(error) => loaded_secret(bytes@) is Err && error@ == loaded_secret(
                    bytes@,
                )->Err_0,
            },
    {
        let copy = vstd::slice::slice_to_vec(bytes);
        assert(copy@ =~= bytes@);
        match load_secret(&copy) {
            Ok(secret) => Ok(EvmSigningKey { secret: secret }),
            Err(error) => Err(error),
        }
    }

    /// A new secret key.
    pub fn random() -> (key: EvmSigningKey)
        ensures
            is_secret(key.secret()),
    {
        EvmSigningKey { secret: random_secret() }
    }

    /// The public key.
    pub fn verifying_key(&self) -> (key: EvmVerifyingKey)
        ensures
            key.point() == public_point(self.secret()),
    {
        proof {
            use_type_invariant(self);
        }
        EvmVerifyingKey { point: public_point_of(&self.secret) }
    }

    /// The bytes of the secret key in hexadecimal digits.
    pub fn to_hex(&self) -> (text: String)
        ensures
            text@ == hex_of(self.secret()),
    {
        hex_encode(&self.secret)
    }

    /// Signs a digest.
    pub(crate) fn sign_prehash(&self, digest: &Vec<u8>) -> (signed: Result<(Vec<u8>, u8), String>)
        requires
            digest@.len() == 32,
        ensures
            match signed {
                Ok((signature, id)) => {
                    &&& signed_digest(self.secret(), digest@) is Ok
                    &&& signed_digest(self.secret(), digest@)->Ok_0 == (signature@, id)
                    &&& signature@.len() == 64
                    &&& id < 4
                    &&& is_signature(signature@)
                    &&& recovered_point(digest@, signature@, id) == Some(
                        public_point(self.secret()),
                    )
                },
                Err(error) => signed_digest(self.secret(), digest@) is Err && error@
                    == signed_digest(self.secret(), digest@)->Err_0,
            },
    {
        proof {
            use_type_invariant(self);
        }
        sign_digest(&self.secret, digest)
    }
}

/// What is hashed of a message that a wallet signs for its owner.
pub open spec fn personal_payload(message: Seq<u8>) -> Seq<u8> {
    encode_utf8("\x19Ethereum Signed Message:\n"@ + decimal(message.len())) + message
}

/// The digest of a message that a wallet signs for its owner.
pub fn evm_personal_sign_hash(message: &[u8]) -> (digest: Vec<u8>)
    ensures
        digest@ == keccak256(personal_payload(message@)),
        digest@.len() == 32,
{
    let mut prefix = String::from_str("\x19Ethereum Signed Message:\n");
    prefix.append(decimal_text(message.len() as u128).as_str());
    let mut payload = prefix.as_str().as_bytes_vec();
    let mut body = vstd::slice::slice_to_vec(message);
    payload.append(&mut body);
    assert(payload@ =~= personal_payload(message@));
    keccak(&payload)
}

/// The address of a public key: the last twenty bytes of the digest of its coordinates.
pub open spec fn address_of(point: Seq<u8>) -> Seq<char> {
    "0x"@ + hex_of(keccak256(point.skip(1)).skip(12))
}

/// The address of a public key.
pub fn evm_address_from_secp256k1_verifying_key(key: &EvmVerifyingKey) -> (address: String)
    ensures
        address@ == address_of(key.point()),
{
    proof {
        use_type_invariant(key);
    }
    address_of_point(&key.point)
}

fn address_of_point(point: &Vec<u8>) -> (address: String)
    requires
        point@.len() == 65,
    ensures
        address@ == address_of(point@),
{
    let coordinates = bytes_from(point, 1);
    let digest = keccak(&coordinates);
    let tail = bytes_from(&digest, 12);
    let mut address = String::from_str("0x");
    address.append(hex_encode(&tail).as_str());
    address
}

/// The bytes from a place on.
pub(crate) fn bytes_from(bytes: &Vec<u8>, from: usize) -> (rest: Vec<u8>)
    requires
        from <= bytes.len(),
    ensures
        rest@ == bytes@.skip(from as int),
{
    let mut rest: Vec<u8> = Vec::new();
    let mut i: usize = from;
    while i < bytes.len()
        invariant
            from <= i <= bytes.len(),
            rest@ == bytes@.subrange(from as int, i as int),
        decreases bytes.len() - i,
    {
        rest.push(bytes[i]);
        i = i + 1;
        assert(bytes@.subrange(from as int, i as int) =~= bytes@.subrange(from as int, i - 1).push(
            bytes@[i - 1],
        ));
    }
    assert(rest@ =~= bytes@.skip(from as int));
    rest
}

/// The first bytes.
pub(crate) fn bytes_until(bytes: &Vec<u8>, to: usize) -> (front: Vec<u8>)
    requires
        to <= bytes.len(),
    ensures
        front@ == bytes@.take(to as int),
{
    let mut front: Vec<u8> = Vec::new();
    let mut i: usize = 0;
    while i < to
        invariant
            i <= to <= bytes.len(),
            front@ == bytes@.take(i as int),
        decreases to - i,
    {
        front.push(bytes[i]);
        i = i + 1;
        assert(bytes@.take(i as int) =~= bytes@.take(i - 1).push(bytes@[i - 1]));
    }
    front
}

/// An address without white space around it and in small letters.
pub open spec fn normalized_address(address: Seq<char>) -> Seq<char> {
    lowered(trimmed(address))
}

/// Brings an address into the form in which addresses are compared.
pub fn normalize_evm_address(address: &str) -> (normalized: String)
    ensures
        normalized@ == normalized_address(address@),
{
    let chars = chars_of(address);
    let low = lower(&trim(&chars));
    text_of(&low)
}

/// What is wrong with a signature.
#[derive(Debug, Clone, Copy, PartialEq, Eq, Structural)]
pub enum SignatureFault {
    Invalid,
    RecoveryFailed,
    AddressMismatch,
}

/// The hexadecimal digits of a signature as it was given.
pub open spec fn signature_digits(text: Seq<char>) -> Seq<char> {
    without_prefixes(trimmed(text), "0x"@)
}

/// The recovery number that the last byte of a signature stands for.
pub open spec fn recovery_number(byte: u8) -> u8 {
    if byte >= 27 {
        (byte - 27) as u8
    } else {
        byte
    }
}

/// What is wrong with a signature of the message that the owner of the address is said to
/// have made, if anything is.
pub open spec fn signature_fault(address: Seq<char>, message: Seq<u8>, signature: Seq<char>) -> Option<
    SignatureFault,
> {
    let digits = signature_digits(signature);
    let bytes = bytes_of_hex(digits);
    if !is_hex(digits) || bytes.len() != 65 || !is_signature(bytes.take(64)) || recovery_number(
        bytes[64],
    ) >= 4 {
        Some(SignatureFault::Invalid)
    } else {
        match recovered_point(
            keccak256(personal_payload(message)),
            bytes.take(64),
            recovery_number(bytes[64]),
        ) {
            None => Some(SignatureFault::RecoveryFailed),
            Some(point) => if normalized_address(address_of(point)) != normalized_address(address) {
                Some(SignatureFault::AddressMismatch)
            } else {
                None
            },
        }
    }
}

/// Tests whether the owner of the address signed the message.
pub fn check_personal_signature(
    expected_address: &str,
    message: &[u8],
    signature_hex: &str,
) -> (fault: Option<SignatureFault>)
    ensures
        fault == signature_fault(expected_address@, message@, signature_hex@),
{
    let given = chars_of(signature_hex);
    let digits = text_of(&strip_prefixes(&trim(&given), "0x"));
    let bytes = match hex_decode(digits.as_str()) {
        Ok(bytes) => bytes,
        Err(_) => {
            return Some(SignatureFault::Invalid);
        },
    };
    if bytes.len() != 65 {
        return Some(SignatureFault::Invalid);
    }
    let signature = bytes_until(&bytes, 64);
    if !accepts_signature(&signature) {
        return Some(SignatureFault::Invalid);
    }
    let last: u8 = bytes[64];
    let number: u8 = if last >= 27 {
        last - 27
    } else {
        last
    };
    if number >= 4 {
        return Some(SignatureFault::Invalid);
    }
    let digest = evm_personal_sign_hash(message);
    let point = match recover_point(&digest, &signature, number) {
        Some(point) => point,
        None => {
            return Some(SignatureFault::RecoveryFailed);
        },
    };
    let recovered = address_of_point(&point);
    let left = chars_of(normalize_evm_address(recovered.as_str()).as_str());
    let right = chars_of(normalize_evm_address(expected_address).as_str());
    if !same_chars(&left, &right) {
        return Some(SignatureFault::AddressMismatch);
    }
    None
}

/// The text of a signature with its recovery number.
pub open spec fn signature_text(signature: Seq<u8>, id: u8) -> Seq<char> {
    "0x"@ + hex_of(signature.push(id))
}

/// Signs a message for the owner of the key; what comes out passes the test of signatures for
/// the key's address. An error says what went wrong.
pub fn sign_personal_message(key: &EvmSigningKey, message: &[u8]) -> (signed: Result<String, String>)
    ensures
        match signed {
            Ok(text) => {
                let made = signed_digest(key.secret(), keccak256(personal_payload(message@)));
                &&& made is Ok
                &&& text@ == signature_text(made->Ok_0.0, made->Ok_0.1)
                &&& signature_fault(address_of(public_point(key.secret())), message@, text@) is None
            },
            Err(error) => {
                let made = signed_digest(key.secret(), keccak256(personal_payload(message@)));
                made is Err && error@ == made->Err_0
            },
        },
{
    let digest = evm_personal_sign_hash(message);
    match key.sign_prehash(&digest) {
        Ok((signature, id)) => {
            let mut bytes = signature;
            bytes.push(id);
            let mut text = String::from_str("0x");
            text.append(hex_encode(&bytes).as_str());
            proof {
                lemma_signature_text(bytes@);
                assert(bytes@.take(64) =~= signature@);
            }
            Ok(text)
        },
        Err(error) => Err(error),
    }
}

proof fn lemma_hex_digit(byte: u8)
    ensures
        digit_value(digit_char(byte as int / 16), 16) == Some(byte as int / 16),
        digit_value(digit_char(byte as int % 16), 16) == Some(byte as int % 16),
        !white_space(digit_char(byte as int / 16)),
        !white_space(digit_char(byte as int % 16)),
        digit_char(byte as int / 16) != 'x',
        digit_char(byte as int % 16) != 'x',
{
}

/// Reading back the digits of bytes gives the bytes.
pub proof fn hex_reads_back(bytes: Seq<u8>)
    ensures
        is_hex(hex_of(bytes)),
        bytes_of_hex(hex_of(bytes)) == bytes,
{
    let text = hex_of(bytes);
    assert forall|i: int| 0 <= i < text.len() implies digit_value(#[trigger] text[i], 16) is Some by {
        lemma_hex_digit(bytes[i / 2]);
    }
    assert forall|i: int| 0 <= i < bytes.len() implies bytes_of_hex(text)[i] == bytes[i] by {
        lemma_hex_digit(bytes[i]);
        assert((2 * i) / 2 == i && (2 * i) % 2 == 0);
        assert((2 * i + 1) / 2 == i && (2 * i + 1) % 2 == 1);
    }
    assert(bytes_of_hex(text) =~= bytes);
}

proof fn lemma_signature_text(bytes: Seq<u8>)
    requires
        bytes.len() > 0,
    ensures
        signature_digits("0x"@ + hex_of(bytes)) == hex_of(bytes),
        is_hex(hex_of(bytes)),
        bytes_of_hex(hex_of(bytes)) == bytes,
{
    reveal_strlit("0x");
    let digits = hex_of(bytes);
    let text = "0x"@ + digits;
    hex_reads_back(bytes);
    lemma_hex_digit(bytes[0]);
    lemma_hex_digit(bytes[bytes.len() - 1]);
    assert(digits[0] == digit_char(bytes[0] as int / 16));
    assert(text[0] == '0');
    assert(trimmed_start(text) == text);
    assert(text.last() == digits[digits.len() - 1]);
    assert((digits.len() - 1) / 2 == bytes.len() - 1);
    assert(trimmed_end(text) == text);
    assert(text.take(2) =~= "0x"@);
    assert(text.skip(2) =~= digits);
    assert(!begins_with(digits, "0x"@)) by {
        if begins_with(digits, "0x"@) {
            assert(digits.take(2)[1] == 'x');
            assert(digits[1] == digit_char(bytes[0] as int % 16));
        }
    }
    assert(without_prefixes(text, "0x"@) == without_prefixes(digits, "0x"@));
}

} // verus!
