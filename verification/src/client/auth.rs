use vstd::prelude::*;
use crate::error::{plain_result, VncError, VncErrorView};
use crate::protocol::security::des;
use crate::protocol::security::types::AuthResult;

verus! {

/// What a client may present to a server: a user name, a password, both or neither.
#[derive(Debug, Clone)]
pub struct Credentials {
    pub username: Option<String>,
    pub password: Option<String>,
}

/// The mathematical value of [`Credentials`].
pub struct CredentialsView {
    pub username: Option<Seq<char>>,
    pub password: Option<Seq<char>>,
}

/// The characters of an optional string.
pub open spec fn view_text(text: Option<String>) -> Option<Seq<char>> {
    match text {
        Some(t) => Some(t@),
        None => None,
    }
}

impl View for Credentials {
    type V = CredentialsView;

    open spec fn view(&self) -> CredentialsView {
        CredentialsView {
            username: view_text(self.username),
            password: view_text(self.password),
        }
    }
}

impl Credentials {
    /// Credentials made of the given parts.
    pub fn new(username: Option<String>, password: Option<String>) -> (credentials: Self)
        ensures
            credentials.username == username,
            credentials.password == password,
    {
        Self { username, password }
    }

    /// The password, if there is one.
    pub fn get_password(&self) -> (password: Option<&str>)
        ensures
            match password {
                Some(p) => self@.password == Some(p@),
                None => self@.password is None,
            },
    {
        match &self.password {
            Some(p) => Some(p.as_str()),
            None => None,
        }
    }

    /// The user name, if there is one.
    pub fn get_username(&self) -> (username: Option<&str>)
        ensures
            match username {
                Some(u) => self@.username == Some(u@),
                None => self@.username is None,
            },
    {
        match &self.username {
            Some(u) => Some(u.as_str()),
            None => None,
        }
    }

    /// Whether there is neither a user name nor a password.
    pub fn is_none(&self) -> (empty: bool)
        ensures
            empty == (self@.username is None && self@.password is None),
    {
        self.username.is_none() && self.password.is_none()
    }
}

impl Default for Credentials {
    fn default() -> (credentials: Self)
        ensures
            credentials.username is None,
            credentials.password is None,
    {
        Credentials { username: None, password: None }
    }
}

/// The byte with the bits of `b` in the opposite order.
pub open spec fn reverse_bits(b: u8) -> u8 {
    ((b & 0x01) << 7) | ((b & 0x02) << 5) | ((b & 0x04) << 3) | ((b & 0x08) << 1) | ((b & 0x10)
        >> 1) | ((b & 0x20) >> 3) | ((b & 0x40) >> 5) | ((b & 0x80) >> 7)
}

/// The eight-byte key that a password gives: each of its first eight bytes
/// with the bits in the opposite order, and zeros where the password ends.
pub open spec fn key_of_password(password: Seq<u8>) -> Seq<u8> {
    Seq::new(
        8,
        |i: int|
            if i < password.len() {
                reverse_bits(password[i])
            } else {
                0u8
            },
    )
}

/// The sixteen bytes that answer a challenge under a password: the two
/// halves of the challenge, each encrypted by itself under the password's key.
pub open spec fn challenge_response(challenge: Seq<u8>, password: Seq<u8>) -> Seq<u8> {
    des::encrypt_two_blocks(challenge, key_of_password(password))
}

/// The answer to a challenge takes sixteen bytes, whatever the challenge
/// and the password.
pub proof fn lemma_challenge_response_len(challenge: Seq<u8>, password: Seq<u8>)
    ensures
        challenge_response(challenge, password).len() == 16,
{
    des::lemma_encrypt_len(challenge, key_of_password(password));
}

/// Bit `k` of the reversed byte is bit `7 - k` of the byte, and reversing
/// twice gives the byte again.
pub proof fn lemma_reverse_bits(b: u8)
    ensures
        forall|k: int| 0 <= k < 8 ==> des::bit_at(reverse_bits(b), k) == des::bit_at(b, 7 - k),
        reverse_bits(reverse_bits(b)) == b,
{
    let r = reverse_bits(b);
    assert(((r >> 7u8) & 1u8 == 1u8) == ((b >> 0u8) & 1u8 == 1u8)) by (bit_vector)
        requires
            r == reverse_bits(b),
    ;
    assert(((r >> 6u8) & 1u8 == 1u8) == ((b >> 1u8) & 1u8 == 1u8)) by (bit_vector)
        requires
            r == reverse_bits(b),
    ;
    assert(((r >> 5u8) & 1u8 == 1u8) == ((b >> 2u8) & 1u8 == 1u8)) by (bit_vector)
        requires
            r == reverse_bits(b),
    ;
    assert(((r >> 4u8) & 1u8 == 1u8) == ((b >> 3u8) & 1u8 == 1u8)) by (bit_vector)
        requires
            r == reverse_bits(b),
    ;
    assert(((r >> 3u8) & 1u8 == 1u8) == ((b >> 4u8) & 1u8 == 1u8)) by (bit_vector)
        requires
            r == reverse_bits(b),
    ;
    assert(((r >> 2u8) & 1u8 == 1u8) == ((b >> 5u8) & 1u8 == 1u8)) by (bit_vector)
        requires
            r == reverse_bits(b),
    ;
    assert(((r >> 1u8) & 1u8 == 1u8) == ((b >> 6u8) & 1u8 == 1u8)) by (bit_vector)
        requires
            r == reverse_bits(b),
    ;
    assert(((r >> 0u8) & 1u8 == 1u8) == ((b >> 7u8) & 1u8 == 1u8)) by (bit_vector)
        requires
            r == reverse_bits(b),
    ;
    assert(reverse_bits(r) == b) by (bit_vector)
        requires
            r == reverse_bits(b),
    ;
    assert forall|k: int| 0 <= k < 8 implies des::bit_at(reverse_bits(b), k) == des::bit_at(
        b,
        7 - k,
    ) by {
        assert(k == 0 || k == 1 || k == 2 || k == 3 || k == 4 || k == 5 || k == 6 || k == 7);
    }
}

/// The state of a password authentication: the server's challenge and the
/// key under which it is to be answered.
pub struct AuthHelper {
    challenge: [u8; 16],
    key: [u8; 8],
}

impl AuthHelper {
    /// The server's challenge.
    pub closed spec fn challenge(&self) -> Seq<u8> {
        self.challenge@
    }

    /// The key under which the challenge is answered.
    pub closed spec fn key(&self) -> Seq<u8> {
        self.key@
    }

    /// The byte with the bits of `b` in the opposite order.
    pub fn reverse(b: u8) -> (r: u8)
        ensures
            r == reverse_bits(b),
    {
        ((b & 0x01) << 7) | ((b & 0x02) << 5) | ((b & 0x04) << 3) | ((b & 0x08) << 1) | ((b & 0x10)
            >> 1) | ((b & 0x20) >> 3) | ((b & 0x40) >> 5) | ((b & 0x80) >> 7)
    }

    /// The key that a password gives.
    pub fn derive_key(password: &str) -> (key: [u8; 8])
        ensures
            key@ == key_of_password(vstd::utf8::encode_utf8(password@)),
    {
        let bytes = password.as_bytes();
        let mut key: [u8; 8] = [0; 8];
        let mut i: usize = 0;
        while i < 8
            invariant
                i <= 8,
                bytes@ == vstd::utf8::encode_utf8(password@),
                forall|j: int| 0 <= j < i ==> key@[j] == key_of_password(bytes@)[j],
            decreases 8 - i,
        {
            if i < bytes.len() {
                key[i] = AuthHelper::reverse(bytes[i]);
            } else {
                key[i] = 0;
            }
            i += 1;
        }
        assert(key@ =~= key_of_password(bytes@));
        key
    }

    /// Takes the server's challenge of sixteen bytes and derives the key
    /// from the password. Any other number of bytes fails with `Io`.
    pub fn read(input: &[u8], password: &str) -> (res: Result<Self, VncError>)
        ensures
            input@.len() == 16 ==> (res matches Ok(helper) && helper.challenge() == input@
                && helper.key() == key_of_password(vstd::utf8::encode_utf8(password@))),
            input@.len() != 16 ==> (res matches Err(e) && e == VncError::Io),
    {
        if input.len() != 16 {
            return Err(VncError::Io);
        }
        let mut challenge: [u8; 16] = [0; 16];
        let mut i: usize = 0;
        while i < 16
            invariant
                i <= 16,
                input@.len() == 16,
                forall|j: int| 0 <= j < i ==> challenge@[j] == input@[j],
            decreases 16 - i,
        {
            challenge[i] = input[i];
            i += 1;
        }
        assert(challenge@ =~= input@);
        let key = AuthHelper::derive_key(password);
        Ok(Self { challenge, key })
    }

    /// Appends the answer to the challenge: its two halves, each encrypted
    /// by itself under the key, sixteen bytes in all.
    pub fn write(&self, out: &mut Vec<u8>)
        ensures
            final(out)@ == old(out)@ + des::encrypt_two_blocks(self.challenge(), self.key()),
            final(out)@.len() == old(out)@.len() + 16,
    {
        let encrypted = des::encrypt(&self.challenge, &self.key);
        crate::wire::write_bytes(out, encrypted.as_slice());
    }

    /// Reads the server's verdict from the four bytes of its SecurityResult
    /// word. Any other number of bytes fails with `Io`, a word other than 0
    /// and 1 with `Protocol`.
    pub fn finish(self, input: &[u8]) -> (res: Result<AuthResult, VncError>)
        ensures
            plain_result(res) == AuthHelper::spec_finish(input@),
    {
        if input.len() != 4 {
            return Err(VncError::Io);
        }
        match crate::wire::read_u32(input, 0) {
            Ok(word) => AuthResult::of_word(word),
            Err(e) => Err(VncError::Io),
        }
    }

    /// What the bytes of a SecurityResult stand for.
    pub open spec fn spec_finish(input: Seq<u8>) -> Result<AuthResult, VncErrorView> {
        if input.len() != 4 {
            Err(VncErrorView::Io)
        } else {
            AuthResult::spec_of_word(crate::wire::u32_at(input, 0))
        }
    }
}

} // verus!
