//! Sealing one key share at rest.
//!
//! A share is sealed under a key that is derived from the machine it lies on, so that a copy of its
//! directory alone opens nothing. Files are read and written by the caller.
use vstd::prelude::*;
use vstd::string::StringExecFns;

use crate::bytes;
use crate::crypto;
use crate::text;

verus! {

/// The length of a nonce, in bytes.
pub const NONCE_LEN: usize = 24;

/// The length of a salt, and of a fallback key, in bytes.
pub const SALT_LEN: usize = 32;

/// A source of the secret that binds a share to its machine.
pub trait MachineBinding {
    /// The machine's secret, if it has one.
    spec fn secret(&self) -> Option<Seq<u8>>;

    /// The machine's secret. It has to be the same whenever it is asked for on one machine.
    fn ikm(&self) -> (r: Option<Vec<u8>>)
        ensures
            r is Some <==> self.secret() is Some,
            r matches Some(v) ==> self.secret() == Some(v@),
    ;
}

/// A fixed secret.
#[derive(Debug)]
pub struct FixedBinding(pub Vec<u8>);

impl MachineBinding for FixedBinding {
    open spec fn secret(&self) -> Option<Seq<u8>> {
        Some(self.0@)
    }

    fn ikm(&self) -> (r: Option<Vec<u8>>) {
        Some(bytes::copy_bytes(self.0.as_slice()))
    }
}

/// The host's secret: its machine id or, where it has none, a key kept beside the share. The second
/// is weaker: a copy of the directory holds it too.
#[derive(Debug)]
pub struct HostMachineBinding {
    /// The contents of the machine id file, if it can be read.
    pub machine_id: Option<Vec<u8>>,
    /// The contents of the key file beside the share, if it can be read.
    pub host_key: Option<Vec<u8>>,
}

/// Whether a byte is ASCII whitespace: tab, line feed, form feed, carriage return or space.
pub open spec fn is_ascii_white(b: u8) -> bool {
    b == 9 || b == 10 || b == 12 || b == 13 || b == 32
}

/// The bytes before the first whitespace.
pub open spec fn first_word(raw: Seq<u8>) -> Seq<u8>
    decreases raw.len(),
{
    if raw.len() == 0 || is_ascii_white(raw[0]) {
        Seq::empty()
    } else {
        seq![raw[0]] + first_word(raw.skip(1))
    }
}

proof fn lemma_first_word(raw: Seq<u8>, n: int)
    requires
        0 <= n <= raw.len(),
        n < raw.len() ==> is_ascii_white(raw[n]),
        forall|k: int| 0 <= k < n ==> !is_ascii_white(#[trigger] raw[k]),
    ensures
        first_word(raw) == raw.take(n),
    decreases n,
{
    if n > 0 {
        let rest = raw.skip(1);
        assert forall|k: int| 0 <= k < n - 1 implies !is_ascii_white(#[trigger] rest[k]) by {
            assert(rest[k] == raw[k + 1]);
        }
        assert(n - 1 < rest.len() ==> rest[n - 1] == raw[n]);
        lemma_first_word(rest, n - 1);
        assert(seq![raw[0]] + rest.take(n - 1) =~= raw.take(n));
    } else {
        assert(raw.take(0) =~= Seq::<u8>::empty());
    }
}

fn word_of(raw: &Vec<u8>) -> (r: Vec<u8>)
    ensures
        r@ == first_word(raw@),
{
    let mut n: usize = 0;
    while n < raw.len() && !(raw[n] == 9 || raw[n] == 10 || raw[n] == 12 || raw[n] == 13 || raw[n]
        == 32)
        invariant
            n <= raw@.len(),
            forall|k: int| 0 <= k < n ==> !is_ascii_white(#[trigger] raw@[k]),
        decreases raw@.len() - n,
    {
        n = n + 1;
    }
    proof {
        lemma_first_word(raw@, n as int);
        assert(raw@.subrange(0, n as int) =~= raw@.take(n as int));
    }
    bytes::copy_range(raw.as_slice(), 0, n)
}

impl MachineBinding for HostMachineBinding {
    open spec fn secret(&self) -> Option<Seq<u8>> {
        if self.machine_id is Some && first_word(self.machine_id->0@).len() > 0 {
            Some(first_word(self.machine_id->0@))
        } else if self.host_key is Some && self.host_key->0@.len() == SALT_LEN {
            Some(self.host_key->0@)
        } else {
            None
        }
    }

    fn ikm(&self) -> (r: Option<Vec<u8>>) {
        match &self.machine_id {
            Some(raw) => {
                let word = word_of(raw);
                if word.len() > 0 {
                    return Some(word);
                }
            },
            None => {},
        }
        match &self.host_key {
            Some(key) => {
                if key.len() == SALT_LEN {
                    return Some(bytes::copy_bytes(key.as_slice()));
                }
            },
            None => {},
        }
        None
    }
}

/// A new random key for a host without a secret, to be kept beside the share. None where the
/// operating system gives no randomness.
pub fn new_host_key() -> (r: Option<Vec<u8>>)
    ensures
        r matches Some(k) ==> k@.len() == SALT_LEN,
{
    crypto::random_bytes(SALT_LEN)
}

// ---------------------------------------------------------------------------------------------
// Sealing
// ---------------------------------------------------------------------------------------------
/// Why a share is not sealed or unsealed.
#[derive(Debug, Clone, Copy, PartialEq, Eq, Structural)]
pub enum SealError {
    /// The machine has no secret.
    NoBinding,
    /// The share is too long for the cipher.
    SealFailed,
    /// The sealed body is shorter than a nonce.
    TooShort(usize),
    /// The tag does not verify: another machine, another sink, or changed bytes.
    TagMismatch,
}

impl SealError {
    /// The error as a line of a log.
    pub fn message(self) -> (r: String)
        ensures
            r@ == match self {
                SealError::NoBinding => "this machine has no binding secret"@,
                SealError::SealFailed => "AEAD seal of the FROST share failed"@,
                SealError::TooShort(n) => "sealed share is too short ("@ + text::decimal(n as nat)
                    + " bytes < 24-byte nonce); corrupt or not a sealed blob"@,
                SealError::TagMismatch => {
                    "AEAD unseal of the FROST share FAILED (tag mismatch): wrong machine binding, a swapped/forged sealed blob, or corrupt bytes. Refusing to return unauthenticated material -- restore this sink's sealed share + salt from backup."@
                },
            },
    {
        match self {
            SealError::NoBinding => "this machine has no binding secret".to_owned(),
            SealError::SealFailed => "AEAD seal of the FROST share failed".to_owned(),
            SealError::TooShort(n) => {
                let mut s = "sealed share is too short (".to_owned();
                text::append_decimal(&mut s, n as u64);
                s.append(" bytes < 24-byte nonce); corrupt or not a sealed blob");
                s
            },
            SealError::TagMismatch => {
                "AEAD unseal of the FROST share FAILED (tag mismatch): wrong machine binding, a swapped/forged sealed blob, or corrupt bytes. Refusing to return unauthenticated material -- restore this sink's sealed share + salt from backup.".to_owned()
            },
        }
    }
}

/// The context that a sink's key is derived for.
pub open spec fn seal_info(sink_label: Seq<char>) -> Seq<u8> {
    vstd::utf8::encode_utf8("kirby-frost-share-seal-v1:"@) + vstd::utf8::encode_utf8(sink_label)
}

/// The data that a sealed body is bound to.
pub open spec fn seal_aad(sink_label: Seq<char>) -> Seq<u8> {
    vstd::utf8::encode_utf8("kirby-frost-share-seal-v1-aad:"@) + vstd::utf8::encode_utf8(sink_label)
}

/// A sink's key.
pub open spec fn seal_key(ikm: Seq<u8>, salt: Seq<u8>, sink_label: Seq<char>) -> Seq<u8> {
    crypto::hkdf32(salt, ikm, seal_info(sink_label))
}

/// What a sealed body opens to, on a machine with the secret `ikm`.
pub open spec fn unsealed(
    ikm: Seq<u8>,
    salt: Seq<u8>,
    sink_label: Seq<char>,
    sealed: Seq<u8>,
) -> Option<Seq<u8>> {
    crypto::aead_opened(
        seal_key(ikm, salt, sink_label),
        sealed.take(NONCE_LEN as int),
        seal_aad(sink_label),
        sealed.skip(NONCE_LEN as int),
    )
}

fn derive_key(ikm: &[u8], salt: &[u8], sink_label: &str) -> (r: Vec<u8>)
    ensures
        r@ == seal_key(ikm@, salt@, sink_label@),
        r@.len() == 32,
{
    let mut info = bytes::copy_bytes("kirby-frost-share-seal-v1:".as_bytes());
    bytes::append_bytes(&mut info, sink_label.as_bytes());
    crypto::hkdf_sha256(salt, ikm, info.as_slice())
}

fn aad_for(sink_label: &str) -> (r: Vec<u8>)
    ensures
        r@ == seal_aad(sink_label@),
{
    let mut aad = bytes::copy_bytes("kirby-frost-share-seal-v1-aad:".as_bytes());
    bytes::append_bytes(&mut aad, sink_label.as_bytes());
    aad
}

/// Seal a share for a sink: a fresh random nonce, then the ciphertext and its tag. Sealing the same
/// share twice gives two bodies.
pub fn seal<B: MachineBinding>(binding: &B, sink_label: &str, salt: &[u8], plaintext: &[u8]) -> (r:
    Result<Vec<u8>, SealError>)
    ensures
        match r {
            Ok(sealed) => {
                &&& binding.secret() is Some
                &&& sealed@.len() == NONCE_LEN + plaintext@.len() + 16
                &&& sealed@.skip(NONCE_LEN as int) == crypto::aead_sealed(
                    seal_key(binding.secret()->0, salt@, sink_label@),
                    sealed@.take(NONCE_LEN as int),
                    seal_aad(sink_label@),
                    plaintext@,
                )
                &&& unsealed(binding.secret()->0, salt@, sink_label@, sealed@) == Some(plaintext@)
            },
            Err(SealError::NoBinding) => binding.secret() is None,
            Err(SealError::SealFailed) => binding.secret() is Some && plaintext@.len() / 64
                >= crypto::AEAD_MAX_BLOCKS,
            Err(_) => false,
        },
{
    let ikm = match binding.ikm() {
        Some(ikm) => ikm,
        None => return Err(SealError::NoBinding),
    };
    let mut key = derive_key(ikm.as_slice(), salt, sink_label);
    let nonce = crypto::aead_nonce();
    let aad = aad_for(sink_label);
    let sealed = crypto::aead_encrypt(key.as_slice(), nonce.as_slice(), aad.as_slice(), plaintext);
    crypto::zeroize_bytes(&mut key);
    match sealed {
        Some(ciphertext) => {
            let mut out = bytes::copy_bytes(nonce.as_slice());
            bytes::append_bytes(&mut out, ciphertext.as_slice());
            assert(out@.take(NONCE_LEN as int) =~= nonce@);
            assert(out@.skip(NONCE_LEN as int) =~= ciphertext@);
            Ok(out)
        },
        None => Err(SealError::SealFailed),
    }
}

/// Unseal a sink's share. A body whose tag does not verify gives nothing.
pub fn unseal<B: MachineBinding>(binding: &B, sink_label: &str, salt: &[u8], sealed: &[u8]) -> (r:
    Result<Vec<u8>, SealError>)
    ensures
        match r {
            Ok(plain) => {
                &&& sealed@.len() >= NONCE_LEN
                &&& binding.secret() is Some
                &&& unsealed(binding.secret()->0, salt@, sink_label@, sealed@) == Some(plain@)
            },
            Err(SealError::TooShort(n)) => sealed@.len() < NONCE_LEN && n == sealed@.len(),
            Err(SealError::NoBinding) => sealed@.len() >= NONCE_LEN && binding.secret() is None,
            Err(SealError::TagMismatch) => {
                &&& sealed@.len() >= NONCE_LEN
                &&& binding.secret() is Some
                &&& unsealed(binding.secret()->0, salt@, sink_label@, sealed@) is None
            },
            Err(SealError::SealFailed) => false,
        },
{
    if sealed.len() < NONCE_LEN {
        return Err(SealError::TooShort(sealed.len()));
    }
    let ikm = match binding.ikm() {
        Some(ikm) => ikm,
        None => return Err(SealError::NoBinding),
    };
    let nonce = bytes::copy_range(sealed, 0, NONCE_LEN);
    let ciphertext = bytes::copy_range(sealed, NONCE_LEN, sealed.len());
    assert(nonce@ =~= sealed@.take(NONCE_LEN as int));
    assert(ciphertext@ =~= sealed@.skip(NONCE_LEN as int));
    let mut key = derive_key(ikm.as_slice(), salt, sink_label);
    let aad = aad_for(sink_label);
    let opened = crypto::aead_decrypt(
        key.as_slice(),
        nonce.as_slice(),
        aad.as_slice(),
        ciphertext.as_slice(),
    );
    crypto::zeroize_bytes(&mut key);
    match opened {
        Some(plain) => Ok(plain),
        None => Err(SealError::TagMismatch),
    }
}

/// Each sink has a context of its own: two labels that give the same key context, or the same bound
/// data, are equal.
pub proof fn sinks_are_separated(a: Seq<char>, b: Seq<char>)
    requires
        seal_info(a) == seal_info(b) || seal_aad(a) == seal_aad(b),
    ensures
        a == b,
{
    let info = vstd::utf8::encode_utf8("kirby-frost-share-seal-v1:"@);
    let aad = vstd::utf8::encode_utf8("kirby-frost-share-seal-v1-aad:"@);
    let ea = vstd::utf8::encode_utf8(a);
    let eb = vstd::utf8::encode_utf8(b);
    if seal_info(a) == seal_info(b) {
        assert((info + ea).skip(info.len() as int) =~= ea);
        assert((info + eb).skip(info.len() as int) =~= eb);
    } else {
        assert((aad + ea).skip(aad.len() as int) =~= ea);
        assert((aad + eb).skip(aad.len() as int) =~= eb);
    }
    vstd::utf8::encode_utf8_decode_utf8(a);
    vstd::utf8::encode_utf8_decode_utf8(b);
}

// ---------------------------------------------------------------------------------------------
// The sink's files
// ---------------------------------------------------------------------------------------------
/// A sink's salt.
#[derive(Debug)]
pub enum SinkSalt {
    /// The sink has it.
    Kept(Vec<u8>),
    /// It is new, and has to be written to the sink.
    Created(Vec<u8>),
}

/// Why a sink's salt is not had.
#[derive(Debug, Clone, Copy, PartialEq, Eq, Structural)]
pub enum SaltError {
    /// The file holds this many bytes, and not [`SALT_LEN`].
    Corrupt(usize),
    /// There is no file.
    Missing,
    /// The operating system gives no randomness.
    NoRandomness,
}

/// The salt to seal with. `existing` is what the sink's salt file holds, if it can be read. A salt
/// of the wrong length is refused: under another salt the share would never unseal.
pub fn load_or_create_salt(existing: Option<Vec<u8>>) -> (r: Result<SinkSalt, SaltError>)
    ensures
        match existing {
            Some(salt) => if salt@.len() == SALT_LEN {
                r == Ok::<SinkSalt, SaltError>(SinkSalt::Kept(salt))
            } else {
                r == Err::<SinkSalt, SaltError>(SaltError::Corrupt(salt@.len() as usize))
            },
            None => match r {
                Ok(SinkSalt::Created(salt)) => salt@.len() == SALT_LEN,
                Err(e) => e == SaltError::NoRandomness,
                _ => false,
            },
        },
{
    match existing {
        Some(salt) => {
            if salt.len() == SALT_LEN {
                Ok(SinkSalt::Kept(salt))
            } else {
                Err(SaltError::Corrupt(salt.len()))
            }
        },
        None => match crypto::random_bytes(SALT_LEN) {
            Some(salt) => Ok(SinkSalt::Created(salt)),
            None => Err(SaltError::NoRandomness),
        },
    }
}

/// The salt to unseal with. It is never created: a new one would open nothing.
pub fn load_salt(existing: Option<Vec<u8>>) -> (r: Result<Vec<u8>, SaltError>)
    ensures
        r == match existing {
            Some(salt) => if salt@.len() == SALT_LEN {
                Ok::<Vec<u8>, SaltError>(salt)
            } else {
                Err(SaltError::Corrupt(salt@.len() as usize))
            },
            None => Err(SaltError::Missing),
        },
{
    match existing {
        Some(salt) => {
            if salt.len() == SALT_LEN {
                Ok(salt)
            } else {
                Err(SaltError::Corrupt(salt.len()))
            }
        },
        None => Err(SaltError::Missing),
    }
}

/// The paths of a sink's salt and of its fallback key.
pub fn sealed_share_aux_paths(sink_dir: &str) -> (r: (String, String))
    ensures
        r.0@ == text::joined(sink_dir@, "seal.salt"@),
        r.1@ == text::joined(sink_dir@, "host.key"@),
{
    (text::path_join(sink_dir, "seal.salt"), text::path_join(sink_dir, "host.key"))
}

// ---------------------------------------------------------------------------------------------
// What the calls come to
// ---------------------------------------------------------------------------------------------
/// A sealed share opens on its machine, for its sink and under its salt, and gives back exactly what was
/// sealed, whichever way the machine's secret is come by.
pub proof fn sealed_share_is_opened_again<B: MachineBinding, C: MachineBinding>(
    sealing: B,
    opening: C,
    label: &str,
    salt: &[u8],
    plaintext: &[u8],
    sealed: Vec<u8>,
    body: &[u8],
    r: Result<Vec<u8>, SealError>,
)
    requires
        call_ensures(seal::<B>, (&sealing, label, salt, plaintext), Ok(sealed)),
        opening.secret() == sealing.secret(),
        body@ == sealed@,
        call_ensures(unseal::<C>, (&opening, label, salt, body), r),
    ensures
        r is Ok,
        r->Ok_0@ == plaintext@,
{
}

/// What a share is sealed under: a key drawn from the salt, the machine's secret and the sink's label,
/// with the label bound to the body again. Behind the nonce of 24 bytes stands the cipher's text over
/// the share, and nothing of the share stands there in the clear.
pub proof fn share_is_sealed_to_machine_salt_and_sink<B: MachineBinding>(
    binding: B,
    label: &str,
    salt: &[u8],
    plaintext: &[u8],
    r: Result<Vec<u8>, SealError>,
)
    requires
        call_ensures(seal::<B>, (&binding, label, salt, plaintext), r),
    ensures
        binding.secret() is None <==> r == Err::<Vec<u8>, _>(SealError::NoBinding),
        binding.secret() is Some && plaintext@.len() / 64 < crypto::AEAD_MAX_BLOCKS ==> r is Ok,
        r matches Ok(sealed) ==> {
            let info = vstd::utf8::encode_utf8("kirby-frost-share-seal-v1:"@)
                + vstd::utf8::encode_utf8(label@);
            let aad = vstd::utf8::encode_utf8("kirby-frost-share-seal-v1-aad:"@)
                + vstd::utf8::encode_utf8(label@);
            let key = crypto::hkdf32(salt@, binding.secret()->0, info);
            &&& sealed@.len() == 24 + plaintext@.len() + 16
            &&& sealed@.skip(24) == crypto::aead_sealed(key, sealed@.take(24), aad, plaintext@)
        },
{
}

/// What unseals: a body of at least a nonce's length, on a machine with a secret, whose tag verifies
/// under the key of the salt, the secret and the label. What is shorter, without a secret or does not
/// verify gives nothing, each with its own error.
pub proof fn only_an_authentic_body_unseals<B: MachineBinding>(
    binding: B,
    label: &str,
    salt: &[u8],
    sealed: &[u8],
    r: Result<Vec<u8>, SealError>,
)
    requires
        call_ensures(unseal::<B>, (&binding, label, salt, sealed), r),
    ensures
        ({
            let info = vstd::utf8::encode_utf8("kirby-frost-share-seal-v1:"@)
                + vstd::utf8::encode_utf8(label@);
            let aad = vstd::utf8::encode_utf8("kirby-frost-share-seal-v1-aad:"@)
                + vstd::utf8::encode_utf8(label@);
            let opened = crypto::aead_opened(
                crypto::hkdf32(salt@, binding.secret()->0, info),
                sealed@.take(24),
                aad,
                sealed@.skip(24),
            );
            &&& sealed@.len() < 24 <==> r == Err::<Vec<u8>, _>(
                SealError::TooShort(sealed@.len() as usize),
            )
            &&& sealed@.len() >= 24 && binding.secret() is None <==> r == Err::<Vec<u8>, _>(
                SealError::NoBinding,
            )
            &&& sealed@.len() >= 24 && binding.secret() is Some ==> match opened {
                Some(plain) => r is Ok && r->Ok_0@ == plain,
                None => r == Err::<Vec<u8>, _>(SealError::TagMismatch),
            }
        }),
{
}

/// A host is known by the first word of its machine id; only where that is missing or empty by the key
/// beside the share, if that is 32 bytes long.
pub proof fn host_is_known_by_its_machine_id(
    host: HostMachineBinding,
    r: Option<Vec<u8>>,
    word: Seq<u8>,
    rest: Seq<u8>,
)
    requires
        call_ensures(<HostMachineBinding as MachineBinding>::ikm, (&host,), r),
        forall|k: int|
            0 <= k < word.len() ==> {
                let b = #[trigger] word[k];
                b != 9 && b != 10 && b != 12 && b != 13 && b != 32
            },
        rest.len() > 0 ==> rest[0] == 9 || rest[0] == 10 || rest[0] == 12 || rest[0] == 13
            || rest[0] == 32,
    ensures
        host.machine_id is Some && host.machine_id->0@ == word + rest && word.len() > 0 ==> r is Some
            && r->0@ == word,
        host.machine_id is None || (host.machine_id->0@ == word + rest && word.len() == 0) ==> (
        r is Some <==> host.host_key is Some && host.host_key->0@.len() == 32),
        host.machine_id is None && r is Some ==> r->0@ == host.host_key->0@,
{
    if host.machine_id is Some && host.machine_id->0@ == word + rest {
        let raw = word + rest;
        assert forall|k: int| 0 <= k < word.len() implies !is_ascii_white(#[trigger] raw[k]) by {
            assert(raw[k] == word[k]);
        }
        assert(word.len() < raw.len() ==> raw[word.len() as int] == rest[0]);
        lemma_first_word(raw, word.len() as int);
        assert(raw.take(word.len() as int) =~= word);
    }
}

/// A sink's salt is kept as it is, if it is 32 bytes long, and refused otherwise. For sealing a missing
/// one is made anew, 32 bytes long; for unsealing it is missing.
pub proof fn salt_is_kept_or_refused(
    existing: Option<Vec<u8>>,
    sealing: Result<SinkSalt, SaltError>,
    unsealing: Result<Vec<u8>, SaltError>,
)
    requires
        call_ensures(load_or_create_salt, (existing,), sealing),
        call_ensures(load_salt, (existing,), unsealing),
    ensures
        existing matches Some(salt) ==> (salt@.len() == 32 <==> unsealing == Ok::<Vec<u8>, SaltError>(
            salt,
        )),
        existing matches Some(salt) ==> (salt@.len() == 32 <==> sealing == Ok::<SinkSalt, SaltError>(
            SinkSalt::Kept(salt),
        )),
        existing matches Some(salt) ==> (salt@.len() != 32 ==> sealing is Err && unsealing is Err),
        existing is None ==> unsealing == Err::<Vec<u8>, _>(SaltError::Missing),
        existing is None ==> !(sealing matches Ok(SinkSalt::Kept(_))),
        sealing matches Ok(SinkSalt::Created(salt)) ==> existing is None && salt@.len() == 32,
{
}

/// The salt and the fallback key lie in the sink's directory, in files of their own.
pub proof fn aux_files_lie_in_the_sink(dir: &str, r: (String, String))
    requires
        call_ensures(sealed_share_aux_paths, (dir,), r),
    ensures
        r.0@ == text::joined(dir@, "seal.salt"@),
        r.1@ == text::joined(dir@, "host.key"@),
{
}

} // verus!
