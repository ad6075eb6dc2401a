//! The cryptographic identity model: keys, key IDs, key values, signature
//! schemes, signatures and hash values, with their parsing rules and the
//! signature-verification entry point.

use vstd::prelude::*;
use crate::canon::canon;
use crate::canon::canonicalize;
use crate::crypto::ed25519_valid;
use crate::crypto::pem_body_of;
use crate::crypto::rsa_pss_sha256_valid;
use crate::crypto::rsa_pss_sha512_valid;
use crate::crypto::sha256;
use crate::crypto::sha256_of;
use crate::crypto::ed25519_verify;
use crate::crypto::pem_decode;
use crate::crypto::rsa_pss_sha256_verify;
use crate::crypto::rsa_pss_sha512_verify;
use crate::error::ErrV;
use crate::error::Error;
use crate::error::missing_field;
use crate::error::invalid_field;
use crate::hex::hex_decode;
use crate::hex::hex_encode;
use crate::hex::hex_str;
use crate::hex::is_hex;
use crate::hex::unhex;
use crate::jsonval::jv_get;
use crate::jsonval::lemma_jv_get_elem;
use crate::jsonval::mem_view;
use crate::jsonval::obj_get;
use crate::jsonval::str_eq;
use crate::jsonval::str_prefix;
use crate::jsonval::JsonValue;
use crate::jsonval::Jv;
use crate::canon::jv_depth;
use crate::canon::lemma_depth_members_elem;
use crate::pkcs1::convert_to_pkcs1;
use crate::pkcs1::rsa_spki_to_pkcs1;

verus! {

/// Types of public keys.
#[derive(Debug, Clone, PartialEq, Eq)]
pub enum KeyType {
    /// The Ed25519 signature scheme.
    Ed25519,
    /// RSA.
    Rsa,
    /// A key type this library refuses to trust, with its name kept.
    Unsupported(String),
}

/// The model of a key type.
#[verifier::ext_equal]
pub enum KeyTypeV {
    Ed25519,
    Rsa,
    Unsupported(Seq<char>),
}

impl View for KeyType {
    type V = KeyTypeV;

    open spec fn view(&self) -> KeyTypeV {
        match self {
            KeyType::Ed25519 => KeyTypeV::Ed25519,
            KeyType::Rsa => KeyTypeV::Rsa,
            KeyType::Unsupported(s) => KeyTypeV::Unsupported(s@),
        }
    }
}

/// Signature schemes.
#[derive(Debug, Clone, PartialEq, Eq)]
pub enum SignatureScheme {
    Ed25519,
    RsaSsaPssSha256,
    RsaSsaPssSha512,
    /// A scheme this library refuses to trust, with its name kept.
    Unsupported(String),
}

/// The model of a signature scheme.
#[verifier::ext_equal]
pub enum SchemeV {
    Ed25519,
    RsaSsaPssSha256,
    RsaSsaPssSha512,
    Unsupported(Seq<char>),
}

impl View for SignatureScheme {
    type V = SchemeV;

    open spec fn view(&self) -> SchemeV {
        match self {
            SignatureScheme::Ed25519 => SchemeV::Ed25519,
            SignatureScheme::RsaSsaPssSha256 => SchemeV::RsaSsaPssSha256,
            SignatureScheme::RsaSsaPssSha512 => SchemeV::RsaSsaPssSha512,
            SignatureScheme::Unsupported(s) => SchemeV::Unsupported(s@),
        }
    }
}

/// The hex encoded ID of a public key.
#[derive(Debug, Clone, Hash, PartialEq, Eq)]
pub struct KeyId(pub String);

impl View for KeyId {
    type V = Seq<char>;

    open spec fn view(&self) -> Seq<char> {
        self.0@
    }
}

/// The raw decoded bytes of a signature.
#[derive(Debug, Clone, PartialEq)]
pub struct SignatureValue(pub Vec<u8>);

impl View for SignatureValue {
    type V = Seq<u8>;

    open spec fn view(&self) -> Seq<u8> {
        self.0@
    }
}

/// The raw bytes of a public key.
#[derive(Debug, Clone, PartialEq)]
pub struct KeyValue {
    /// The key's decoded raw bytes.
    pub value: Vec<u8>,
    /// The key's original textual form, which the key ID is derived from.
    pub original: String,
    /// The key type inferred from the encoding.
    pub typ: KeyType,
}

/// The model of a key value.
#[verifier::ext_equal]
pub struct KeyValueV {
    pub value: Seq<u8>,
    pub original: Seq<char>,
    pub typ: KeyTypeV,
}

impl View for KeyValue {
    type V = KeyValueV;

    open spec fn view(&self) -> KeyValueV {
        KeyValueV { value: self.value@, original: self.original@, typ: self.typ@ }
    }
}

/// A public key.
#[derive(Debug, Clone, PartialEq)]
pub struct Key {
    /// The declared type of the key, which decides what it may verify.
    pub typ: KeyType,
    /// The key's value.
    pub value: KeyValue,
}

/// The model of a key.
#[verifier::ext_equal]
pub struct KeyV {
    pub typ: KeyTypeV,
    pub value: KeyValueV,
}

impl View for Key {
    type V = KeyV;

    open spec fn view(&self) -> KeyV {
        KeyV { typ: self.typ@, value: self.value@ }
    }
}

/// A cryptographic signature.
#[derive(Debug, Clone, PartialEq)]
pub struct Signature {
    pub key_id: KeyId,
    pub method: SignatureScheme,
    pub sig: SignatureValue,
}

/// The model of a signature.
#[verifier::ext_equal]
pub struct SignatureV {
    pub key_id: Seq<char>,
    pub method: SchemeV,
    pub sig: Seq<u8>,
}

impl View for Signature {
    type V = SignatureV;

    open spec fn view(&self) -> SignatureV {
        SignatureV { key_id: self.key_id@, method: self.method@, sig: self.sig@ }
    }
}

/// The key type a name denotes; unrecognized names are kept, not rejected.
pub open spec fn spec_key_type(s: Seq<char>) -> KeyTypeV {
    if s == "ed25519"@ {
        KeyTypeV::Ed25519
    } else if s == "rsa"@ {
        KeyTypeV::Rsa
    } else {
        KeyTypeV::Unsupported(s)
    }
}

/// The scheme a name denotes; unrecognized names are kept, not rejected.
pub open spec fn spec_scheme(s: Seq<char>) -> SchemeV {
    if s == "ed25519"@ {
        SchemeV::Ed25519
    } else if s == "rsassa-pss-sha256"@ {
        SchemeV::RsaSsaPssSha256
    } else if s == "rsassa-pss-sha512"@ {
        SchemeV::RsaSsaPssSha512
    } else {
        SchemeV::Unsupported(s)
    }
}

/// A key type supports exactly the schemes its algorithm can verify.
pub open spec fn spec_supports(t: KeyTypeV, s: SchemeV) -> bool {
    match (t, s) {
        (KeyTypeV::Ed25519, SchemeV::Ed25519) => true,
        (KeyTypeV::Rsa, SchemeV::RsaSsaPssSha256) => true,
        (KeyTypeV::Rsa, SchemeV::RsaSsaPssSha512) => true,
        _ => false,
    }
}

impl KeyType {
    /// Reads a key type name.
    pub fn from_str(s: &str) -> (r: Result<KeyType, Error>)
        ensures
            r matches Ok(t) && t@ == spec_key_type(s@),
    {
        if str_eq(s, "ed25519") {
            Ok(KeyType::Ed25519)
        } else if str_eq(s, "rsa") {
            Ok(KeyType::Rsa)
        } else {
            Ok(KeyType::Unsupported(s.to_owned()))
        }
    }

    /// Whether this key type can carry the given scheme.
    pub fn supports(&self, scheme: &SignatureScheme) -> (r: bool)
        ensures
            r == spec_supports(self@, scheme@),
    {
        match (self, scheme) {
            (KeyType::Ed25519, SignatureScheme::Ed25519) => true,
            (KeyType::Rsa, SignatureScheme::RsaSsaPssSha256) => true,
            (KeyType::Rsa, SignatureScheme::RsaSsaPssSha512) => true,
            _ => false,
        }
    }
}

impl SignatureScheme {
    /// Reads a scheme name.
    pub fn from_str(s: &str) -> (r: Result<SignatureScheme, Error>)
        ensures
            r matches Ok(t) && t@ == spec_scheme(s@),
    {
        if str_eq(s, "ed25519") {
            Ok(SignatureScheme::Ed25519)
        } else if str_eq(s, "rsassa-pss-sha256") {
            Ok(SignatureScheme::RsaSsaPssSha256)
        } else if str_eq(s, "rsassa-pss-sha512") {
            Ok(SignatureScheme::RsaSsaPssSha512)
        } else {
            Ok(SignatureScheme::Unsupported(s.to_owned()))
        }
    }

    /// Whether a signature is accepted, given the scheme, the re-encoded key
    /// bytes, the message and the signature bytes.
    pub open spec fn spec_valid(
        scheme: SchemeV,
        key: Seq<u8>,
        msg: Seq<u8>,
        sig: Seq<u8>,
    ) -> bool {
        match scheme {
            SchemeV::Ed25519 => ed25519_valid(key, msg, sig),
            SchemeV::RsaSsaPssSha256 => rsa_pss_sha256_valid(key, msg, sig),
            SchemeV::RsaSsaPssSha512 => rsa_pss_sha512_valid(key, msg, sig),
            SchemeV::Unsupported(_) => false,
        }
    }

    /// Verifies a signature over a message with this scheme, after the key
    /// bytes pass through the PKCS#1 re-encoding step.
    fn verify(&self, pub_key: &KeyValue, msg: &[u8], sig: &SignatureValue) -> (r: Result<
        (),
        Error,
    >)
        ensures
            self@ matches SchemeV::Unsupported(n) ==> (r matches Err(e) && e@
                == ErrV::UnsupportedSignatureScheme(n)),
            !(self@ is Unsupported) ==> {
                &&& r is Ok <==> SignatureScheme::spec_valid(
                    self@,
                    rsa_spki_to_pkcs1(pub_key.value@),
                    msg@,
                    sig@,
                )
                &&& (r matches Err(e) ==> e@ == ErrV::VerificationFailure)
            },
    {
        match self {
            SignatureScheme::Unsupported(s) => {
                return Err(Error::UnsupportedSignatureScheme(s.clone()));
            },
            _ => (),
        }
        let converted = convert_to_pkcs1(pub_key.value.as_slice());
        let ok = match self {
            SignatureScheme::Ed25519 => ed25519_verify(converted.as_slice(), msg, sig.0.as_slice()),
            SignatureScheme::RsaSsaPssSha256 => rsa_pss_sha256_verify(
                converted.as_slice(),
                msg,
                sig.0.as_slice(),
            ),
            SignatureScheme::RsaSsaPssSha512 => rsa_pss_sha512_verify(
                converted.as_slice(),
                msg,
                sig.0.as_slice(),
            ),
            SignatureScheme::Unsupported(_) => false,
        };
        if ok {
            Ok(())
        } else {
            Err(Error::VerificationFailure)
        }
    }
}

/// The key ID a key value derives: for a supported type, the lowercase hex
/// SHA-256 digest of the canonical encoding of the original textual key
/// string; for an unsupported type, a fixed sentinel that matches no real
/// key ID.
pub open spec fn spec_key_id(kv: KeyValueV) -> Seq<char> {
    match kv.typ {
        KeyTypeV::Unsupported(_) => "error"@,
        _ => hex_str(sha256_of(canon(Jv::Str(kv.original)))),
    }
}

/// Key-ID derivation is deterministic and depends only on the original
/// textual key string: two key values of supported types with the same
/// original text derive the same key ID, whatever their decoded bytes or
/// their types.
pub proof fn lemma_key_id_deterministic(a: KeyValueV, b: KeyValueV)
    requires
        a.original == b.original,
        !(a.typ is Unsupported),
        !(b.typ is Unsupported),
    ensures
        spec_key_id(a) == spec_key_id(b),
{
}

impl KeyValue {
    /// Derives the `KeyId` of the public key.
    pub fn key_id(&self) -> (r: KeyId)
        ensures
            r@ == spec_key_id(self@),
    {
        match &self.typ {
            KeyType::Unsupported(_) => KeyId("error".to_owned()),
            _ => {
                let original = JsonValue::Str(self.original.clone());
                let bytes = match canonicalize(&original) {
                    Ok(b) => b,
                    Err(_) => {
                        proof {
                            assert(false);
                        }
                        Vec::new()
                    },
                };
                let digest = sha256(bytes.as_slice());
                KeyId(hex_encode(digest.as_slice()))
            },
        }
    }

    /// Reads a key value: a hex string is a raw Ed25519 key, a PEM block is
    /// an RSA key, and an object carries one of those under `"public"`.
    pub fn parse(v: &JsonValue) -> (r: Result<KeyValue, Error>)
        ensures
            match r {
                Ok(kv) => spec_parse_key_value(v@) == Ok::<KeyValueV, ErrV>(kv@),
                Err(e) => spec_parse_key_value(v@) == Err::<KeyValueV, ErrV>(e@),
            },
        decreases jv_depth(v@),
    {
        match v {
            JsonValue::Str(s) => {
                proof {
                    reveal_strlit("-----");
                }
                if str_prefix(s.as_str(), "-----") {
                    match pem_decode(s.as_str()) {
                        Some(bytes) => Ok(
                            KeyValue { value: bytes, original: s.clone(), typ: KeyType::Rsa },
                        ),
                        None => Err(Error::MalformedDocument),
                    }
                } else {
                    match hex_decode(s.as_str()) {
                        Ok(bytes) => Ok(
                            KeyValue { value: bytes, original: s.clone(), typ: KeyType::Ed25519 },
                        ),
                        Err(e) => Err(e),
                    }
                }
            },
            JsonValue::Object(members) => {
                let ghost ms = mem_view(members@);
                proof {
                    assert(v@ == Jv::Obj(ms));
                }
                match obj_get(members, "public") {
                    None => Err(missing_field("public")),
                    Some(inner) => {
                        proof {
                            lemma_jv_get_elem(ms, "public"@);
                            let k = choose|k: int|
                                0 <= k < ms.len() && #[trigger] ms[k].1 == jv_get(
                                    ms,
                                    "public"@,
                                )->Some_0;
                            lemma_depth_members_elem(ms, k);
                        }
                        match KeyValue::parse(inner) {
                            Ok(kv) => Ok(kv),
                            Err(e) => Err(
                                invalid_field("public", e),
                            ),
                        }
                    },
                }
            },
            _ => Err(Error::MalformedDocument),
        }
    }
}

/// What a key value parses to: a hex string is a raw Ed25519 key, a PEM
/// block is an RSA key, and an object carries one of those under
/// `"public"`.
pub open spec fn spec_parse_key_value(j: Jv) -> Result<KeyValueV, ErrV>
    decreases jv_depth(j),
{
    match j {
        Jv::Str(s) => {
            if s.len() >= 5 && s.subrange(0, 5) == "-----"@ {
                match pem_body_of(s) {
                    Some(bytes) => Ok(
                        KeyValueV { value: bytes, original: s, typ: KeyTypeV::Rsa },
                    ),
                    None => Err(ErrV::MalformedDocument),
                }
            } else if is_hex(s) {
                Ok(KeyValueV { value: unhex(s), original: s, typ: KeyTypeV::Ed25519 })
            } else {
                Err(ErrV::MalformedDocument)
            }
        },
        Jv::Obj(ms) => {
            match jv_get(ms, "public"@) {
                Option::None => Err(ErrV::MissingField("public"@)),
                Option::Some(inner) => {
                    proof {
                        lemma_jv_get_elem(ms, "public"@);
                        let k = choose|k: int|
                            0 <= k < ms.len() && #[trigger] ms[k].1 == jv_get(
                                ms,
                                "public"@,
                            )->Some_0;
                        lemma_depth_members_elem(ms, k);
                    }
                    match spec_parse_key_value(inner) {
                        Ok(kv) => Ok(kv),
                        Err(e) => Err(ErrV::InvalidFieldValue("public"@, Box::new(e))),
                    }
                },
            }
        },
        _ => Err(ErrV::MalformedDocument),
    }
}

/// What a key parses to: an object with a `keytype` name and a `keyval`
/// value.
pub open spec fn spec_parse_key(j: Jv) -> Result<KeyV, ErrV> {
    match j {
        Jv::Obj(ms) => match jv_get(ms, "keytype"@) {
            Option::None => Err(ErrV::MissingField("keytype"@)),
            Option::Some(tv) => match tv {
                Jv::Str(ts) => match jv_get(ms, "keyval"@) {
                    Option::None => Err(ErrV::MissingField("keyval"@)),
                    Option::Some(vv) => match spec_parse_key_value(vv) {
                        Ok(kv) => Ok(KeyV { typ: spec_key_type(ts), value: kv }),
                        Err(e) => Err(ErrV::InvalidFieldValue("keyval"@, Box::new(e))),
                    },
                },
                _ => Err(
                    ErrV::InvalidFieldValue("keytype"@, Box::new(ErrV::MalformedDocument)),
                ),
            },
        },
        _ => Err(ErrV::MalformedDocument),
    }
}

impl Key {
    /// Reads a key: an object with a `keytype` name and a `keyval` value.
    pub fn parse(v: &JsonValue) -> (r: Result<Key, Error>)
        ensures
            match r {
                Ok(k) => spec_parse_key(v@) == Ok::<KeyV, ErrV>(k@),
                Err(e) => spec_parse_key(v@) == Err::<KeyV, ErrV>(e@),
            },
    {
        let members = match v {
            JsonValue::Object(members) => members,
            _ => {
                return Err(Error::MalformedDocument);
            },
        };
        proof {
            assert(v@ == Jv::Obj(mem_view(members@)));
        }
        let typ_str = match obj_get(members, "keytype") {
            None => {
                return Err(missing_field("keytype"));
            },
            Some(tv) => match tv.as_str_value() {
                Some(s) => s,
                None => {
                    return Err(
                        invalid_field("keytype", Error::MalformedDocument),
                    );
                },
            },
        };
        let typ = match KeyType::from_str(typ_str.as_str()) {
            Ok(t) => t,
            Err(e) => {
                return Err(e);
            },
        };
        let value = match obj_get(members, "keyval") {
            None => {
                return Err(missing_field("keyval"));
            },
            Some(kv) => match KeyValue::parse(kv) {
                Ok(kv) => kv,
                Err(e) => {
                    return Err(invalid_field("keyval", e));
                },
            },
        };
        Ok(Key { typ, value })
    }

    /// What verifying a signature yields: an unsupported key type or scheme
    /// is refused by name, a scheme the key's type cannot carry is a
    /// mismatch, and otherwise acceptance is decided by the scheme's
    /// algorithm over the re-encoded key bytes, the message and the
    /// signature.
    pub open spec fn spec_verify(
        k: KeyV,
        scheme: SchemeV,
        msg: Seq<u8>,
        sig: Seq<u8>,
    ) -> Result<(), ErrV> {
        match k.typ {
            KeyTypeV::Unsupported(n) => Err(ErrV::UnsupportedKeyType(n)),
            _ => match scheme {
                SchemeV::Unsupported(n) => Err(ErrV::UnsupportedSignatureScheme(n)),
                _ => {
                    if !spec_supports(k.typ, scheme) {
                        Err(ErrV::SignatureSchemeKeyTypeMismatch)
                    } else if SignatureScheme::spec_valid(
                        scheme,
                        rsa_spki_to_pkcs1(k.value.value),
                        msg,
                        sig,
                    ) {
                        Ok(())
                    } else {
                        Err(ErrV::VerificationFailure)
                    }
                },
            },
        }
    }

    /// Uses the key to verify a signature over a byte string.  A mismatch
    /// between the key's type and the claimed scheme is refused before any
    /// cryptographic work.
    pub fn verify(&self, scheme: &SignatureScheme, msg: &[u8], sig: &SignatureValue) -> (r: Result<
        (),
        Error,
    >)
        ensures
            match r {
                Ok(()) => Key::spec_verify(self@, scheme@, msg@, sig@) == Ok::<(), ErrV>(()),
                Err(e) => Key::spec_verify(self@, scheme@, msg@, sig@) == Err::<(), ErrV>(e@),
            },
    {
        match &self.typ {
            KeyType::Unsupported(n) => {
                return Err(Error::UnsupportedKeyType(n.clone()));
            },
            _ => (),
        }
        match scheme {
            SignatureScheme::Unsupported(n) => {
                return Err(Error::UnsupportedSignatureScheme(n.clone()));
            },
            _ => (),
        }
        if !self.typ.supports(scheme) {
            return Err(Error::SignatureSchemeKeyTypeMismatch);
        }
        scheme.verify(&self.value, msg, sig)
    }
}

/// The models of a key pool: key IDs paired with the models of their keys.
pub open spec fn key_map_view(v: Seq<(KeyId, Key)>) -> Seq<(Seq<char>, KeyV)> {
    Seq::new(v.len(), |i: int| (v[i].0@, v[i].1@))
}

/// What a key pool parses to: each member name is a key ID and each member
/// value a key.
pub open spec fn spec_parse_key_map(ms: Seq<(Seq<char>, Jv)>) -> Result<
    Seq<(Seq<char>, KeyV)>,
    ErrV,
>
    decreases ms.len(),
{
    if ms.len() == 0 {
        Ok(Seq::empty())
    } else {
        match spec_parse_key(ms[0].1) {
            Err(e) => Err(e),
            Ok(k) => match spec_parse_key_map(ms.drop_first()) {
                Ok(rest) => Ok(seq![(ms[0].0, k)] + rest),
                Err(e) => Err(e),
            },
        }
    }
}

/// Reads a key pool, keeping the members' order.
pub(crate) fn parse_key_map(members: &Vec<(String, JsonValue)>) -> (r: Result<
    Vec<(KeyId, Key)>,
    Error,
>)
    ensures
        match r {
            Ok(keys) => spec_parse_key_map(mem_view(members@)) == Ok::<
                Seq<(Seq<char>, KeyV)>,
                ErrV,
            >(key_map_view(keys@)),
            Err(e) => spec_parse_key_map(mem_view(members@)) == Err::<
                Seq<(Seq<char>, KeyV)>,
                ErrV,
            >(e@),
        },
{
    let ghost ms = mem_view(members@);
    let mut out: Vec<(KeyId, Key)> = Vec::new();
    let mut i: usize = 0;
    proof {
        crate::jsonval::lemma_mem_view_len(members@);
        assert(ms.skip(0) =~= ms);
        assert(key_map_view(out@) =~= Seq::<(Seq<char>, KeyV)>::empty());
    }
    while i < members.len()
        invariant
            i <= members.len(),
            ms == mem_view(members@),
            ms.len() == members@.len(),
            out@.len() == i,
            spec_parse_key_map(ms) == (match spec_parse_key_map(ms.skip(i as int)) {
                Ok(rest) => Ok::<Seq<(Seq<char>, KeyV)>, ErrV>(key_map_view(out@) + rest),
                Err(e) => Err::<Seq<(Seq<char>, KeyV)>, ErrV>(e),
            }),
        decreases members.len() - i,
    {
        proof {
            crate::jsonval::lemma_mem_view_index(members@, i as int);
            assert(ms.skip(i as int)[0] == ms[i as int]);
            assert(ms.skip(i as int).drop_first() =~= ms.skip(i + 1 as int));
        }
        let k = match Key::parse(&members[i].1) {
            Ok(k) => k,
            Err(e) => {
                return Err(e);
            },
        };
        let id = KeyId(members[i].0.clone());
        let ghost prev = out@;
        out.push((id, k));
        proof {
            assert(key_map_view(out@) =~= key_map_view(prev).push(
                (ms[i as int].0, spec_parse_key(ms[i as int].1)->Ok_0),
            ));
            if spec_parse_key_map(ms.skip(i + 1 as int)) is Ok {
                let rest = spec_parse_key_map(ms.skip(i + 1 as int))->Ok_0;
                assert(key_map_view(prev) + (seq![
                    (ms[i as int].0, spec_parse_key(ms[i as int].1)->Ok_0),
                ] + rest) =~= key_map_view(out@) + rest);
            }
        }
        i += 1;
    }
    proof {
        assert(ms.skip(i as int).len() == 0);
        assert(key_map_view(out@) + Seq::<(Seq<char>, KeyV)>::empty() =~= key_map_view(out@));
    }
    Ok(out)
}

/// Hash algorithm identifiers; unknown names round-trip as `Unsupported`
/// and must never be selected for verification.
#[derive(Debug, Clone, Hash, PartialEq, Eq)]
pub enum HashType {
    Sha256,
    Sha512,
    Unsupported(String),
}

/// The model of a hash algorithm identifier.
#[verifier::ext_equal]
pub enum HashTypeV {
    Sha256,
    Sha512,
    Unsupported(Seq<char>),
}

impl View for HashType {
    type V = HashTypeV;

    open spec fn view(&self) -> HashTypeV {
        match self {
            HashType::Sha256 => HashTypeV::Sha256,
            HashType::Sha512 => HashTypeV::Sha512,
            HashType::Unsupported(s) => HashTypeV::Unsupported(s@),
        }
    }
}

/// The hash type a name denotes; unrecognized names are kept, not rejected.
pub open spec fn spec_hash_type(s: Seq<char>) -> HashTypeV {
    if s == "sha256"@ {
        HashTypeV::Sha256
    } else if s == "sha512"@ {
        HashTypeV::Sha512
    } else {
        HashTypeV::Unsupported(s)
    }
}

impl HashType {
    /// Reads a hash type name.
    pub fn from_str(s: &str) -> (r: Result<HashType, Error>)
        ensures
            r matches Ok(t) && t@ == spec_hash_type(s@),
    {
        if str_eq(s, "sha256") {
            Ok(HashType::Sha256)
        } else if str_eq(s, "sha512") {
            Ok(HashType::Sha512)
        } else {
            Ok(HashType::Unsupported(s.to_owned()))
        }
    }

    /// The fixed digest preference order: SHA-512 before SHA-256.  The
    /// workflow layer uses it when an entry offers several digests.
    pub fn preferences() -> (r: Vec<HashType>)
        ensures
            r@.len() == 2,
            r@[0] is Sha512,
            r@[1] is Sha256,
    {
        let mut v: Vec<HashType> = Vec::new();
        v.push(HashType::Sha512);
        v.push(HashType::Sha256);
        v
    }
}

/// A decoded digest value.
#[derive(Debug, Clone, PartialEq)]
pub struct HashValue(pub Vec<u8>);

impl View for HashValue {
    type V = Seq<u8>;

    open spec fn view(&self) -> Seq<u8> {
        self.0@
    }
}

/// What a signature parses to: an object with `keyid`, `method` and a hex
/// `sig`.
pub open spec fn spec_parse_signature(j: Jv) -> Result<SignatureV, ErrV> {
    match j {
        Jv::Obj(ms) => match jv_get(ms, "keyid"@) {
            Option::None => Err(ErrV::MissingField("keyid"@)),
            Option::Some(kv) => match kv {
                Jv::Str(kid) => match jv_get(ms, "method"@) {
                    Option::None => Err(ErrV::MissingField("method"@)),
                    Option::Some(mv) => match mv {
                        Jv::Str(meth) => match jv_get(ms, "sig"@) {
                            Option::None => Err(ErrV::MissingField("sig"@)),
                            Option::Some(sv) => match sv {
                                Jv::Str(sig) => {
                                    if is_hex(sig) {
                                        Ok(
                                            SignatureV {
                                                key_id: kid,
                                                method: spec_scheme(meth),
                                                sig: unhex(sig),
                                            },
                                        )
                                    } else {
                                        Err(
                                            ErrV::InvalidFieldValue(
                                                "sig"@,
                                                Box::new(ErrV::MalformedDocument),
                                            ),
                                        )
                                    }
                                },
                                _ => Err(
                                    ErrV::InvalidFieldValue(
                                        "sig"@,
                                        Box::new(ErrV::MalformedDocument),
                                    ),
                                ),
                            },
                        },
                        _ => Err(
                            ErrV::InvalidFieldValue(
                                "method"@,
                                Box::new(ErrV::MalformedDocument),
                            ),
                        ),
                    },
                },
                _ => Err(
                    ErrV::InvalidFieldValue("keyid"@, Box::new(ErrV::MalformedDocument)),
                ),
            },
        },
        _ => Err(ErrV::MalformedDocument),
    }
}

impl Signature {
    /// Reads a signature: an object with `keyid`, `method` and a hex `sig`.
    pub fn parse(v: &JsonValue) -> (r: Result<Signature, Error>)
        ensures
            match r {
                Ok(s) => spec_parse_signature(v@) == Ok::<SignatureV, ErrV>(s@),
                Err(e) => spec_parse_signature(v@) == Err::<SignatureV, ErrV>(e@),
            },
    {
        let members = match v {
            JsonValue::Object(members) => members,
            _ => {
                return Err(Error::MalformedDocument);
            },
        };
        proof {
            assert(v@ == Jv::Obj(mem_view(members@)));
        }
        let key_id = match obj_get(members, "keyid") {
            None => {
                return Err(missing_field("keyid"));
            },
            Some(kv) => match kv.as_str_value() {
                Some(s) => KeyId(s.clone()),
                None => {
                    return Err(
                        invalid_field("keyid", Error::MalformedDocument),
                    );
                },
            },
        };
        let method = match obj_get(members, "method") {
            None => {
                return Err(missing_field("method"));
            },
            Some(mv) => match mv.as_str_value() {
                Some(s) => match SignatureScheme::from_str(s.as_str()) {
                    Ok(m) => m,
                    Err(e) => {
                        return Err(e);
                    },
                },
                None => {
                    return Err(
                        invalid_field("method", Error::MalformedDocument),
                    );
                },
            },
        };
        let sig = match obj_get(members, "sig") {
            None => {
                return Err(missing_field("sig"));
            },
            Some(sv) => match sv.as_str_value() {
                Some(s) => match hex_decode(s.as_str()) {
                    Ok(bytes) => SignatureValue(bytes),
                    Err(e) => {
                        return Err(invalid_field("sig", e));
                    },
                },
                None => {
                    return Err(
                        invalid_field("sig", Error::MalformedDocument),
                    );
                },
            },
        };
        Ok(Signature { key_id, method, sig })
    }
}

} // verus!
