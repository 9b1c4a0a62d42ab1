//! DID documents as far as ownership verification reads them: the declared
//! public keys and the open map of extra fields.

use vstd::prelude::*;

verus! {

/// The type tag of a declared public key.
#[derive(Clone, Copy, Debug, PartialEq, Eq, Structural)]
pub enum PublicKeyType {
    UnknownKey,
    Ed25519VerificationKey2018,
    RsaVerificationKey2018,
    EcdsaSecp256k1VerificationKey2019,
}

/// How the key material of a declared public key is written.
#[derive(Clone, Copy, Debug, PartialEq, Eq, Structural)]
pub enum PublicKeyEncoding {
    Unknown,
    Pem,
    Jwk,
    Hex,
    Base64,
    Base58,
    Multibase,
    EthereumAddress,
}

/// The signature schemes under which a `signed_agent` claim can be checked.
#[derive(Clone, Copy, Debug, PartialEq, Eq, Structural)]
pub enum KeyAlgorithm {
    /// ECDSA over secp256k1, key material in hexadecimal.
    Secp256k1,
    /// Ed25519, key material in base58.
    Ed25519,
}

/// One public key descriptor of a document.
#[derive(Clone, Debug, PartialEq, Eq)]
pub struct PublicKey {
    pub kind: PublicKeyType,
    pub encoding: PublicKeyEncoding,
    pub data: String,
}

/// A DID document: its key list in declared order, and its extra fields as
/// pairs of name and value in declared order.
#[derive(Clone, Debug, PartialEq, Eq)]
pub struct Document {
    pub public_key: Vec<PublicKey>,
    pub extra: Vec<(String, String)>,
}

/// The name of the extra field that holds the ownership claim.
pub open spec fn signed_agent_field() -> Seq<char> {
    "signed_agent"@
}

/// The scheme of a (type, encoding) pair, where the pair is supported.
pub open spec fn algorithm_of(kind: PublicKeyType, encoding: PublicKeyEncoding) -> Option<
    KeyAlgorithm,
> {
    if encoding == PublicKeyEncoding::Hex && kind
        == PublicKeyType::EcdsaSecp256k1VerificationKey2019 {
        Some(KeyAlgorithm::Secp256k1)
    } else if encoding == PublicKeyEncoding::Base58 && kind
        == PublicKeyType::Ed25519VerificationKey2018 {
        Some(KeyAlgorithm::Ed25519)
    } else {
        None
    }
}

/// `i` is the position of the first supported key of `keys`.
pub open spec fn is_first_supported(keys: Seq<PublicKey>, i: int) -> bool {
    &&& 0 <= i < keys.len()
    &&& algorithm_of(keys[i].kind, keys[i].encoding).is_some()
    &&& forall|j: int|
        0 <= j < i ==> algorithm_of(#[trigger] keys[j].kind, keys[j].encoding).is_none()
}

/// The position of the first supported key in declared order, if there is one.
pub open spec fn first_supported(keys: Seq<PublicKey>) -> Option<int> {
    if exists|i: int| is_first_supported(keys, i) {
        Some(choose|i: int| is_first_supported(keys, i))
    } else {
        None
    }
}

/// `i` is the position of the first pair of `fields` named `name`.
pub open spec fn is_first_named(fields: Seq<(String, String)>, name: Seq<char>, i: int) -> bool {
    &&& 0 <= i < fields.len()
    &&& fields[i].0@ == name
    &&& forall|j: int| 0 <= j < i ==> (#[trigger] fields[j]).0@ != name
}

/// The position of the first pair named `name`, if there is one.
pub open spec fn first_named(fields: Seq<(String, String)>, name: Seq<char>) -> Option<int> {
    if exists|i: int| is_first_named(fields, name, i) {
        Some(choose|i: int| is_first_named(fields, name, i))
    } else {
        None
    }
}

/// Two first positions of supported keys are one position.
pub proof fn lemma_first_supported_unique(keys: Seq<PublicKey>, i: int, j: int)
    requires
        is_first_supported(keys, i),
        is_first_supported(keys, j),
    ensures
        i == j,
{
    if i < j {
        assert(algorithm_of(keys[i].kind, keys[i].encoding).is_none());
    } else if j < i {
        assert(algorithm_of(keys[j].kind, keys[j].encoding).is_none());
    }
}

/// Two first positions of a name are one position.
pub proof fn lemma_first_named_unique(
    fields: Seq<(String, String)>,
    name: Seq<char>,
    i: int,
    j: int,
)
    requires
        is_first_named(fields, name, i),
        is_first_named(fields, name, j),
    ensures
        i == j,
{
    if i < j {
        assert(fields[i].0@ != name);
    } else if j < i {
        assert(fields[j].0@ != name);
    }
}

/// Tells whether a (type, encoding) pair is one of the supported combinations,
/// and which.
pub fn supported_algorithm(kind: PublicKeyType, encoding: PublicKeyEncoding) -> (algorithm: Option<
    KeyAlgorithm,
>)
    ensures
        algorithm == algorithm_of(kind, encoding),
{
    if encoding == PublicKeyEncoding::Hex && kind
        == PublicKeyType::EcdsaSecp256k1VerificationKey2019 {
        Some(KeyAlgorithm::Secp256k1)
    } else if encoding == PublicKeyEncoding::Base58 && kind
        == PublicKeyType::Ed25519VerificationKey2018 {
        Some(KeyAlgorithm::Ed25519)
    } else {
        None
    }
}

/// Scans the key list in declared order and returns the position and the
/// scheme of the first key whose type and encoding are supported; later
/// supported keys are not looked at.
pub fn find_supported_key(keys: &Vec<PublicKey>) -> (found: Option<(usize, KeyAlgorithm)>)
    ensures
        match found {
            Some((i, algorithm)) => first_supported(keys@) == Some(i as int) && algorithm_of(
                keys@[i as int].kind,
                keys@[i as int].encoding,
            ) == Some(algorithm),
            None => first_supported(keys@).is_none(),
        },
        found matches Some((i, _)) ==> is_first_supported(keys@, i as int),
        found.is_none() ==> forall|j: int|
            0 <= j < keys@.len() ==> algorithm_of(
                #[trigger] keys@[j].kind,
                keys@[j].encoding,
            ).is_none(),
{
    let mut i: usize = 0;
    while i < keys.len()
        invariant
            i <= keys@.len(),
            forall|j: int|
                0 <= j < i ==> algorithm_of(#[trigger] keys@[j].kind, keys@[j].encoding).is_none(),
        decreases keys@.len() - i,
    {
        match supported_algorithm(keys[i].kind, keys[i].encoding) {
            Some(algorithm) => {
                proof {
                    assert(is_first_supported(keys@, i as int));
                    let chosen = choose|k: int| is_first_supported(keys@, k);
                    lemma_first_supported_unique(keys@, chosen, i as int);
                }
                return Some((i, algorithm));
            },
            None => {},
        }
        i += 1;
    }
    proof {
        assert forall|k: int| !is_first_supported(keys@, k) by {
            if 0 <= k < keys@.len() {
                assert(algorithm_of(keys@[k].kind, keys@[k].encoding).is_none());
            }
        }
    }
    None
}

/// Looks an extra field up by name and returns the position of its first
/// occurrence.
pub fn find_extra(fields: &Vec<(String, String)>, name: &str) -> (found: Option<usize>)
    ensures
        match found {
            Some(i) => first_named(fields@, name@) == Some(i as int),
            None => first_named(fields@, name@).is_none(),
        },
        found matches Some(i) ==> is_first_named(fields@, name@, i as int),
        found.is_none() ==> forall|j: int|
            0 <= j < fields@.len() ==> (#[trigger] fields@[j]).0@ != name@,
{
    let wanted = name.to_owned();
    let mut i: usize = 0;
    while i < fields.len()
        invariant
            i <= fields@.len(),
            wanted@ == name@,
            forall|j: int| 0 <= j < i ==> (#[trigger] fields@[j]).0@ != name@,
        decreases fields@.len() - i,
    {
        if fields[i].0 == wanted {
            proof {
                assert(is_first_named(fields@, name@, i as int));
                let chosen = choose|k: int| is_first_named(fields@, name@, k);
                lemma_first_named_unique(fields@, name@, chosen, i as int);
            }
            return Some(i);
        }
        i += 1;
    }
    proof {
        assert forall|k: int| !is_first_named(fields@, name@, k) by {
            if 0 <= k < fields@.len() {
                assert(fields@[k].0@ != name@);
            }
        }
    }
    None
}

} // verus!
