//! Threshold-signature key identifiers: `scheme:algorithm:name`.
use vstd::prelude::*;
use crate::params::ConfigError;
use crate::text::{dec, decimal, free_of, lemma_split_unique, split_on, split_once, str_eq};

verus! {

#[derive(Clone, Copy, Debug, PartialEq, Eq, Structural)]
pub enum KeyScheme {
    Ecdsa,
    Schnorr,
    VetKd,
}

#[derive(Clone, Copy, Debug, PartialEq, Eq, Structural)]
pub enum KeyAlgorithm {
    Secp256k1,
    Bip340Secp256k1,
    Ed25519,
    Bls12381G2,
}

/// A threshold key: its scheme, the algorithm or curve within it, and a name.
#[derive(Clone, Debug, PartialEq, Eq)]
pub struct KeyId {
    pub scheme: KeyScheme,
    pub algorithm: KeyAlgorithm,
    pub name: String,
}

pub open spec fn scheme_text(s: KeyScheme) -> Seq<char> {
    match s {
        KeyScheme::Ecdsa => "ecdsa"@,
        KeyScheme::Schnorr => "schnorr"@,
        KeyScheme::VetKd => "vetkd"@,
    }
}

pub open spec fn algorithm_text(a: KeyAlgorithm) -> Seq<char> {
    match a {
        KeyAlgorithm::Secp256k1 => "Secp256k1"@,
        KeyAlgorithm::Bip340Secp256k1 => "Bip340Secp256k1"@,
        KeyAlgorithm::Ed25519 => "Ed25519"@,
        KeyAlgorithm::Bls12381G2 => "Bls12_381_G2"@,
    }
}

/// Which algorithms each scheme admits.
pub open spec fn scheme_admits(s: KeyScheme, a: KeyAlgorithm) -> bool {
    match s {
        KeyScheme::Ecdsa => a == KeyAlgorithm::Secp256k1,
        KeyScheme::Schnorr => a == KeyAlgorithm::Bip340Secp256k1 || a == KeyAlgorithm::Ed25519,
        KeyScheme::VetKd => a == KeyAlgorithm::Bls12381G2,
    }
}

/// The text of a key identifier.
pub open spec fn key_text(s: KeyScheme, a: KeyAlgorithm, name: Seq<char>) -> Seq<char> {
    scheme_text(s) + seq![':'] + algorithm_text(a) + seq![':'] + name
}

/// Whether `t` is the text of some key identifier.
pub open spec fn is_key_text(t: Seq<char>) -> bool {
    exists|s: KeyScheme, a: KeyAlgorithm, name: Seq<char>|
        scheme_admits(s, a) && t == #[trigger] key_text(s, a, name)
}

/// The text of a legacy identifier: an ECDSA curve and a name.
pub open spec fn legacy_text(a: KeyAlgorithm, name: Seq<char>) -> Seq<char> {
    algorithm_text(a) + seq![':'] + name
}

pub open spec fn is_legacy_text(t: Seq<char>) -> bool {
    exists|a: KeyAlgorithm, name: Seq<char>|
        scheme_admits(KeyScheme::Ecdsa, a) && t == #[trigger] legacy_text(a, name)
}

/// The key that a legacy identifier names on the node `node_index`: its
/// name carries the node index, so that each node's key is its own.
pub open spec fn legacy_key_matches(t: Seq<char>, k: KeyId, node_index: nat) -> bool {
    exists|base: Seq<char>|
        k.scheme == KeyScheme::Ecdsa && scheme_admits(k.scheme, k.algorithm)
        && t == #[trigger] legacy_text(k.algorithm, base)
        && k.name@ == base + "_"@ + dec(node_index)
}

proof fn lemma_scheme_text(s: KeyScheme)
    ensures
        free_of(scheme_text(s), ':'),
        scheme_of(scheme_text(s)) == Some(s),
{
    reveal_strlit("ecdsa");
    reveal_strlit("schnorr");
    reveal_strlit("vetkd");
    assert("ecdsa"@.len() == 5 && "schnorr"@.len() == 7 && "vetkd"@.len() == 5);
    assert("ecdsa"@[0] != "vetkd"@[0]);
}

proof fn lemma_algorithm_text(a: KeyAlgorithm)
    ensures
        free_of(algorithm_text(a), ':'),
        algorithm_of(algorithm_text(a)) == Some(a),
{
    reveal_strlit("Secp256k1");
    reveal_strlit("Bip340Secp256k1");
    reveal_strlit("Ed25519");
    reveal_strlit("Bls12_381_G2");
    assert("Secp256k1"@.len() == 9 && "Bip340Secp256k1"@.len() == 15);
    assert("Ed25519"@.len() == 7 && "Bls12_381_G2"@.len() == 12);
}

/// A legacy text determines its algorithm and name.
proof fn lemma_legacy_text_unique(a1: KeyAlgorithm, n1: Seq<char>, a2: KeyAlgorithm, n2: Seq<char>)
    requires
        legacy_text(a1, n1) == legacy_text(a2, n2),
    ensures
        a1 == a2,
        n1 == n2,
{
    lemma_algorithm_text(a1);
    lemma_algorithm_text(a2);
    lemma_split_unique(legacy_text(a1, n1), ':', algorithm_text(a1), n1, algorithm_text(a2), n2);
}

/// The first colon of a key text closes its scheme.
proof fn lemma_key_text_split(t: Seq<char>, h: Seq<char>, rest: Seq<char>, s: KeyScheme, a: KeyAlgorithm, n: Seq<char>)
    requires
        split_on(t, ':', h, rest),
        t == key_text(s, a, n),
    ensures
        h == scheme_text(s),
        rest == legacy_text(a, n),
{
    lemma_scheme_text(s);
    assert(key_text(s, a, n) =~= scheme_text(s) + seq![':'] + legacy_text(a, n));
    lemma_split_unique(t, ':', h, rest, scheme_text(s), legacy_text(a, n));
}

/// A text without a colon is neither a key text nor a legacy text.
proof fn lemma_colon_free_no_key(t: Seq<char>)
    requires
        free_of(t, ':'),
    ensures
        !is_key_text(t),
        forall|a: KeyAlgorithm, n: Seq<char>| t != #[trigger] legacy_text(a, n),
{
    assert forall|s: KeyScheme, a: KeyAlgorithm, n: Seq<char>| t != #[trigger] key_text(s, a, n) by {
        if t == key_text(s, a, n) {
            lemma_scheme_text(s);
            assert(t[scheme_text(s).len() as int] == ':');
        }
    }
    assert forall|a: KeyAlgorithm, n: Seq<char>| t != #[trigger] legacy_text(a, n) by {
        if t == legacy_text(a, n) {
            lemma_algorithm_text(a);
            assert(t[algorithm_text(a).len() as int] == ':');
        }
    }
}

pub open spec fn scheme_of(t: Seq<char>) -> Option<KeyScheme> {
    if t == "ecdsa"@ {
        Some(KeyScheme::Ecdsa)
    } else if t == "schnorr"@ {
        Some(KeyScheme::Schnorr)
    } else if t == "vetkd"@ {
        Some(KeyScheme::VetKd)
    } else {
        None
    }
}

pub open spec fn algorithm_of(t: Seq<char>) -> Option<KeyAlgorithm> {
    if t == "Secp256k1"@ {
        Some(KeyAlgorithm::Secp256k1)
    } else if t == "Bip340Secp256k1"@ {
        Some(KeyAlgorithm::Bip340Secp256k1)
    } else if t == "Ed25519"@ {
        Some(KeyAlgorithm::Ed25519)
    } else if t == "Bls12_381_G2"@ {
        Some(KeyAlgorithm::Bls12381G2)
    } else {
        None
    }
}

fn read_scheme(t: &str) -> (r: Option<KeyScheme>)
    ensures
        r == scheme_of(t@),
{
    if str_eq(t, "ecdsa") {
        Some(KeyScheme::Ecdsa)
    } else if str_eq(t, "schnorr") {
        Some(KeyScheme::Schnorr)
    } else if str_eq(t, "vetkd") {
        Some(KeyScheme::VetKd)
    } else {
        None
    }
}

fn read_algorithm(t: &str) -> (r: Option<KeyAlgorithm>)
    ensures
        r == algorithm_of(t@),
{
    if str_eq(t, "Secp256k1") {
        Some(KeyAlgorithm::Secp256k1)
    } else if str_eq(t, "Bip340Secp256k1") {
        Some(KeyAlgorithm::Bip340Secp256k1)
    } else if str_eq(t, "Ed25519") {
        Some(KeyAlgorithm::Ed25519)
    } else if str_eq(t, "Bls12_381_G2") {
        Some(KeyAlgorithm::Bls12381G2)
    } else {
        None
    }
}

fn admits(s: KeyScheme, a: KeyAlgorithm) -> (r: bool)
    ensures
        r == scheme_admits(s, a),
{
    match s {
        KeyScheme::Ecdsa => matches!(a, KeyAlgorithm::Secp256k1),
        KeyScheme::Schnorr => matches!(a, KeyAlgorithm::Bip340Secp256k1 | KeyAlgorithm::Ed25519),
        KeyScheme::VetKd => matches!(a, KeyAlgorithm::Bls12381G2),
    }
}

/// Splits `algorithm:name`: the algorithm, if its text is known, and the name.
fn read_algorithm_and_name(t: &str) -> (r: Option<(KeyAlgorithm, String)>)
    ensures
        r matches Some((a, n)) ==> t@ == legacy_text(a, n@),
        r is None ==> forall|a: KeyAlgorithm, n: Seq<char>| t@ != #[trigger] legacy_text(a, n),
{
    match split_once(t, ':') {
        None => {
            proof {
                lemma_colon_free_no_key(t@);
            }
            None
        },
        Some((h, rest)) => {
            match read_algorithm(h) {
                None => {
                    assert forall|a: KeyAlgorithm, n: Seq<char>| t@ != #[trigger] legacy_text(a, n) by {
                        if t@ == legacy_text(a, n) {
                            lemma_algorithm_text(a);
                            lemma_split_unique(t@, ':', h@, rest@, algorithm_text(a), n);
                        }
                    }
                    None
                },
                Some(a) => {
                    let name = String::from_str(rest);
                    Some((a, name))
                },
            }
        },
    }
}

/// Reads one key identifier `scheme:algorithm:name`.
pub fn parse_key_id(t: &str) -> (r: Result<KeyId, ConfigError>)
    ensures
        r matches Ok(k) ==> scheme_admits(k.scheme, k.algorithm) && t@ == key_text(k.scheme, k.algorithm, k.name@),
        r is Err ==> r == Err::<KeyId, ConfigError>(ConfigError::InvalidInput) && !is_key_text(t@),
        r is Ok <==> is_key_text(t@),
{
    let split = split_once(t, ':');
    if split.is_none() {
        proof {
            lemma_colon_free_no_key(t@);
        }
        return Err(ConfigError::InvalidInput);
    }
    let (h, rest) = split.unwrap();
    let scheme = read_scheme(h);
    let parsed = read_algorithm_and_name(rest);
    match (scheme, parsed) {
        (Some(s), Some((a, name))) => {
            if admits(s, a) {
                assert(h@ == scheme_text(s));
                assert(t@ =~= key_text(s, a, name@));
                assert(is_key_text(t@));
                Ok(KeyId { scheme: s, algorithm: a, name })
            } else {
                assert forall|s2: KeyScheme, a2: KeyAlgorithm, n: Seq<char>| scheme_admits(s2, a2) implies t@ != #[trigger] key_text(s2, a2, n) by {
                    if t@ == key_text(s2, a2, n) {
                        lemma_key_text_split(t@, h@, rest@, s2, a2, n);
                        lemma_scheme_text(s2);
                        lemma_legacy_text_unique(a, name@, a2, n);
                    }
                }
                Err(ConfigError::InvalidInput)
            }
        },
        _ => {
            assert forall|s2: KeyScheme, a2: KeyAlgorithm, n: Seq<char>| scheme_admits(s2, a2) implies t@ != #[trigger] key_text(s2, a2, n) by {
                if t@ == key_text(s2, a2, n) {
                    lemma_key_text_split(t@, h@, rest@, s2, a2, n);
                    lemma_scheme_text(s2);
                }
            }
            Err(ConfigError::InvalidInput)
        },
    }
}

/// Reads a legacy identifier `curve:name` of an ECDSA key, and names the key
/// after the node: `name_<node_index>`.
pub fn parse_legacy_key_id(t: &str, node_index: u64) -> (r: Result<KeyId, ConfigError>)
    ensures
        r matches Ok(k) ==> legacy_key_matches(t@, k, node_index as nat),
        r is Err ==> r == Err::<KeyId, ConfigError>(ConfigError::InvalidInput),
        r is Ok <==> is_legacy_text(t@),
{
    match read_algorithm_and_name(t) {
        None => Err(ConfigError::InvalidInput),
        Some((a, base)) => {
            if admits(KeyScheme::Ecdsa, a) {
                let ghost b = base@;
                let mut name = base;
                name.append("_");
                name.append(decimal(node_index as u128).as_str());
                let k = KeyId { scheme: KeyScheme::Ecdsa, algorithm: a, name };
                assert(t@ == legacy_text(k.algorithm, b));
                Ok(k)
            } else {
                assert forall|a2: KeyAlgorithm, n: Seq<char>| scheme_admits(KeyScheme::Ecdsa, a2) implies t@ != #[trigger] legacy_text(a2, n) by {
                    if t@ == legacy_text(a2, n) {
                        lemma_legacy_text_unique(a, base@, a2, n);
                    }
                }
                Err(ConfigError::InvalidInput)
            }
        },
    }
}

/// Whether every token is a key text, and the legacy identifier, if any, a
/// legacy text.
pub open spec fn key_ids_valid(tokens: Seq<String>, legacy: Option<String>) -> bool {
    &&& forall|i: int| 0 <= i < tokens.len() ==> is_key_text(#[trigger] tokens[i]@)
    &&& legacy matches Some(l) ==> is_legacy_text(l@)
}

/// Whether `v` holds the keys that the tokens name, in their order, followed
/// by the legacy key of the node, if there is one.
pub open spec fn key_ids_read(tokens: Seq<String>, legacy: Option<String>, node_index: nat, v: Seq<KeyId>) -> bool {
    &&& v.len() == tokens.len() + if legacy is Some { 1int } else { 0int }
    &&& forall|i: int| 0 <= i < tokens.len() ==> {
        &&& scheme_admits(#[trigger] v[i].scheme, v[i].algorithm)
        &&& tokens[i]@ == key_text(v[i].scheme, v[i].algorithm, v[i].name@)
    }
    &&& legacy matches Some(l) ==> legacy_key_matches(l@, v.last(), node_index)
}

/// Reads the key identifiers, then the legacy one of the node `node_index`.
pub fn parse_key_ids(tokens: &Vec<String>, legacy: &Option<String>, node_index: u64) -> (r: Result<Vec<KeyId>, ConfigError>)
    ensures
        r is Ok <==> key_ids_valid(tokens@, *legacy),
        r matches Ok(v) ==> key_ids_read(tokens@, *legacy, node_index as nat, v@),
        r is Err ==> r == Err::<Vec<KeyId>, ConfigError>(ConfigError::InvalidInput),
{
    let mut v: Vec<KeyId> = Vec::new();
    let mut i: usize = 0;
    while i < tokens.len()
        invariant
            i <= tokens.len(),
            v.len() == i,
            forall|j: int| 0 <= j < i ==> is_key_text(#[trigger] tokens@[j]@),
            forall|j: int| 0 <= j < i ==> {
                &&& scheme_admits(#[trigger] v@[j].scheme, v@[j].algorithm)
                &&& tokens@[j]@ == key_text(v@[j].scheme, v@[j].algorithm, v@[j].name@)
            },
        decreases tokens.len() - i,
    {
        match parse_key_id(tokens[i].as_str()) {
            Ok(k) => {
                v.push(k);
            },
            Err(e) => {
                return Err(e);
            },
        }
        i = i + 1;
    }
    match legacy {
        None => {},
        Some(l) => {
            match parse_legacy_key_id(l.as_str(), node_index) {
                Ok(k) => {
                    v.push(k);
                },
                Err(e) => {
                    return Err(e);
                },
            }
        },
    }
    Ok(v)
}

} // verus!
