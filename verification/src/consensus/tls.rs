//! Peer certificates and how they are pinned.
//!
//! Every node has one self-signed certificate. Peers know each other by the fingerprint of
//! the certificate, which is the BLAKE3 digest of its DER bytes.

use crate::consensus::transport::{server_name, server_name_for};
use crate::decimal::{decimal, law_decimal_round_trip};
use crate::ids::NodeId;
use vstd::prelude::*;

verus! {

/// The BLAKE3 digest of `bytes`.
pub uninterp spec fn blake3_of(bytes: Seq<u8>) -> Seq<u8>;

/// Computes a digest, through `blake3::hash`, which returns the 32 bytes of the BLAKE3 digest
/// of its input: a function of the input alone.
#[verifier::external_body]
fn digest(bytes: &[u8]) -> (digest: [u8; 32])
    ensures
        digest@ == blake3_of(bytes@),
{
    *blake3::hash(bytes).as_bytes()
}

/// Makes a certificate for `name` and its key, both in DER, through
/// `rcgen::generate_simple_self_signed`. The key is drawn at random, so that nothing is said
/// of what comes out.
#[verifier::external_body]
fn self_signed(name: String) -> (pair: Result<(Vec<u8>, Vec<u8>), String>) {
    match rcgen::generate_simple_self_signed(vec![name]) {
        Ok(made) => Ok((made.cert.der().to_vec(), made.signing_key.serialize_der())),
        Err(error) => Err(error.to_string()),
    }
}

/// Fingerprint of a peer certificate.
#[derive(Debug, Clone, Copy, PartialEq, Eq, Hash)]
pub struct CertFingerprint(pub [u8; 32]);

/// The hexadecimal digit of a number below sixteen.
pub open spec fn hex_digit(value: nat) -> char {
    if value == 0 {
        '0'
    } else if value == 1 {
        '1'
    } else if value == 2 {
        '2'
    } else if value == 3 {
        '3'
    } else if value == 4 {
        '4'
    } else if value == 5 {
        '5'
    } else if value == 6 {
        '6'
    } else if value == 7 {
        '7'
    } else if value == 8 {
        '8'
    } else if value == 9 {
        '9'
    } else if value == 10 {
        'a'
    } else if value == 11 {
        'b'
    } else if value == 12 {
        'c'
    } else if value == 13 {
        'd'
    } else if value == 14 {
        'e'
    } else {
        'f'
    }
}

/// Two hexadecimal digits for each byte.
pub open spec fn hex_text(bytes: Seq<u8>) -> Seq<char>
    decreases bytes.len(),
{
    if bytes.len() == 0 {
        Seq::empty()
    } else {
        hex_text(bytes.drop_last()).push(hex_digit((bytes.last() / 16) as nat)).push(
            hex_digit((bytes.last() % 16) as nat),
        )
    }
}

fn push_hex(text: &mut String, value: u8)
    requires
        value < 16,
    ensures
        final(text)@ == old(text)@.push(hex_digit(value as nat)),
{
    let ghost start = text@;
    if value == 0 {
        text.append("0");
        proof {
            reveal_strlit("0");
        }
    } else if value == 1 {
        text.append("1");
        proof {
            reveal_strlit("1");
        }
    } else if value == 2 {
        text.append("2");
        proof {
            reveal_strlit("2");
        }
    } else if value == 3 {
        text.append("3");
        proof {
            reveal_strlit("3");
        }
    } else if value == 4 {
        text.append("4");
        proof {
            reveal_strlit("4");
        }
    } else if value == 5 {
        text.append("5");
        proof {
            reveal_strlit("5");
        }
    } else if value == 6 {
        text.append("6");
        proof {
            reveal_strlit("6");
        }
    } else if value == 7 {
        text.append("7");
        proof {
            reveal_strlit("7");
        }
    } else if value == 8 {
        text.append("8");
        proof {
            reveal_strlit("8");
        }
    } else if value == 9 {
        text.append("9");
        proof {
            reveal_strlit("9");
        }
    } else if value == 10 {
        text.append("a");
        proof {
            reveal_strlit("a");
        }
    } else if value == 11 {
        text.append("b");
        proof {
            reveal_strlit("b");
        }
    } else if value == 12 {
        text.append("c");
        proof {
            reveal_strlit("c");
        }
    } else if value == 13 {
        text.append("d");
        proof {
            reveal_strlit("d");
        }
    } else if value == 14 {
        text.append("e");
        proof {
            reveal_strlit("e");
        }
    } else {
        text.append("f");
        proof {
            reveal_strlit("f");
        }
    }
    proof {
        assert(text@ =~= start.push(hex_digit(value as nat)));
    }
}

impl CertFingerprint {
    /// Computes the fingerprint of a certificate.
    pub fn of_der(der: &[u8]) -> (fingerprint: Self)
        ensures
            fingerprint.0@ == blake3_of(der@),
    {
        CertFingerprint(digest(der))
    }

    /// Renders the fingerprint for logs and configuration.
    pub fn hex(&self) -> (text: String)
        ensures
            text@ == hex_text(self.0@),
    {
        let mut text: String = "".to_owned();
        let mut at: usize = 0;
        proof {
            reveal_strlit("");
            assert(self.0@.take(0) =~= Seq::empty());
            assert(text@ =~= hex_text(self.0@.take(0)));
        }
        while at < 32
            invariant
                at <= 32,
                text@ == hex_text(self.0@.take(at as int)),
            decreases 32 - at,
        {
            let byte: u8 = self.0[at];
            push_hex(&mut text, byte / 16);
            push_hex(&mut text, byte % 16);
            at = at + 1;
            proof {
                let now = self.0@.take(at as int);
                assert(now.drop_last() =~= self.0@.take(at - 1));
                assert(now.last() == byte);
            }
        }
        proof {
            assert(self.0@.take(at as int) =~= self.0@);
        }
        text
    }
}

proof fn lemma_hex_digits(a: nat, b: nat)
    requires
        a < 16,
        b < 16,
        hex_digit(a) == hex_digit(b),
    ensures
        a == b,
{
}

/// Different digests have different renderings.
pub proof fn law_hex_is_injective(a: Seq<u8>, b: Seq<u8>)
    requires
        hex_text(a) == hex_text(b),
    ensures
        a == b,
    decreases a.len(),
{
    if a.len() == 0 {
        if b.len() > 0 {
            assert(hex_text(b).len() > 0);
        }
        assert(a =~= b);
    } else if b.len() == 0 {
        assert(hex_text(a).len() > 0);
    } else {
        let x = hex_text(a);
        let y = hex_text(b);
        let n = x.len() as int;
        assert(x[n - 1] == y[n - 1]);
        assert(x[n - 2] == y[n - 2]);
        lemma_hex_digits((a.last() / 16) as nat, (b.last() / 16) as nat);
        lemma_hex_digits((a.last() % 16) as nat, (b.last() % 16) as nat);
        assert(a.last() == b.last());
        assert(x.take(n - 2) =~= hex_text(a.drop_last()));
        assert(y.take(n - 2) =~= hex_text(b.drop_last()));
        law_hex_is_injective(a.drop_last(), b.drop_last());
        assert(a =~= a.drop_last().push(a.last()));
        assert(b =~= b.drop_last().push(b.last()));
    }
}

/// Why peer TLS material could not be prepared.
#[derive(Debug, Clone, PartialEq, Eq)]
#[non_exhaustive]
pub enum TlsError {
    /// Files could not be read or written, or no certificate could be made.
    Io {
        /// What was attempted.
        op: String,
        /// Why it failed.
        detail: String,
    },
    /// A configured fingerprint is malformed.
    BadFingerprint {
        /// Node that the fingerprint is for.
        node: u64,
        /// What is wrong with it.
        detail: String,
    },
}

/// A node's certificate and key, in DER.
#[derive(Debug, Clone, PartialEq, Eq)]
pub struct NodeCert {
    /// The certificate.
    pub cert_der: Vec<u8>,
    /// The private key.
    pub key_der: Vec<u8>,
    /// Fingerprint that peers pin.
    pub fingerprint: CertFingerprint,
}

/// Whether a certificate and a key were stored, and neither is empty.
pub open spec fn complete(cert_der: Option<Vec<u8>>, key_der: Option<Vec<u8>>) -> bool {
    &&& cert_der matches Some(stored) && stored@.len() > 0
    &&& key_der matches Some(key) && key@.len() > 0
}

/// What TLS sessions between peers offer.
#[derive(Debug, PartialEq, Eq)]
pub struct SessionOffer {
    /// The application protocol.
    pub protocol: Vec<u8>,
    /// Whether a client may send early data.
    pub early_data: bool,
}

impl SessionOffer {
    /// Returns what peers offer each other: HTTP/3, and no early data, since requests that
    /// change state must not be replayed.
    pub fn of_peers() -> (offer: Self)
        ensures
            offer.protocol@ == seq![0x68u8, 0x33u8],
            !offer.early_data,
    {
        let mut protocol: Vec<u8> = Vec::new();
        protocol.push(0x68);
        protocol.push(0x33);
        proof {
            assert(protocol@ =~= seq![0x68u8, 0x33u8]);
        }
        SessionOffer { protocol, early_data: false }
    }
}

impl NodeCert {
    /// Returns the name of the directory of certificate and key, below the data directory.
    pub fn directory() -> (name: String)
        ensures
            name@ == "peer-tls"@,
    {
        "peer-tls".to_owned()
    }

    /// Returns the name of the file of the certificate, below the data directory.
    pub fn cert_path() -> (name: String)
        ensures
            name@ == "peer-tls/cert.der"@,
    {
        "peer-tls/cert.der".to_owned()
    }

    /// Returns the name of the file of the private key, below the data directory.
    pub fn key_path() -> (name: String)
        ensures
            name@ == "peer-tls/key.der"@,
    {
        "peer-tls/key.der".to_owned()
    }

    /// Builds the material of a certificate and its key.
    pub fn of_pair(cert_der: Vec<u8>, key_der: Vec<u8>) -> (cert: Self)
        ensures
            cert.cert_der == cert_der,
            cert.key_der == key_der,
            cert.fingerprint.0@ == blake3_of(cert_der@),
    {
        let fingerprint: CertFingerprint = CertFingerprint::of_der(&cert_der);
        NodeCert { cert_der, key_der, fingerprint }
    }

    /// Takes up the certificate and key that were stored, if both are there and neither is
    /// empty. Otherwise it says for which name a pair is to be made: the one that `node` is
    /// dialed by.
    pub fn of_stored(cert_der: Option<Vec<u8>>, key_der: Option<Vec<u8>>, node: NodeId) -> (cert:
        Result<Self, String>)
        ensures
            match cert {
                Ok(cert) => {
                    &&& complete(cert_der, key_der)
                    &&& cert_der == Some(cert.cert_der)
                    &&& key_der == Some(cert.key_der)
                    &&& cert.fingerprint.0@ == blake3_of(cert.cert_der@)
                },
                Err(name) => !complete(cert_der, key_der) && name@ == server_name(node),
            },
    {
        match (cert_der, key_der) {
            (Some(stored), Some(key)) => {
                if stored.len() > 0 && key.len() > 0 {
                    Ok(Self::of_pair(stored, key))
                } else {
                    Err(server_name_for(node))
                }
            },
            _ => Err(server_name_for(node)),
        }
    }

    /// Takes up a certificate and key that were made, or says why none were.
    pub fn of_made(pair: Result<(Vec<u8>, Vec<u8>), String>) -> (cert: Result<Self, TlsError>)
        ensures
            match pair {
                Ok((cert_der, key_der)) => cert matches Ok(cert) && cert.cert_der == cert_der
                    && cert.key_der == key_der && cert.fingerprint.0@ == blake3_of(cert_der@),
                Err(error) => cert matches Err(TlsError::Io { op, detail }) && op@
                    == "generate peer certificate"@ && detail == error,
            },
    {
        match pair {
            Ok((cert_der, key_der)) => Ok(Self::of_pair(cert_der, key_der)),
            Err(detail) => Err(
                TlsError::Io { op: "generate peer certificate".to_owned(), detail },
            ),
        }
    }

    /// Takes up the certificate and key that were stored, or makes a pair for the name that
    /// [`Self::of_stored`] asks for. A pair that was made is to be stored.
    pub fn load_or_generate(
        cert_der: Option<Vec<u8>>,
        key_der: Option<Vec<u8>>,
        node: NodeId,
    ) -> (result: Result<(Self, bool), TlsError>)
        ensures
            if complete(cert_der, key_der) {
                &&& result matches Ok((cert, made))
                &&& !made
                &&& cert_der == Some(cert.cert_der)
                &&& key_der == Some(cert.key_der)
                &&& cert.fingerprint.0@ == blake3_of(cert.cert_der@)
            } else {
                match result {
                    Ok((cert, made)) => made && cert.fingerprint.0@ == blake3_of(cert.cert_der@),
                    Err(error) => error matches TlsError::Io { op, .. } && op@
                        == "generate peer certificate"@,
                }
            },
    {
        match Self::of_stored(cert_der, key_der, node) {
            Ok(cert) => Ok((cert, false)),
            Err(name) => match Self::of_made(self_signed(name)) {
                Ok(cert) => Ok((cert, true)),
                Err(error) => Err(error),
            },
        }
    }
}

/// No two nodes are dialed by one name.
pub proof fn law_server_names_are_distinct(a: NodeId, b: NodeId)
    requires
        server_name(a) == server_name(b),
    ensures
        a == b,
{
    let prefix = "kivi-n"@;
    let x = decimal(a.0 as nat);
    let y = decimal(b.0 as nat);
    assert((prefix + x).skip(prefix.len() as int) =~= x);
    assert((prefix + y).skip(prefix.len() as int) =~= y);
    law_decimal_round_trip(a.0 as nat, u64::MAX as nat);
    law_decimal_round_trip(b.0 as nat, u64::MAX as nat);
}

/// A hexadecimal text has two digits for each byte, the high one first, and its digits
/// are in order.
pub proof fn law_hex_has_two_digits_a_byte(bytes: Seq<u8>, i: int, value: nat)
    requires
        0 <= i < bytes.len(),
        value < 16,
    ensures
        hex_text(bytes).len() == 2 * bytes.len(),
        hex_text(bytes)[2 * i] == hex_digit((bytes[i] / 16) as nat),
        hex_text(bytes)[2 * i + 1] == hex_digit((bytes[i] % 16) as nat),
        value < 10 ==> hex_digit(value) as int == '0' as int + value,
        value >= 10 ==> hex_digit(value) as int == 'a' as int + value - 10,
    decreases bytes.len(),
{
    let front = bytes.drop_last();
    lemma_hex_len(bytes);
    lemma_hex_len(front);
    if i < front.len() {
        law_hex_has_two_digits_a_byte(front, i, value);
    }
}

proof fn lemma_hex_len(bytes: Seq<u8>)
    ensures
        hex_text(bytes).len() == 2 * bytes.len(),
    decreases bytes.len(),
{
    if bytes.len() > 0 {
        lemma_hex_len(bytes.drop_last());
    }
}

/// A stored pair is used only where both halves are there and neither is empty.
pub proof fn law_half_pairs_are_not_used(cert_der: Option<Vec<u8>>, key_der: Option<Vec<u8>>)
    ensures
        cert_der is None || key_der is None ==> !complete(cert_der, key_der),
        cert_der matches Some(cert) ==> (cert@.len() == 0 ==> !complete(cert_der, key_der)),
        key_der matches Some(key) ==> (key@.len() == 0 ==> !complete(cert_der, key_der)),
        cert_der is Some && key_der is Some && cert_der->0@.len() > 0 && key_der->0@.len() > 0
            ==> complete(cert_der, key_der),
{
}

} // verus!
