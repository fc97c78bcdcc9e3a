//! W-OTS+ key material: seeds, public keys and hard-junction key derivation.
//!
//! A seed is 64 bytes, split into a secret half and a public half. Deriving a
//! hard junction hashes each half together with the chain code under a
//! domain-separation label, using the 256-bit Blake2b digest.

use blake2::Digest;
use vstd::prelude::*;

verus! {

/// The 256-bit Blake2b digest of a byte string. What the digest is takes an
/// algorithm to state; callers only rely on it being a function of the input.
pub uninterp spec fn blake2b_256_of(data: Seq<u8>) -> Seq<u8>;

/// Relies on blake2::Blake2b with a 32-byte output: the digest depends on the
/// input bytes alone and is 32 bytes long.
#[verifier::external_body]
fn blake2b_256(data: &[u8]) -> (r: Vec<u8>)
    ensures
        r@ == blake2b_256_of(data@),
        r@.len() == 32,
{
    let mut hasher = blake2::Blake2b::<blake2::digest::consts::U32>::new();
    hasher.update(data);
    hasher.finalize().to_vec()
}

/// A W-OTS+ seed: 64 bytes, split into secret seed and public seed.
#[derive(Clone, PartialEq, Eq, Debug)]
pub struct Seed(pub Vec<u8>);

impl Seed {
    /// Well-formed: exactly 64 bytes.
    pub open spec fn wf(self) -> bool {
        self.0@.len() == 64
    }

    /// A seed from exactly 64 bytes of material.
    pub fn from_bytes(bytes: Vec<u8>) -> (r: Option<Seed>)
        ensures
            r is Some <==> bytes@.len() == 64,
            r is Some ==> r->Some_0.wf() && r->Some_0.0@ == bytes@,
    {
        if bytes.len() == 64 {
            Some(Seed(bytes))
        } else {
            None
        }
    }
}

impl Default for Seed {
    /// The all-zero seed.
    fn default() -> (r: Seed)
        ensures
            r.wf(),
            r.0@ == Seq::new(64, |i: int| 0u8),
    {
        let bytes = vec![0u8; 64];
        proof {
            assert(bytes@ =~= Seq::new(64, |i: int| 0u8));
        }
        Seed(bytes)
    }
}

/// A 256-bit hash value.
#[derive(Clone, Copy, PartialEq, Eq, Debug)]
pub struct H256(pub [u8; 32]);

/// A W-OTS+ public key.
#[derive(Clone, Copy, PartialEq, Eq, Debug)]
pub struct Public(pub [u8; 32]);

impl Public {
    /// A new instance from the given 32-byte `data`. No checking goes on to
    /// ensure this is a real public key.
    pub fn from_raw(data: [u8; 32]) -> (r: Self)
        ensures
            r.0 == data,
    {
        Public(data)
    }

    /// A new instance from a 256-bit hash value.
    pub fn from_h256(x: H256) -> (r: Self)
        ensures
            r.0 == x.0,
    {
        Public(x.0)
    }

    /// The raw key bytes.
    pub fn as_array_ref(&self) -> (r: &[u8; 32])
        ensures
            r == &self.0,
    {
        &self.0
    }
}

impl Public {
    /// A new instance from a slice that must be 32 bytes long.
    pub fn from_slice(data: &[u8]) -> (r: Option<Self>)
        ensures
            r is Some <==> data@.len() == 32,
            r is Some ==> r->Some_0.0@ == data@,
    {
        if data.len() != 32 {
            return None;
        }
        let mut raw = [0u8; 32];
        let mut i: usize = 0;
        while i < 32
            invariant
                i <= 32,
                data@.len() == 32,
                forall|j: int| 0 <= j < i ==> raw@[j] == data@[j],
            decreases 32 - i,
        {
            raw[i] = data[i];
            i = i + 1;
        }
        proof {
            assert(raw@ =~= data@);
        }
        Some(Public(raw))
    }
}

/// A W-OTS+ signature: a variable-length byte string; nothing here checks
/// that it is a real signature.
#[derive(Clone, PartialEq, Eq, Debug)]
pub struct Signature(pub Vec<u8>);

impl Signature {
    /// A new instance from the given `data`. No checking goes on to ensure
    /// this is a real signature.
    pub fn from_raw(data: &[u8]) -> (r: Signature)
        ensures
            r.0@ == data@,
    {
        let n = data.len();
        let mut bytes: Vec<u8> = Vec::new();
        let mut i: usize = 0;
        while i < n
            invariant
                i <= n,
                n == data@.len(),
                bytes@ == data@.take(i as int),
            decreases n - i,
        {
            bytes.push(data[i]);
            proof {
                assert(data@.take(i as int + 1) =~= data@.take(i as int).push(data@[i as int]));
            }
            i = i + 1;
        }
        proof {
            assert(data@.take(n as int) =~= data@);
        }
        Signature(bytes)
    }

    /// A new instance from the given slice; any length is accepted.
    pub fn from_slice(data: &[u8]) -> (r: Option<Self>)
        ensures
            r is Some,
            r->Some_0.0@ == data@,
    {
        Some(Self::from_raw(data))
    }
}

/// A localized signature also contains sender information.
#[derive(Clone, PartialEq, Eq, Debug)]
pub struct LocalizedSignature {
    /// The signer of the signature.
    pub signer: Public,
    /// The signature itself.
    pub signature: Signature,
}

/// An error when deriving a key.
#[derive(Clone, Copy, PartialEq, Eq, Structural, Debug)]
pub enum DeriveError {
    /// A soft key was found in the path (and is unsupported).
    SoftKeyInPath,
    /// Invalid seed.
    InvalidSeed,
}

/// A single derivation junction: soft junctions are unsupported for W-OTS+
/// keys, hard junctions carry a 32-byte chain code.
#[derive(Clone, Copy, PartialEq, Eq, Debug)]
pub enum DeriveJunction {
    /// A soft junction.
    Soft([u8; 32]),
    /// A hard junction, mixing the chain code into both seed halves.
    Hard([u8; 32]),
}

/// The domain-separation label for the secret half ("WOTSHDKDSK" in ASCII).
pub open spec fn sk_label() -> Seq<u8> {
    seq![87u8, 79u8, 84u8, 83u8, 72u8, 68u8, 75u8, 68u8, 83u8, 75u8]
}

/// The domain-separation label for the public half ("WOTSHDKDPK" in ASCII).
pub open spec fn pk_label() -> Seq<u8> {
    seq![87u8, 79u8, 84u8, 83u8, 72u8, 68u8, 75u8, 68u8, 80u8, 75u8]
}

/// The length-prefixed encoding of `(label, half, chain code)` that is
/// hashed: each variable-length part carries its compact length prefix (a
/// length under 64 encodes as four times itself), the fixed-size chain code
/// follows raw.
pub open spec fn hd_kd_encoding(label: Seq<u8>, half: Seq<u8>, cc: Seq<u8>) -> Seq<u8> {
    seq![(label.len() * 4) as u8] + label + seq![128u8] + half + cc
}

/// The seed one hard junction derives: each 32-byte half is the digest of its
/// labelled encoding with the chain code.
pub open spec fn hard_junction_of(seed: Seq<u8>, cc: Seq<u8>) -> Seq<u8> {
    blake2b_256_of(hd_kd_encoding(sk_label(), seed.subrange(0, 32), cc)) + blake2b_256_of(
        hd_kd_encoding(pk_label(), seed.subrange(32, 64), cc),
    )
}

/// Bytes of a labelled encoding, built for hashing.
fn hd_kd_message(secret_half: bool, half: &Vec<u8>, cc: &[u8; 32]) -> (r: Vec<u8>)
    requires
        half@.len() == 32,
    ensures
        r@ == hd_kd_encoding(
            if secret_half {
                sk_label()
            } else {
                pk_label()
            },
            half@,
            cc@,
        ),
{
    let mut msg: Vec<u8> = Vec::new();
    msg.push(40);
    msg.push(87);
    msg.push(79);
    msg.push(84);
    msg.push(83);
    msg.push(72);
    msg.push(68);
    msg.push(75);
    msg.push(68);
    if secret_half {
        msg.push(83);
    } else {
        msg.push(80);
    }
    msg.push(75);
    msg.push(128);
    let ghost prefix = msg@;
    proof {
        assert(prefix =~= seq![40u8] + (if secret_half {
            sk_label()
        } else {
            pk_label()
        }) + seq![128u8]);
    }
    let mut i: usize = 0;
    while i < 32
        invariant
            i <= 32,
            half@.len() == 32,
            msg@ == prefix + half@.take(i as int),
        decreases 32 - i,
    {
        msg.push(half[i]);
        proof {
            assert(prefix + half@.take(i as int + 1) =~= (prefix + half@.take(i as int)).push(
                half@[i as int],
            ));
        }
        i = i + 1;
    }
    proof {
        assert(half@.take(32) =~= half@);
    }
    let ghost with_half = msg@;
    let mut j: usize = 0;
    while j < 32
        invariant
            j <= 32,
            msg@ == with_half + cc@.take(j as int),
        decreases 32 - j,
    {
        msg.push(cc[j]);
        proof {
            assert(with_half + cc@.take(j as int + 1) =~= (with_half + cc@.take(j as int)).push(
                cc@[j as int],
            ));
        }
        j = j + 1;
    }
    proof {
        assert(cc@.take(32) =~= cc@);
        assert(msg@ =~= hd_kd_encoding(
            if secret_half {
                sk_label()
            } else {
                pk_label()
            },
            half@,
            cc@,
        ));
    }
    msg
}

/// A copy of `v[start..end]`.
fn copy_range(v: &Vec<u8>, start: usize, end: usize) -> (r: Vec<u8>)
    requires
        start <= end <= v@.len(),
    ensures
        r@ == v@.subrange(start as int, end as int),
{
    let mut r: Vec<u8> = Vec::new();
    let mut i: usize = start;
    proof {
        assert(r@ =~= v@.subrange(start as int, start as int));
    }
    while i < end
        invariant
            start <= i <= end,
            end <= v@.len(),
            r@ == v@.subrange(start as int, i as int),
        decreases end - i,
    {
        r.push(v[i]);
        proof {
            assert(v@.subrange(start as int, i as int + 1) =~= v@.subrange(
                start as int,
                i as int,
            ).push(v@[i as int]));
        }
        i = i + 1;
    }
    r
}

/// Derive a single hard junction: mix the chain code into both halves of the
/// seed under their domain-separation labels.
pub fn derive_hard_junction(seed: &Seed, cc: &[u8; 32]) -> (r: Seed)
    requires
        seed.wf(),
    ensures
        r.wf(),
        r.0@ == hard_junction_of(seed.0@, cc@),
{
    let sk_half = copy_range(&seed.0, 0, 32);
    let pk_half = copy_range(&seed.0, 32, 64);
    let sk_msg = hd_kd_message(true, &sk_half, cc);
    let pk_msg = hd_kd_message(false, &pk_half, cc);
    let mut out = blake2b_256(sk_msg.as_slice());
    let mut pk_hash = blake2b_256(pk_msg.as_slice());
    out.append(&mut pk_hash);
    Seed(out)
}

/// What deriving a whole path yields: a soft junction anywhere fails, hard
/// junctions fold left over the seed.
pub open spec fn derive_seed_spec(seed: Seq<u8>, path: Seq<DeriveJunction>) -> Result<
    Seq<u8>,
    DeriveError,
>
    decreases path.len(),
{
    if path.len() == 0 {
        Ok(seed)
    } else {
        match path[0] {
            DeriveJunction::Soft(_) => Err(DeriveError::SoftKeyInPath),
            DeriveJunction::Hard(cc) => derive_seed_spec(hard_junction_of(seed, cc@), path.skip(1)),
        }
    }
}

/// Derive a child seed from a series of junctions. Only hard junctions are
/// supported; a soft junction anywhere in the path fails.
pub fn derive_seed(seed: &Seed, path: &Vec<DeriveJunction>) -> (r: Result<Seed, DeriveError>)
    requires
        seed.wf(),
    ensures
        match r {
            Ok(out) => out.wf() && Ok::<Seq<u8>, DeriveError>(out.0@) == derive_seed_spec(
                seed.0@,
                path@,
            ),
            Err(e) => Err::<Seq<u8>, DeriveError>(e) == derive_seed_spec(seed.0@, path@),
        },
{
    let n = path.len();
    let mut acc = copy_range(&seed.0, 0, 64);
    proof {
        assert(seed.0@.subrange(0, 64) =~= seed.0@);
        assert(path@.skip(0) =~= path@);
    }
    let mut acc_seed = Seed(acc);
    let mut i: usize = 0;
    while i < n
        invariant
            i <= n,
            n == path@.len(),
            acc_seed.wf(),
            derive_seed_spec(acc_seed.0@, path@.skip(i as int)) == derive_seed_spec(
                seed.0@,
                path@,
            ),
        decreases n - i,
    {
        proof {
            assert(path@.skip(i as int)[0] == path@[i as int]);
            assert(path@.skip(i as int).skip(1) =~= path@.skip(i as int + 1));
        }
        match path[i] {
            DeriveJunction::Soft(_) => {
                return Err(DeriveError::SoftKeyInPath);
            },
            DeriveJunction::Hard(cc) => {
                acc_seed = derive_hard_junction(&acc_seed, &cc);
            },
        }
        i = i + 1;
    }
    proof {
        assert(path@.skip(n as int) =~= Seq::<DeriveJunction>::empty());
    }
    Ok(acc_seed)
}


} // verus!
