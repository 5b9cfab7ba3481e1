//! Account identities and the derivation of program addresses from seeds.
use anchor_lang::prelude::Pubkey;
use vstd::prelude::*;
use vstd::utf8::{decode_utf8, encode_utf8};

verus! {

/// The longest seed that address derivation takes; longer names are cut to it.
pub const MAX_SEED_LEN: usize = 32;

/// A 32-byte account identity: a public key or a derived program address.
#[derive(Clone, Copy, Debug, PartialEq, Eq)]
pub struct Address {
    pub bytes: [u8; 32],
}

impl View for Address {
    type V = Seq<u8>;

    open spec fn view(&self) -> Seq<u8> {
        self.bytes@
    }
}

impl Address {
    pub fn new(bytes: [u8; 32]) -> (r: Address)
        ensures
            r.bytes == bytes,
    {
        Address { bytes }
    }

    /// The identity's bytes.
    pub fn to_vec(&self) -> (r: Vec<u8>)
        ensures
            r@ == self@,
    {
        let mut v: Vec<u8> = Vec::new();
        let mut i: usize = 0;
        while i < 32
            invariant
                0 <= i <= 32,
                self@.len() == 32,
                v@ == self@.subrange(0, i as int),
            decreases 32 - i,
        {
            v.push(self.bytes[i]);
            i = i + 1;
        }
        proof {
            assert(v@ =~= self@);
        }
        v
    }

    /// Whether two identities hold the same bytes.
    pub fn same_as(&self, other: &Address) -> (r: bool)
        ensures
            r == (self@ == other@),
            r == (*self == *other),
    {
        let mut i: usize = 0;
        while i < 32
            invariant
                0 <= i <= 32,
                self@.len() == 32,
                other@.len() == 32,
                forall|j: int| 0 <= j < i ==> self@[j] == other@[j],
            decreases 32 - i,
        {
            if self.bytes[i] != other.bytes[i] {
                proof {
                    assert(self@[i as int] != other@[i as int]);
                }
                return false;
            }
            i = i + 1;
        }
        proof {
            assert(self@ =~= other@);
            assert(self.bytes =~= other.bytes);
        }
        true
    }
}

/// The UTF-8 bytes of a string.
pub open spec fn utf8_bytes(s: Seq<char>) -> Seq<u8> {
    encode_utf8(s)
}

/// A name as it is used as a seed: its first `MAX_SEED_LEN` bytes.
pub open spec fn truncate_seed(b: Seq<u8>) -> Seq<u8> {
    if b.len() > MAX_SEED_LEN {
        b.subrange(0, MAX_SEED_LEN as int)
    } else {
        b
    }
}

/// What `Pubkey::create_program_address` returns for these seeds under this
/// program: the address, or nothing where the seeds are rejected or the hash
/// lies on the curve.
pub uninterp spec fn program_address(seeds: Seq<Seq<u8>>, program_id: Seq<u8>) -> Option<Seq<u8>>;

/// The view of an optional address.
pub open spec fn opt_view(a: Option<Address>) -> Option<Seq<u8>> {
    match a {
        Some(x) => Some(x@),
        None => None,
    }
}

/// Relies on `Pubkey::create_program_address`: a pure function of the seeds
/// and the program id.
#[verifier::external_body]
fn create_program_address(seeds: &Vec<Vec<u8>>, program_id: &Address) -> (r: Option<Address>)
    ensures
        opt_view(r) == program_address(seeds.deep_view(), program_id@),
{
    let refs: Vec<&[u8]> = seeds.iter().map(|s| s.as_slice()).collect();
    let id = Pubkey::new_from_array(program_id.bytes);
    match Pubkey::create_program_address(&refs, &id) {
        Ok(k) => Some(Address { bytes: k.to_bytes() }),
        Err(_) => None,
    }
}

/// The seed that a name contributes: its UTF-8 bytes, cut to `MAX_SEED_LEN`.
pub fn name_seed(name: &str) -> (r: Vec<u8>)
    ensures
        r@ == truncate_seed(utf8_bytes(name@)),
{
    let b = name.as_bytes();
    let n: usize = if b.len() > MAX_SEED_LEN {
        MAX_SEED_LEN
    } else {
        b.len()
    };
    let mut v: Vec<u8> = Vec::new();
    let mut i: usize = 0;
    while i < n
        invariant
            n <= b@.len(),
            b@ == utf8_bytes(name@),
            n == truncate_seed(b@).len(),
            0 <= i <= n,
            v@ == b@.subrange(0, i as int),
        decreases n - i,
    {
        v.push(b[i]);
        i = i + 1;
    }
    proof {
        assert(v@ =~= truncate_seed(b@));
    }
    v
}

/// The seeds of a provider's address: its truncated name and its bump.
pub open spec fn provider_seeds(name: Seq<u8>, bump: u8) -> Seq<Seq<u8>> {
    seq![truncate_seed(name), seq![bump]]
}

/// The seeds of an oracle's address: its provider's address, its truncated
/// name and its bump.
pub open spec fn oracle_seeds(provider: Seq<u8>, name: Seq<u8>, bump: u8) -> Seq<Seq<u8>> {
    seq![provider, truncate_seed(name), seq![bump]]
}

/// Where a provider of this name and bump lives under the given program.
pub open spec fn provider_address_of(name: Seq<u8>, bump: u8, program_id: Seq<u8>) -> Option<
    Seq<u8>,
> {
    program_address(provider_seeds(name, bump), program_id)
}

/// Where an oracle of this name and bump, bound to the given provider, lives
/// under the given program.
pub open spec fn oracle_address_of(
    provider: Seq<u8>,
    name: Seq<u8>,
    bump: u8,
    program_id: Seq<u8>,
) -> Option<Seq<u8>> {
    program_address(oracle_seeds(provider, name, bump), program_id)
}

/// The one-byte seed that disambiguates a derived address.
fn bump_seed(bump: u8) -> (r: Vec<u8>)
    ensures
        r@ == seq![bump],
{
    let mut v: Vec<u8> = Vec::new();
    v.push(bump);
    proof {
        assert(v@ =~= seq![bump]);
    }
    v
}

/// Provider seeds tell names of at most `MAX_SEED_LEN` bytes apart: two such
/// names with their bumps give the same seeds exactly when names and bumps are
/// equal, so deriving from the same name and bump always gives the same address.
pub proof fn lemma_provider_seeds_injective(name1: Seq<char>, bump1: u8, name2: Seq<char>, bump2: u8)
    requires
        utf8_bytes(name1).len() <= MAX_SEED_LEN,
        utf8_bytes(name2).len() <= MAX_SEED_LEN,
    ensures
        provider_seeds(utf8_bytes(name1), bump1) == provider_seeds(utf8_bytes(name2), bump2) <==> (
        name1 == name2 && bump1 == bump2),
        forall|program_id: Seq<u8>|
            name1 == name2 && bump1 == bump2 ==> provider_address_of(
                utf8_bytes(name1),
                bump1,
                program_id,
            ) == provider_address_of(utf8_bytes(name2), bump2, program_id),
{
    broadcast use vstd::utf8::encode_utf8_decode_utf8;

    let s1 = provider_seeds(utf8_bytes(name1), bump1);
    let s2 = provider_seeds(utf8_bytes(name2), bump2);
    if s1 == s2 {
        assert(s1[0] == s2[0]);
        assert(s1[1] == s2[1]);
        assert(s1[1][0] == bump1);
        assert(decode_utf8(utf8_bytes(name1)) == name1);
    }
}

/// Oracle seeds tell providers, names of at most `MAX_SEED_LEN` bytes, and
/// bumps apart: they are equal exactly when all three are, so re-deriving from
/// the same provider, name and bump always gives the same address.
pub proof fn lemma_oracle_seeds_injective(
    provider1: Seq<u8>,
    name1: Seq<char>,
    bump1: u8,
    provider2: Seq<u8>,
    name2: Seq<char>,
    bump2: u8,
)
    requires
        utf8_bytes(name1).len() <= MAX_SEED_LEN,
        utf8_bytes(name2).len() <= MAX_SEED_LEN,
    ensures
        oracle_seeds(provider1, utf8_bytes(name1), bump1) == oracle_seeds(
            provider2,
            utf8_bytes(name2),
            bump2,
        ) <==> (provider1 == provider2 && name1 == name2 && bump1 == bump2),
        forall|program_id: Seq<u8>|
            provider1 == provider2 && name1 == name2 && bump1 == bump2 ==> oracle_address_of(
                provider1,
                utf8_bytes(name1),
                bump1,
                program_id,
            ) == oracle_address_of(provider2, utf8_bytes(name2), bump2, program_id),
{
    broadcast use vstd::utf8::encode_utf8_decode_utf8;

    let s1 = oracle_seeds(provider1, utf8_bytes(name1), bump1);
    let s2 = oracle_seeds(provider2, utf8_bytes(name2), bump2);
    if s1 == s2 {
        assert(s1[0] == s2[0]);
        assert(s1[1] == s2[1]);
        assert(s1[2] == s2[2]);
        assert(s1[2][0] == bump1);
        assert(decode_utf8(utf8_bytes(name1)) == name1);
    }
}

/// Names are cut to `MAX_SEED_LEN` bytes wherever they seed an address, so
/// two names that share their first `MAX_SEED_LEN` bytes derive the same
/// provider address and, under one provider, the same oracle address.
pub proof fn lemma_shared_prefix_same_address(
    name1: Seq<char>,
    name2: Seq<char>,
    bump: u8,
    provider: Seq<u8>,
    program_id: Seq<u8>,
)
    requires
        utf8_bytes(name1).len() >= MAX_SEED_LEN,
        utf8_bytes(name2).len() >= MAX_SEED_LEN,
        utf8_bytes(name1).subrange(0, MAX_SEED_LEN as int) == utf8_bytes(name2).subrange(
            0,
            MAX_SEED_LEN as int,
        ),
    ensures
        truncate_seed(utf8_bytes(name1)) == truncate_seed(utf8_bytes(name2)),
        provider_address_of(utf8_bytes(name1), bump, program_id) == provider_address_of(
            utf8_bytes(name2),
            bump,
            program_id,
        ),
        oracle_address_of(provider, utf8_bytes(name1), bump, program_id) == oracle_address_of(
            provider,
            utf8_bytes(name2),
            bump,
            program_id,
        ),
{
    assert(truncate_seed(utf8_bytes(name1)) =~= utf8_bytes(name1).subrange(0, MAX_SEED_LEN as int));
    assert(truncate_seed(utf8_bytes(name2)) =~= utf8_bytes(name2).subrange(0, MAX_SEED_LEN as int));
    assert(provider_seeds(utf8_bytes(name1), bump) =~= provider_seeds(utf8_bytes(name2), bump));
    assert(oracle_seeds(provider, utf8_bytes(name1), bump) =~= oracle_seeds(
        provider,
        utf8_bytes(name2),
        bump,
    ));
}

/// Derives the address of a provider record.
pub fn provider_address(name: &str, bump: u8, program_id: &Address) -> (r: Option<Address>)
    ensures
        opt_view(r) == provider_address_of(utf8_bytes(name@), bump, program_id@),
{
    let mut seeds: Vec<Vec<u8>> = Vec::new();
    seeds.push(name_seed(name));
    seeds.push(bump_seed(bump));
    proof {
        assert(seeds@[0].deep_view() =~= seeds@[0]@);
        assert(seeds@[1].deep_view() =~= seeds@[1]@);
        assert(seeds.deep_view() =~= provider_seeds(utf8_bytes(name@), bump));
    }
    create_program_address(&seeds, program_id)
}

/// Derives the address of an oracle record bound to `provider`.
pub fn oracle_address(provider: &Address, name: &str, bump: u8, program_id: &Address) -> (r:
    Option<Address>)
    ensures
        opt_view(r) == oracle_address_of(provider@, utf8_bytes(name@), bump, program_id@),
{
    let mut seeds: Vec<Vec<u8>> = Vec::new();
    seeds.push(provider.to_vec());
    seeds.push(name_seed(name));
    seeds.push(bump_seed(bump));
    proof {
        assert(seeds@[0].deep_view() =~= seeds@[0]@);
        assert(seeds@[1].deep_view() =~= seeds@[1]@);
        assert(seeds@[2].deep_view() =~= seeds@[2]@);
        assert(seeds.deep_view() =~= oracle_seeds(provider@, utf8_bytes(name@), bump));
    }
    create_program_address(&seeds, program_id)
}

} // verus!
