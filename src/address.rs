use vstd::prelude::*;

verus! {

/// A 32-byte ledger address.
#[derive(Clone, Copy, Debug)]
pub struct Address {
    pub bytes: [u8; 32],
}

impl View for Address {
    type V = Seq<u8>;

    open spec fn view(&self) -> Seq<u8> {
        self.bytes@
    }
}

impl Address {
    pub fn new(bytes: [u8; 32]) -> (r: Address)
        ensures
            r@ == bytes@,
    {
        Address { bytes }
    }

    /// The address's bytes as a vector.
    pub fn to_vec(&self) -> (r: Vec<u8>)
        ensures
            r@ == self@,
    {
        let mut r: Vec<u8> = Vec::new();
        let mut i: usize = 0;
        while i < 32
            invariant
                0 <= i <= 32,
                r@ == self@.subrange(0, i as int),
            decreases 32 - i,
        {
            r.push(self.bytes[i]);
            assert(self@.subrange(0, i + 1) =~= self@.subrange(0, i as int).push(self@[i as int]));
            i = i + 1;
        }
        assert(self@.subrange(0, 32) =~= self@);
        r
    }

    /// Byte-wise equality of two addresses.
    pub fn same_as(&self, other: &Address) -> (r: bool)
        ensures
            r == (self@ == other@),
    {
        let mut i: usize = 0;
        while i < 32
            invariant
                0 <= i <= 32,
                forall|j: int| 0 <= j < i ==> self.bytes@[j] == other.bytes@[j],
            decreases 32 - i,
        {
            if self.bytes[i] != other.bytes[i] {
                return false;
            }
            i = i + 1;
        }
        assert(self@ =~= other@);
        true
    }
}

/// The most seeds a program address may be derived from, bump included.
pub const MAX_SEEDS: usize = 16;

/// The longest a single seed may be.
pub const MAX_SEED_LEN: usize = 32;

/// The seeds as byte sequences.
pub open spec fn seeds_view(seeds: Seq<Vec<u8>>) -> Seq<Seq<u8>> {
    seeds.map_values(|s: Vec<u8>| s@)
}

/// Seeds that the address hash accepts: at most sixteen, none longer than
/// thirty-two bytes.
pub open spec fn seeds_ok(seeds: Seq<Seq<u8>>) -> bool {
    seeds.len() <= MAX_SEEDS && forall|i: int| 0 <= i < seeds.len() ==> #[trigger] seeds[i].len() <= MAX_SEED_LEN
}

proof fn lemma_with_bump_ok(seeds: Seq<Seq<u8>>, bump: u8)
    requires
        seeds_fit(seeds),
    ensures
        seeds_ok(with_bump(seeds, bump)),
{
    let full = with_bump(seeds, bump);
    assert forall|i: int| 0 <= i < full.len() implies #[trigger] full[i].len() <= MAX_SEED_LEN by {
        if i < seeds.len() {
            assert(full[i] == seeds[i]);
        }
    }
}

/// Seeds that a derivation accepts once a one-byte bump is appended.
pub open spec fn seeds_fit(seeds: Seq<Seq<u8>>) -> bool {
    seeds.len() < MAX_SEEDS && forall|i: int| 0 <= i < seeds.len() ==> seeds[i].len() <= MAX_SEED_LEN
}

/// The address that hashing `seeds` under `program_id` gives, when it lies off
/// the signature curve; `None` when it lies on it.
pub uninterp spec fn program_address(seeds: Seq<Seq<u8>>, program_id: Seq<u8>) -> Option<Seq<u8>>;

/// `seeds` followed by the one-byte seed `bump`.
pub open spec fn with_bump(seeds: Seq<Seq<u8>>, bump: u8) -> Seq<Seq<u8>> {
    seeds.push(seq![bump])
}

/// The first bump, counting down from `b`, whose address is off the curve,
/// with that address.
pub open spec fn search_from(seeds: Seq<Seq<u8>>, program_id: Seq<u8>, b: int) -> Option<(Seq<u8>, u8)>
    decreases b + 1,
{
    if b < 0 || b > 255 {
        None
    } else {
        match program_address(with_bump(seeds, b as u8), program_id) {
            Some(a) => Some((a, b as u8)),
            None => search_from(seeds, program_id, b - 1),
        }
    }
}

/// The derived (address, bump) pair: the highest bump that yields an off-curve
/// address.
pub open spec fn derived(seeds: Seq<Seq<u8>>, program_id: Seq<u8>) -> Option<(Seq<u8>, u8)> {
    search_from(seeds, program_id, 255)
}

/// Relies on solana_program's `Pubkey::create_program_address`, re-exported
/// by anchor_lang: with at most
/// sixteen seeds of at most thirty-two bytes each it returns the hash of the
/// seeds and program id when that hash is off the curve, and `InvalidSeeds`
/// otherwise; the outcome depends on the arguments alone.
#[verifier::external_body]
fn create_program_address(seeds: &Vec<Vec<u8>>, program_id: &Address) -> (r: Option<Address>)
    requires
        seeds_ok(seeds_view(seeds@)),
    ensures
        r matches Some(a) ==> program_address(seeds_view(seeds@), program_id@) == Some(a@),
        r is None ==> program_address(seeds_view(seeds@), program_id@) is None,
{
    let slices: Vec<&[u8]> = seeds.iter().map(|s| s.as_slice()).collect();
    let pid = anchor_lang::prelude::Pubkey::new_from_array(program_id.bytes);
    match anchor_lang::prelude::Pubkey::create_program_address(&slices, &pid) {
        Ok(p) => Some(Address { bytes: p.to_bytes() }),
        Err(_) => None,
    }
}

/// A fresh copy of `seeds` with the one-byte seed `bump` appended.
fn seeds_with_bump(seeds: &Vec<Vec<u8>>, bump: u8) -> (r: Vec<Vec<u8>>)
    ensures
        seeds_view(r@) == with_bump(seeds_view(seeds@), bump),
        r@.len() == seeds@.len() + 1,
        forall|i: int| 0 <= i < seeds@.len() ==> #[trigger] r@[i]@ == seeds@[i]@,
        r@[seeds@.len() as int]@.len() == 1,
{
    let mut r: Vec<Vec<u8>> = Vec::new();
    let mut i: usize = 0;
    while i < seeds.len()
        invariant
            0 <= i <= seeds@.len(),
            r@.len() == i,
            forall|j: int| 0 <= j < i ==> #[trigger] r@[j]@ == seeds@[j]@,
        decreases seeds@.len() - i,
    {
        let c = seeds[i].clone();
        assert(c@ =~= seeds@[i as int]@);
        r.push(c);
        i = i + 1;
    }
    let last: Vec<u8> = vec![bump];
    assert(last@ =~= seq![bump]);
    r.push(last);
    assert(r@[seeds@.len() as int]@ == seq![bump]);
    assert(seeds_view(r@) =~= with_bump(seeds_view(seeds@), bump));
    r
}

/// Checks a (seeds, bump) pair against an expected address.
pub fn verify_derivation(seeds: &Vec<Vec<u8>>, bump: u8, program_id: &Address, expected: &Address) -> (r: bool)
    requires
        seeds_fit(seeds_view(seeds@)),
    ensures
        r == (program_address(with_bump(seeds_view(seeds@), bump), program_id@) == Some(expected@)),
{
    let full = seeds_with_bump(seeds, bump);
    proof {
        lemma_with_bump_ok(seeds_view(seeds@), bump);
    }
    match create_program_address(&full, program_id) {
        Some(a) => a.same_as(expected),
        None => false,
    }
}

/// Searches bumps from 255 down to 0 for the first whose address is off the
/// curve, and returns that address with its bump.
pub fn derive_address(seeds: &Vec<Vec<u8>>, program_id: &Address) -> (r: Option<(Address, u8)>)
    requires
        seeds_fit(seeds_view(seeds@)),
    ensures
        r matches Some((a, b)) ==> derived(seeds_view(seeds@), program_id@) == Some((a@, b)),
        r is None ==> derived(seeds_view(seeds@), program_id@) is None,
{
    let ghost sv = seeds_view(seeds@);
    let mut b: u16 = 256;
    while b > 0
        invariant
            b <= 256,
            sv == seeds_view(seeds@),
            seeds_fit(sv),
            derived(sv, program_id@) == search_from(sv, program_id@, b as int - 1),
        decreases b,
    {
        let bump = (b - 1) as u8;
        let full = seeds_with_bump(seeds, bump);
        proof {
            lemma_with_bump_ok(sv, bump);
        }
        match create_program_address(&full, program_id) {
            Some(a) => {
                return Some((a, bump));
            },
            None => {},
        }
        b = b - 1;
    }
    None
}

/// Derivation is a function of its inputs: any two results of `derive_address` on the
/// same seeds and program id are the same (address, bump) pair, and that pair
/// is the highest bump whose address lies off the curve.
pub proof fn lemma_derive_deterministic(
    seeds: Seq<Seq<u8>>,
    program_id: Seq<u8>,
    first: Option<(Seq<u8>, u8)>,
    second: Option<(Seq<u8>, u8)>,
)
    requires
        first == derived(seeds, program_id),
        second == derived(seeds, program_id),
    ensures
        first == second,
        first matches Some((a, b)) ==> program_address(with_bump(seeds, b), program_id) == Some(a)
            && forall|c: int| b < c <= 255 ==> #[trigger] program_address(with_bump(seeds, c as u8), program_id) is None,
{
    if first is Some {
        lemma_search_found(seeds, program_id, 255);
    }
}

proof fn lemma_search_found(seeds: Seq<Seq<u8>>, program_id: Seq<u8>, from: int)
    requires
        0 <= from <= 255,
        search_from(seeds, program_id, from) is Some,
    ensures
        search_from(seeds, program_id, from) matches Some((a, b)) ==> b <= from
            && program_address(with_bump(seeds, b), program_id) == Some(a)
            && forall|c: int| b < c <= from ==> #[trigger] program_address(with_bump(seeds, c as u8), program_id) is None,
    decreases from,
{
    if program_address(with_bump(seeds, from as u8), program_id) is None {
        assert(search_from(seeds, program_id, from) == search_from(seeds, program_id, from - 1));
        assert(from > 0);
        lemma_search_found(seeds, program_id, from - 1);
    }
}

} // verus!
