use vstd::prelude::*;
use crate::address::Address;

verus! {

/// The persisted trust anchor: the two derivation bumps, the owner authority,
/// and the token-type address.
#[derive(Clone, Copy, Debug)]
pub struct Vault {
    pub bump: u8,
    pub spl_token_mint_bump: u8,
    pub authority: Address,
    pub spl_token_mint: Address,
}

/// The fixed-width layout: `bump | spl_token_mint_bump | authority | spl_token_mint`.
pub open spec fn vault_bytes(v: Vault) -> Seq<u8> {
    seq![v.bump, v.spl_token_mint_bump] + v.authority@ + v.spl_token_mint@
}

impl Vault {
    /// Length of the persisted layout in bytes.
    pub const LEN: usize = 66;

    /// Writes the vault in its fixed-width layout.
    pub fn to_bytes(&self) -> (r: Vec<u8>)
        ensures
            r@ == vault_bytes(*self),
            r@.len() == Self::LEN,
    {
        let mut r: Vec<u8> = Vec::new();
        r.push(self.bump);
        r.push(self.spl_token_mint_bump);
        let mut i: usize = 0;
        while i < 32
            invariant
                0 <= i <= 32,
                r@ == seq![self.bump, self.spl_token_mint_bump] + self.authority@.subrange(0, i as int),
            decreases 32 - i,
        {
            r.push(self.authority.bytes[i]);
            assert(self.authority@.subrange(0, i + 1) =~= self.authority@.subrange(0, i as int).push(
                self.authority@[i as int],
            ));
            i = i + 1;
        }
        assert(self.authority@.subrange(0, 32) =~= self.authority@);
        let mut j: usize = 0;
        while j < 32
            invariant
                0 <= j <= 32,
                r@ == seq![self.bump, self.spl_token_mint_bump] + self.authority@ + self.spl_token_mint@.subrange(
                    0,
                    j as int,
                ),
            decreases 32 - j,
        {
            r.push(self.spl_token_mint.bytes[j]);
            assert(self.spl_token_mint@.subrange(0, j + 1) =~= self.spl_token_mint@.subrange(
                0,
                j as int,
            ).push(self.spl_token_mint@[j as int]));
            j = j + 1;
        }
        assert(self.spl_token_mint@.subrange(0, 32) =~= self.spl_token_mint@);
        r
    }

    /// Reads a vault from its fixed-width layout; `None` unless the data is
    /// exactly `LEN` bytes long.
    pub fn from_bytes(data: &[u8]) -> (r: Option<Vault>)
        ensures
            r is Some <==> data@.len() == Self::LEN,
            r matches Some(v) ==> vault_bytes(v) == data@,
    {
        if data.len() != Self::LEN {
            return None;
        }
        let authority = read_address(data, 2);
        let mint = read_address(data, 34);
        let v = Vault { bump: data[0], spl_token_mint_bump: data[1], authority, spl_token_mint: mint };
        assert(vault_bytes(v) =~= data@);
        Some(v)
    }
}

/// The 32 bytes of `data` from `start` on, as an address.
fn read_address(data: &[u8], start: usize) -> (r: Address)
    requires
        start + 32 <= data@.len(),
    ensures
        r@ == data@.subrange(start as int, start + 32),
{
    let n: usize = data.len();
    let mut bytes: [u8; 32] = [0u8; 32];
    let mut i: usize = 0;
    while i < 32
        invariant
            0 <= i <= 32,
            n == data@.len(),
            start + 32 <= data@.len(),
            bytes@.len() == 32,
            forall|j: int| 0 <= j < i ==> bytes@[j] == data@[start + j],
        decreases 32 - i,
    {
        bytes[i] = data[start + i];
        i = i + 1;
    }
    let r = Address { bytes };
    assert(r@ =~= data@.subrange(start as int, start + 32));
    r
}

/// Writing a vault and reading it back gives the same vault.
pub proof fn lemma_vault_round_trip(v: Vault, w: Vault)
    requires
        vault_bytes(w) == vault_bytes(v),
    ensures
        w == v,
{
    let b = vault_bytes(v);
    assert(w.bump == b[0]);
    assert(w.spl_token_mint_bump == b[1]);
    assert(w.authority@ =~= b.subrange(2, 34));
    assert(v.authority@ =~= b.subrange(2, 34));
    assert(w.spl_token_mint@ =~= b.subrange(34, 66));
    assert(v.spl_token_mint@ =~= b.subrange(34, 66));
    assert(w.authority.bytes == v.authority.bytes);
    assert(w.spl_token_mint.bytes == v.spl_token_mint.bytes);
}

} // verus!
