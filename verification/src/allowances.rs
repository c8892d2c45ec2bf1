use vstd::prelude::*;
use crate::account::AccountId;

verus! {

/// The allowance map is keyed by the (owner, spender) pair, packed into
/// one 128-bit key: the owner in the high 64 bits, the spender in the
/// low 64 bits. The packing is injective, so distinct pairs never share
/// an entry.
pub open spec fn spec_pair_key(owner: AccountId, spender: AccountId) -> u128 {
    ((owner as int) * 0x1_0000_0000_0000_0000 + (spender as int)) as u128
}

/// Allowance stored under `key`; an absent key reads as zero.
pub open spec fn allow_get(m: Map<u128, u128>, key: u128) -> u128 {
    if m.contains_key(key) {
        m[key]
    } else {
        0
    }
}

/// Distinct (owner, spender) pairs pack to distinct keys.
pub proof fn lemma_pair_key_injective(o1: AccountId, s1: AccountId, o2: AccountId, s2: AccountId)
    ensures
        (spec_pair_key(o1, s1) == spec_pair_key(o2, s2)) <==> (o1 == o2 && s1 == s2),
{
    let v1 = (o1 as int) * 0x1_0000_0000_0000_0000 + (s1 as int);
    let v2 = (o2 as int) * 0x1_0000_0000_0000_0000 + (s2 as int);
    assert(0 <= v1 <= u128::MAX);
    assert(0 <= v2 <= u128::MAX);
    if v1 == v2 {
        assert(o1 == o2 && s1 == s2) by {
            assert((o1 as int - o2 as int) * 0x1_0000_0000_0000_0000 == s2 as int - s1 as int)
                by (nonlinear_arith)
                requires
                    v1 == v2,
                    v1 == (o1 as int) * 0x1_0000_0000_0000_0000 + (s1 as int),
                    v2 == (o2 as int) * 0x1_0000_0000_0000_0000 + (s2 as int),
            ;
            if o1 != o2 {
                assert((o1 as int - o2 as int) * 0x1_0000_0000_0000_0000 >= 0x1_0000_0000_0000_0000
                    || (o1 as int - o2 as int) * 0x1_0000_0000_0000_0000
                    <= -0x1_0000_0000_0000_0000) by (nonlinear_arith)
                    requires
                        o1 as int - o2 as int != 0,
                ;
            }
        }
    }
}

/// Packs an (owner, spender) pair into its allowance-map key.
pub fn pair_key(owner: AccountId, spender: AccountId) -> (key: u128)
    ensures
        key == spec_pair_key(owner, spender),
{
    (owner as u128) * 0x1_0000_0000_0000_0000 + (spender as u128)
}

} // verus!
