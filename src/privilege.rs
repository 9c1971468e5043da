use vstd::prelude::*;
use crate::meta::{AccountMeta, MetaView, metas_view, same_address};

verus! {

/// Some entry of `metas` for `key` asks for a signature.
pub open spec fn grants_signer(metas: Seq<MetaView>, key: Seq<u8>) -> bool {
    exists|i: int| 0 <= i < metas.len() && metas[i].key == key && metas[i].is_signer
}

/// Some entry of `metas` for `key` asks for write access.
pub open spec fn grants_writable(metas: Seq<MetaView>, key: Seq<u8>) -> bool {
    exists|i: int| 0 <= i < metas.len() && metas[i].key == key && metas[i].is_writable
}

/// `m` with each flag kept only where `metas` grants it for the same address.
pub open spec fn clamp_spec(m: MetaView, metas: Seq<MetaView>) -> MetaView {
    MetaView {
        key: m.key,
        is_signer: m.is_signer && grants_signer(metas, m.key),
        is_writable: m.is_writable && grants_writable(metas, m.key),
    }
}

/// Clamps the flags of `account_meta` to what `account_metas` already grants
/// for its address: a flag stays set only where some entry for the same
/// address sets it too.
pub fn de_escalate_account_meta(account_meta: &mut AccountMeta, account_metas: &[AccountMeta])
    ensures
        final(account_meta).pubkey == old(account_meta).pubkey,
        final(account_meta)@ == clamp_spec(old(account_meta)@, metas_view(account_metas@)),
        final(account_meta).is_signer == (old(account_meta).is_signer && grants_signer(
            metas_view(account_metas@),
            old(account_meta).pubkey@,
        )),
        final(account_meta).is_writable == (old(account_meta).is_writable && grants_writable(
            metas_view(account_metas@),
            old(account_meta).pubkey@,
        )),
{
    let mut signer = false;
    let mut writable = false;
    let mut i: usize = 0;
    let ghost mv = metas_view(account_metas@);
    while i < account_metas.len()
        invariant
            0 <= i <= account_metas@.len(),
            mv == metas_view(account_metas@),
            mv.len() == account_metas@.len(),
            signer == exists|j: int|
                0 <= j < i && mv[j].key == account_meta.pubkey@ && mv[j].is_signer,
            writable == exists|j: int|
                0 <= j < i && mv[j].key == account_meta.pubkey@ && mv[j].is_writable,
        decreases account_metas@.len() - i,
    {
        let other = &account_metas[i];
        assert(mv[i as int] == other@);
        if same_address(&other.pubkey, &account_meta.pubkey) {
            signer = signer || other.is_signer;
            writable = writable || other.is_writable;
        }
        i = i + 1;
    }
    if !signer {
        account_meta.is_signer = false;
    }
    if !writable {
        account_meta.is_writable = false;
    }
}

} // verus!
