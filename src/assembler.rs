use vstd::prelude::*;
use spl_transfer_hook_interface::solana_pubkey::Pubkey as HookPubkey;
use crate::descriptor::{DescriptorRecord, record_at, record_count, unpack_descriptor_list, well_formed_list};
use crate::errors::TransferExtensionsError;
use crate::meta::{AccountMeta, AccountRef, Address, MetaView, address_bytes, copy_metas, copy_refs, keys_of_refs, find_account, first_index_of, keys_of_views, metas_view};
use crate::privilege::{clamp_spec, de_escalate_account_meta, grants_signer, grants_writable};
use crate::resolver::{find_program_address, bytes_view, program_address, resolve_descriptor, resolve_spec};
use crate::descriptor::execute_tag;

verus! {

/// A nested call: the program to run, its accounts and its payload.
#[derive(Clone, Debug)]
pub struct Instruction {
    pub program_id: Address,
    pub accounts: Vec<AccountMeta>,
    pub data: Vec<u8>,
}

/// The supplied account that serves an address: the first one with it.
pub open spec fn handle_for(pool: Seq<AccountRef>, key: Seq<u8>) -> AccountRef {
    pool[first_index_of(pool, key)->Some_0]
}

/// The supplied accounts that serve a list of metas, in order.
pub open spec fn handles_for(pool: Seq<AccountRef>, metas: Seq<MetaView>) -> Seq<AccountRef> {
    metas.map_values(|m: MetaView| handle_for(pool, m.key))
}

/// Resolves descriptors `k..` one after the other onto the metas built so far:
/// each is resolved against the addresses of `metas`, clamped to the flags
/// that `metas` grants, and must be served by a supplied account. The result
/// is the final list of metas, or the first error.
pub open spec fn extend_spec(
    recs: Seq<DescriptorRecord>,
    k: int,
    payload: Seq<u8>,
    hook: Seq<u8>,
    metas: Seq<MetaView>,
    total: int,
    pool: Seq<AccountRef>,
) -> Result<Seq<MetaView>, TransferExtensionsError>
    decreases recs.len() - k,
{
    if k < 0 || k >= recs.len() {
        Ok(metas)
    } else {
        match resolve_spec(recs[k], payload, hook, keys_of_views(metas), total) {
            Err(e) => Err(e),
            Ok(m) => {
                let c = clamp_spec(m, metas);
                if first_index_of(pool, c.key) is Some {
                    extend_spec(recs, k + 1, payload, hook, metas.push(c), total, pool)
                } else {
                    Err(TransferExtensionsError::MissingAccount)
                }
            },
        }
    }
}

/// Resolution never escalates authority: in a successful resolution, every
/// appended account is a signer (or writable) only where some account before
/// it in the call, for the same address, is a signer (or writable) already.
pub proof fn lemma_resolution_never_escalates(
    recs: Seq<DescriptorRecord>,
    k: int,
    payload: Seq<u8>,
    hook: Seq<u8>,
    metas: Seq<MetaView>,
    total: int,
    pool: Seq<AccountRef>,
)
    requires
        0 <= k <= recs.len(),
        extend_spec(recs, k, payload, hook, metas, total, pool) is Ok,
    ensures
        ({
            let ms = extend_spec(recs, k, payload, hook, metas, total, pool)->Ok_0;
            &&& ms.len() >= metas.len()
            &&& ms.subrange(0, metas.len() as int) == metas
            &&& forall|j: int| metas.len() <= j < ms.len() ==> (#[trigger] ms[j].is_signer ==> grants_signer(ms.subrange(0, j), ms[j].key))
            &&& forall|j: int| metas.len() <= j < ms.len() ==> (#[trigger] ms[j].is_writable ==> grants_writable(ms.subrange(0, j), ms[j].key))
        }),
    decreases recs.len() - k,
{
    if k < recs.len() {
        let m = resolve_spec(recs[k], payload, hook, keys_of_views(metas), total)->Ok_0;
        let c = clamp_spec(m, metas);
        let next = metas.push(c);
        assert(extend_spec(recs, k, payload, hook, metas, total, pool) == extend_spec(recs, k + 1, payload, hook, next, total, pool));
        lemma_resolution_never_escalates(recs, k + 1, payload, hook, next, total, pool);
        let ms = extend_spec(recs, k, payload, hook, metas, total, pool)->Ok_0;
        assert(ms.subrange(0, metas.len() as int) =~= metas) by {
            assert forall|i: int| 0 <= i < metas.len() implies ms[i] == metas[i] by {
                assert(ms.subrange(0, next.len() as int)[i] == next[i]);
            }
        }
        assert(ms[metas.len() as int] == c) by {
            assert(ms.subrange(0, next.len() as int)[metas.len() as int] == next[metas.len() as int]);
        }
        assert(ms.subrange(0, next.len() as int) =~= next);
    } else {
        assert(metas.subrange(0, metas.len() as int) =~= metas);
    }
}

/// The metas that descriptor `k + j` contributes to a successful resolution:
/// the descriptor resolved against the addresses before it, clamped to the
/// flags granted before it.
pub open spec fn step_meta(
    recs: Seq<DescriptorRecord>,
    k: int,
    j: int,
    payload: Seq<u8>,
    hook: Seq<u8>,
    ms: Seq<MetaView>,
    base: int,
    total: int,
) -> MetaView {
    let before = ms.subrange(0, base + j);
    clamp_spec(resolve_spec(recs[k + j], payload, hook, keys_of_views(before), total)->Ok_0, before)
}

/// A successful resolution appends one meta per descriptor, each what
/// `step_meta` gives.
proof fn lemma_extension_steps(
    recs: Seq<DescriptorRecord>,
    k: int,
    payload: Seq<u8>,
    hook: Seq<u8>,
    metas: Seq<MetaView>,
    total: int,
    pool: Seq<AccountRef>,
)
    requires
        0 <= k <= recs.len(),
        extend_spec(recs, k, payload, hook, metas, total, pool) is Ok,
    ensures
        ({
            let ms = extend_spec(recs, k, payload, hook, metas, total, pool)->Ok_0;
            &&& ms.len() == metas.len() + recs.len() - k
            &&& ms.subrange(0, metas.len() as int) == metas
            &&& forall|j: int| 0 <= j < recs.len() - k ==> #[trigger] ms[metas.len() + j] == step_meta(recs, k, j, payload, hook, ms, metas.len() as int, total)
                && first_index_of(pool, ms[metas.len() + j].key) is Some
        }),
    decreases recs.len() - k,
{
    let ms = extend_spec(recs, k, payload, hook, metas, total, pool)->Ok_0;
    if k < recs.len() {
        assert(resolve_spec(recs[k], payload, hook, keys_of_views(metas), total) is Ok);
        let m = resolve_spec(recs[k], payload, hook, keys_of_views(metas), total)->Ok_0;
        let c = clamp_spec(m, metas);
        let next = metas.push(c);
        assert(extend_spec(recs, k, payload, hook, metas, total, pool) == extend_spec(recs, k + 1, payload, hook, next, total, pool));
        lemma_extension_steps(recs, k + 1, payload, hook, next, total, pool);
        assert forall|i: int| 0 <= i < next.len() implies ms[i] == next[i] by {
            assert(ms.subrange(0, next.len() as int)[i] == next[i]);
        }
        assert(ms.subrange(0, metas.len() as int) =~= metas);
        assert forall|j: int| 0 <= j < recs.len() - k implies #[trigger] ms[metas.len() + j] == step_meta(recs, k, j, payload, hook, ms, metas.len() as int, total)
            && first_index_of(pool, ms[metas.len() + j].key) is Some by {
            if j == 0 {
                assert(ms.subrange(0, metas.len() + j) =~= metas);
                assert(ms[metas.len() as int] == next[metas.len() as int]);
                assert(step_meta(recs, k, j, payload, hook, ms, metas.len() as int, total) == c);
            } else {
                let j1 = j - 1;
                assert(metas.len() + j == next.len() + j1);
                assert(k + j == (k + 1) + j1);
                assert(0 <= j1 < recs.len() - (k + 1));
                assert(ms[next.len() + j1] == step_meta(recs, k + 1, j1, payload, hook, ms, next.len() as int, total));
                assert(step_meta(recs, k + 1, j1, payload, hook, ms, next.len() as int, total) == step_meta(recs, k, j, payload, hook, ms, metas.len() as int, total));
            }
        }
    } else {
        assert(metas.subrange(0, metas.len() as int) =~= metas);
    }
}

/// Literal descriptors are kept verbatim: in a successful resolution of a
/// stored list, a literal descriptor whose flags the accounts before it
/// already grant appears with its embedded address and flags.
pub proof fn lemma_literal_descriptors_verbatim(
    data: Seq<u8>,
    recs: Seq<DescriptorRecord>,
    payload: Seq<u8>,
    hook: Seq<u8>,
    metas: Seq<MetaView>,
    pool: Seq<AccountRef>,
    j: int,
)
    requires
        stored_records(data, recs),
        append_spec(data, payload, hook, metas, pool) is Ok,
        0 <= j < recs.len(),
        recs[j].discriminator == 0,
    ensures
        ({
            let ms = append_spec(data, payload, hook, metas, pool)->Ok_0;
            let before = ms.subrange(0, metas.len() + j);
            &&& ms.len() == metas.len() + recs.len()
            &&& first_index_of(pool, ms[metas.len() + j].key) is Some
            &&& (recs[j].is_signer ==> grants_signer(before, recs[j].address_config@))
                && (recs[j].is_writable ==> grants_writable(before, recs[j].address_config@))
                ==> ms[metas.len() + j] == MetaView {
                    key: recs[j].address_config@,
                    is_signer: recs[j].is_signer,
                    is_writable: recs[j].is_writable,
                }
        }),
{
    reveal(append_spec);
    let c = choose|r: Seq<DescriptorRecord>| stored_records(data, r);
    lemma_records_unique(data, c, recs);
    let total = (metas.len() + recs.len()) as int;
    lemma_extension_steps(recs, 0, payload, hook, metas, total, pool);
    let ms = append_spec(data, payload, hook, metas, pool)->Ok_0;
    assert(ms[metas.len() + j] == step_meta(recs, 0, j, payload, hook, ms, metas.len() as int, total));
}

/// The descriptors stored in a well-formed meta-list buffer.
pub open spec fn stored_records(data: Seq<u8>, recs: Seq<DescriptorRecord>) -> bool {
    &&& well_formed_list(data)
    &&& recs.len() == record_count(data)
    &&& forall|i: int| 0 <= i < recs.len() ==> record_at(#[trigger] recs[i], data, 16 + 35 * i)
}

/// The metas that a meta-list buffer appends to `metas`: `MalformedDescriptor`
/// where the buffer is not well formed, else what `extend_spec` gives for its
/// stored records.
#[verifier::opaque]
pub open spec fn append_spec(
    data: Seq<u8>,
    payload: Seq<u8>,
    hook: Seq<u8>,
    metas: Seq<MetaView>,
    pool: Seq<AccountRef>,
) -> Result<Seq<MetaView>, TransferExtensionsError> {
    if !well_formed_list(data) {
        Err(TransferExtensionsError::MalformedDescriptor)
    } else {
        let recs = choose|recs: Seq<DescriptorRecord>| stored_records(data, recs);
        extend_spec(recs, 0, payload, hook, metas, (metas.len() + recs.len()) as int, pool)
    }
}

/// A buffer stores one list of records only.
proof fn lemma_records_unique(data: Seq<u8>, a: Seq<DescriptorRecord>, b: Seq<DescriptorRecord>)
    requires
        stored_records(data, a),
        stored_records(data, b),
    ensures
        a == b,
{
    broadcast use vstd::array::group_array_axioms;
    assert forall|i: int| 0 <= i < a.len() implies a[i] == b[i] by {
        assert(record_at(a[i], data, 16 + 35 * i));
        assert(record_at(b[i], data, 16 + 35 * i));
        assert(a[i].address_config@ == b[i].address_config@);
        assert(a[i].address_config =~= b[i].address_config);
    }
    assert(a =~= b);
}

/// No position is named where no account has the address.
proof fn lemma_no_index(pool: Seq<AccountRef>, key: Seq<u8>)
    requires
        forall|j: int| 0 <= j < pool.len() ==> pool[j].key@ != key,
    ensures
        first_index_of(pool, key) is None,
{
    reveal(first_index_of);
}

/// `find_account`'s index is the position that `first_index_of` names.
proof fn lemma_first_index(pool: Seq<AccountRef>, key: Seq<u8>, i: int)
    requires
        0 <= i < pool.len(),
        pool[i].key@ == key,
        forall|j: int| 0 <= j < i ==> pool[j].key@ != key,
    ensures
        first_index_of(pool, key) == Some(i),
{
    reveal(first_index_of);
    let j = choose|j: int|
        0 <= j < pool.len() && pool[j].key@ == key && forall|l: int| 0 <= l < j ==> pool[l].key@ != key;
    assert(0 <= j < pool.len() && pool[j].key@ == key && forall|l: int| 0 <= l < j ==> pool[l].key@ != key);
    if j < i {
    } else if j > i {
        assert(pool[i].key@ != key);
    }
}

/// Appends to a nested call the accounts that the stored descriptor list asks
/// for, resolved in order, each clamped to the authority that the call
/// already grants, together with the supplied account that serves each one.
#[verifier::rlimit(60)]
pub fn add_to_cpi_instruction(
    cpi_instruction: &mut Instruction,
    cpi_account_infos: &mut Vec<AccountRef>,
    data: &[u8],
    account_infos: &[AccountRef],
) -> (r: Result<(), TransferExtensionsError>)
    requires
        old(cpi_instruction).accounts@.len() + data@.len() <= usize::MAX,
        keys_of_refs(old(cpi_account_infos)@) == keys_of_views(metas_view(old(cpi_instruction).accounts@)),
    ensures
        final(cpi_instruction).program_id == old(cpi_instruction).program_id,
        final(cpi_instruction).accounts@.len() >= old(cpi_instruction).accounts@.len(),
        final(cpi_instruction).data == old(cpi_instruction).data,
        keys_of_refs(final(cpi_account_infos)@) == keys_of_views(metas_view(final(cpi_instruction).accounts@)),
        match r {
            Ok(_) => append_spec(
                data@,
                old(cpi_instruction).data@,
                old(cpi_instruction).program_id@,
                metas_view(old(cpi_instruction).accounts@),
                account_infos@,
            ) matches Ok(ms) && metas_view(final(cpi_instruction).accounts@) == ms
                && final(cpi_account_infos)@ == old(cpi_account_infos)@ + handles_for(
                    account_infos@,
                    ms.subrange(old(cpi_instruction).accounts@.len() as int, ms.len() as int),
                ),
            Err(e) => append_spec(
                data@,
                old(cpi_instruction).data@,
                old(cpi_instruction).program_id@,
                metas_view(old(cpi_instruction).accounts@),
                account_infos@,
            ) == Err::<Seq<MetaView>, TransferExtensionsError>(e)
                && final(cpi_instruction).accounts@ == old(cpi_instruction).accounts@
                && final(cpi_account_infos)@ == old(cpi_account_infos)@,
        },
{
    reveal(append_spec);
    let recs = unpack_descriptor_list(data)?;
    let ghost rv = recs@;
    assert(stored_records(data@, rv));
    proof {
        let c = choose|recs: Seq<DescriptorRecord>| stored_records(data@, recs);
        lemma_records_unique(data@, c, rv);
    }
    let ghost payload = cpi_instruction.data@;
    let ghost hook = cpi_instruction.program_id@;
    let ghost m0 = metas_view(cpi_instruction.accounts@);
    let ghost h0 = cpi_account_infos@;
    let mut metas = copy_metas(&cpi_instruction.accounts);
    let mut infos = copy_refs(cpi_account_infos);
    let n0 = metas.len();
    assert(recs@.len() <= data@.len()) by (nonlinear_arith)
        requires
            recs@.len() * 35 <= data@.len(),
    {
    }
    let total = n0 + recs.len();
    let mut k: usize = 0;
    assert(append_spec(data@, payload, hook, m0, account_infos@) == extend_spec(rv, 0, payload, hook, m0, total as int, account_infos@));
    while k < recs.len()
        invariant
            0 <= k <= recs@.len(),
            rv == recs@,
            stored_records(data@, rv),
            total == n0 + rv.len(),
            n0 == m0.len(),
            cpi_instruction.data@ == payload,
            cpi_instruction.program_id@ == hook,
            payload == old(cpi_instruction).data@,
            hook == old(cpi_instruction).program_id@,
            cpi_instruction.program_id == old(cpi_instruction).program_id,
            cpi_instruction.data == old(cpi_instruction).data,
            m0 == metas_view(old(cpi_instruction).accounts@),
            h0 == old(cpi_account_infos)@,
            *cpi_instruction == *old(cpi_instruction),
            *cpi_account_infos == *old(cpi_account_infos),
            keys_of_refs(infos@) == keys_of_views(metas_view(metas@)),
            keys_of_refs(old(cpi_account_infos)@) == keys_of_views(metas_view(old(cpi_instruction).accounts@)),
            metas@.len() == n0 + k,
            metas_view(metas@).subrange(0, n0 as int) == m0,
            infos@ == h0 + handles_for(
                account_infos@,
                metas_view(metas@).subrange(n0 as int, (n0 + k) as int),
            ),
            append_spec(data@, payload, hook, m0, account_infos@) == extend_spec(rv, 0, payload, hook, m0, total as int, account_infos@),
            extend_spec(rv, 0, payload, hook, m0, total as int, account_infos@) == extend_spec(
                rv,
                k as int,
                payload,
                hook,
                metas_view(metas@),
                total as int,
                account_infos@,
            ),
        decreases recs@.len() - k,
    {
        let ghost mv = metas_view(metas@);
        let mut meta = match resolve_descriptor(
            &recs[k],
            cpi_instruction.data.as_slice(),
            &cpi_instruction.program_id,
            metas.as_slice(),
            total,
        ) {
            Ok(m) => m,
            Err(e) => {
                return Err(e);
            },
        };
        let ghost resolved = meta@;
        de_escalate_account_meta(&mut meta, metas.as_slice());
        assert(meta@ == clamp_spec(resolved, mv));
        let found = find_account(account_infos, &meta.pubkey);
        match found {
            Some(i) => {
                proof { lemma_first_index(account_infos@, meta.pubkey@, i as int); }
                let ghost hv = infos@;
                let ghost mb = metas@;
                metas.push(meta);
                infos.push(account_infos[i]);
                assert(keys_of_refs(infos@) =~= keys_of_refs(hv).push(meta.pubkey@));
                assert(keys_of_views(metas_view(metas@)) =~= keys_of_views(metas_view(mb)).push(meta.pubkey@));
                assert(metas_view(metas@) =~= mv.push(meta@));
                assert(metas_view(metas@).subrange(0, n0 as int) =~= m0);
                assert(metas_view(metas@).subrange(n0 as int, (n0 + k + 1) as int)
                    =~= mv.subrange(n0 as int, (n0 + k) as int).push(meta@));
                assert(infos@ =~= h0 + handles_for(
                    account_infos@,
                    metas_view(metas@).subrange(n0 as int, (n0 + k + 1) as int),
                ));
            },
            None => {
                proof { lemma_no_index(account_infos@, meta.pubkey@); }
                return Err(TransferExtensionsError::MissingAccount);
            },
        }
        k = k + 1;
    }
    let ghost fv = metas_view(metas@);
    assert(fv.subrange(n0 as int, fv.len() as int) =~= fv.subrange(n0 as int, (n0 + k) as int));
    cpi_instruction.accounts = metas;
    *cpi_account_infos = infos;
    Ok(())
}

/// The bytes of the seed tag of the meta-list account, "extra-account-metas".
#[verifier::opaque]
pub open spec fn meta_list_seed() -> Seq<u8> {
    seq![101u8, 120u8, 116u8, 114u8, 97u8, 45u8, 97u8, 99u8, 99u8, 111u8, 117u8, 110u8, 116u8, 45u8, 109u8, 101u8, 116u8, 97u8, 115u8]
}

fn meta_list_seed_bytes() -> (r: Vec<u8>)
    ensures
        r@ == meta_list_seed(),
{
    let r: Vec<u8> = vec![101u8, 120u8, 116u8, 114u8, 97u8, 45u8, 97u8, 99u8, 99u8, 111u8, 117u8, 110u8, 116u8, 45u8, 109u8, 101u8, 116u8, 97u8, 115u8];
    reveal(meta_list_seed);
    assert(r@ =~= meta_list_seed());
    r
}

/// The eight little-endian bytes of `v`.
pub open spec fn u64_le(v: u64) -> Seq<u8> {
    seq![
        (v % 0x100) as u8,
        ((v / 0x100) % 0x100) as u8,
        ((v / 0x1_0000) % 0x100) as u8,
        ((v / 0x100_0000) % 0x100) as u8,
        ((v / 0x1_0000_0000) % 0x100) as u8,
        ((v / 0x100_0000_0000) % 0x100) as u8,
        ((v / 0x1_0000_0000_0000) % 0x100) as u8,
        ((v / 0x100_0000_0000_0000) % 0x100) as u8,
    ]
}

/// The payload of the hook's execute call for `amount`.
pub open spec fn execute_payload(amount: u64) -> Seq<u8> {
    execute_tag() + u64_le(amount)
}

/// A read-only, unsigned reference to `key`.
pub open spec fn readonly_view(key: Seq<u8>) -> MetaView {
    MetaView { key, is_signer: false, is_writable: false }
}

/// Relies on `spl_transfer_hook_interface::instruction::execute`: a call of
/// `program` on source, mint, destination and authority, all read-only and
/// unsigned, whose payload is the execute tag and the amount in little-endian
/// order.
#[verifier::external_body]
fn execute_instruction(
    program: &Address,
    source: &Address,
    mint: &Address,
    destination: &Address,
    authority: &Address,
    amount: u64,
) -> (r: Instruction)
    ensures
        r.program_id@ == program@,
        metas_view(r.accounts@) == seq![readonly_view(source@), readonly_view(mint@), readonly_view(destination@), readonly_view(authority@)],
        r.data@ == execute_payload(amount),
{
    let ix = spl_transfer_hook_interface::instruction::execute(&HookPubkey::new_from_array(*program),
        &HookPubkey::new_from_array(*source), &HookPubkey::new_from_array(*mint), &HookPubkey::new_from_array(*destination),
        &HookPubkey::new_from_array(*authority), amount);
    let accounts = ix.accounts.iter().map(|m| AccountMeta {
        pubkey: m.pubkey.to_bytes(), is_signer: m.is_signer, is_writable: m.is_writable }).collect();
    Instruction { program_id: ix.program_id.to_bytes(), accounts, data: ix.data }
}

/// What the hook call adds to the outer call, for a hook `program`: the
/// accounts resolved from the meta list of `mint` (read from the data of the
/// supplied account at its address), then the hook program and the meta list,
/// both read-only; with the supplied accounts that serve them.
pub open spec fn execute_cpi_spec(
    program: Seq<u8>,
    source: Seq<u8>,
    mint: Seq<u8>,
    destination: Seq<u8>,
    authority: Seq<u8>,
    amount: u64,
    pool: Seq<AccountRef>,
    datas: Seq<Seq<u8>>,
) -> Result<(Seq<MetaView>, Seq<AccountRef>), TransferExtensionsError> {
    match hook_accounts_spec(program, mint, pool) {
        Err(e) => Err(e),
        Ok((vs, vi, pi)) => {
            let base = seq![readonly_view(source), readonly_view(mint), readonly_view(destination), readonly_view(authority), readonly_view(vs)];
            match append_spec(datas[vi], execute_payload(amount), program, base, pool) {
                Err(e) => Err(e),
                Ok(ms) => {
                    let extra = ms.subrange(5, ms.len() as int);
                    Ok((
                        extra + seq![readonly_view(program), readonly_view(vs)],
                        handles_for(pool, extra) + seq![pool[pi], pool[vi]],
                    ))
                },
            }
        },
    }
}

/// The meta-list address of `mint` under the hook `program`, and the
/// positions of the supplied accounts that serve it and the program.
pub open spec fn hook_accounts_spec(program: Seq<u8>, mint: Seq<u8>, pool: Seq<AccountRef>) -> Result<(Seq<u8>, int, int), TransferExtensionsError> {
    match program_address(program, seq![meta_list_seed(), mint]) {
        None => Err(TransferExtensionsError::AddressDerivationFailed),
        Some(vs) => match first_index_of(pool, vs) {
            None => Err(TransferExtensionsError::IncorrectAccount),
            Some(vi) => match first_index_of(pool, program) {
                None => Err(TransferExtensionsError::IncorrectAccount),
                Some(pi) => Ok((vs, vi, pi)),
            },
        },
    }
}

fn locate_hook_accounts(program_id: &Address, mint: &Address, pool: &[AccountRef]) -> (r: Result<(Address, usize, usize), TransferExtensionsError>)
    ensures
        match r {
            Ok((vs, vi, pi)) => hook_accounts_spec(program_id@, mint@, pool@) == Ok::<(Seq<u8>, int, int), TransferExtensionsError>((vs@, vi as int, pi as int))
                && vi < pool@.len() && pi < pool@.len() && pool@[vi as int].key@ == vs@,
            Err(e) => hook_accounts_spec(program_id@, mint@, pool@) == Err::<(Seq<u8>, int, int), TransferExtensionsError>(e),
        },
{
    let seeds: Vec<Vec<u8>> = vec![meta_list_seed_bytes(), address_bytes(mint)];
    assert(bytes_view(seeds@) =~= seq![meta_list_seed(), mint@]);
    let vs = match find_program_address(program_id, &seeds) {
        Some(a) => a,
        None => {
            return Err(TransferExtensionsError::AddressDerivationFailed);
        },
    };
    let vi = match find_account(pool, &vs) {
        Some(i) => i,
        None => {
            proof { lemma_no_index(pool@, vs@); }
            return Err(TransferExtensionsError::IncorrectAccount);
        },
    };
    proof { lemma_first_index(pool@, vs@, vi as int); }
    let pi = match find_account(pool, program_id) {
        Some(i) => i,
        None => {
            proof { lemma_no_index(pool@, program_id@); }
            return Err(TransferExtensionsError::IncorrectAccount);
        },
    };
    proof { lemma_first_index(pool@, program_id@, pi as int); }
    Ok((vs, vi, pi))
}

/// Appends the entries of `src_metas` and `src_infos` from position `from` on.
fn append_from(
    metas: &mut Vec<AccountMeta>,
    infos: &mut Vec<AccountRef>,
    src_metas: &Vec<AccountMeta>,
    src_infos: &Vec<AccountRef>,
    from: usize,
)
    requires
        from <= src_metas@.len(),
        src_metas@.len() == src_infos@.len(),
    ensures
        metas_view(final(metas)@) == metas_view(old(metas)@) + metas_view(src_metas@).subrange(from as int, src_metas@.len() as int),
        final(infos)@ == old(infos)@ + src_infos@.subrange(from as int, src_infos@.len() as int),
{
    let ghost sv = metas_view(src_metas@);
    let ghost m0 = metas_view(metas@);
    let ghost i0 = infos@;
    let mut k: usize = from;
    while k < src_metas.len()
        invariant
            from <= k <= src_metas@.len(),
            src_metas@.len() == src_infos@.len(),
            sv == metas_view(src_metas@),
            metas_view(metas@) == m0 + sv.subrange(from as int, k as int),
            infos@ == i0 + src_infos@.subrange(from as int, k as int),
        decreases src_metas@.len() - k,
    {
        let ghost before = metas@;
        metas.push(src_metas[k]);
        infos.push(src_infos[k]);
        assert(metas_view(metas@) =~= metas_view(before).push(sv[k as int]));
        assert(sv.subrange(from as int, k + 1) =~= sv.subrange(from as int, k as int).push(sv[k as int]));
        assert(src_infos@.subrange(from as int, k + 1) =~= src_infos@.subrange(from as int, k as int).push(src_infos@[k as int]));
        assert(metas_view(metas@) =~= m0 + sv.subrange(from as int, k + 1));
        assert(infos@ =~= i0 + src_infos@.subrange(from as int, k + 1));
        k = k + 1;
    }
}

/// Extends a call of the token program with what the mint's transfer hook
/// `program_id` needs: the accounts that its stored meta list resolves to,
/// then the hook program and the meta-list account. `additional_data[i]` is
/// the data of `additional_accounts[i]`. The call is left as it was on error.
#[verifier::rlimit(100)]
#[verifier::spinoff_prover]
pub fn add_extra_accounts_for_execute_cpi(
    cpi_instruction: &mut Instruction,
    cpi_account_infos: &mut Vec<AccountRef>,
    program_id: &Address,
    source_info: AccountRef,
    mint_info: AccountRef,
    destination_info: AccountRef,
    authority_info: AccountRef,
    amount: u64,
    additional_accounts: &[AccountRef],
    additional_data: &[Vec<u8>],
) -> (r: Result<(), TransferExtensionsError>)
    requires
        additional_data@.len() == additional_accounts@.len(),
        forall|i: int| 0 <= i < additional_data@.len() ==> #[trigger] additional_data@[i]@.len() + 5 <= usize::MAX,
    ensures
        final(cpi_instruction).program_id == old(cpi_instruction).program_id,
        final(cpi_instruction).data == old(cpi_instruction).data,
        match r {
            Ok(_) => execute_cpi_spec(
                program_id@,
                source_info.key@,
                mint_info.key@,
                destination_info.key@,
                authority_info.key@,
                amount,
                additional_accounts@,
                bytes_view(additional_data@),
            ) matches Ok((ms, hs)) && metas_view(final(cpi_instruction).accounts@) == metas_view(
                old(cpi_instruction).accounts@,
            ) + ms && final(cpi_account_infos)@ == old(cpi_account_infos)@ + hs,
            Err(e) => execute_cpi_spec(
                program_id@,
                source_info.key@,
                mint_info.key@,
                destination_info.key@,
                authority_info.key@,
                amount,
                additional_accounts@,
                bytes_view(additional_data@),
            ) == Err::<(Seq<MetaView>, Seq<AccountRef>), TransferExtensionsError>(e)
                && final(cpi_instruction).accounts@ == old(cpi_instruction).accounts@
                && final(cpi_account_infos)@ == old(cpi_account_infos)@,
        },
{
    let (validate_state_pubkey, vi, pi) = locate_hook_accounts(program_id, &mint_info.key, additional_accounts)?;
    let validate_state_info = additional_accounts[vi];
    let program_info = additional_accounts[pi];
    let mut execute = execute_instruction(
        program_id,
        &source_info.key,
        &mint_info.key,
        &destination_info.key,
        &authority_info.key,
        amount,
    );
    let ghost e0 = execute.accounts@;
    execute.accounts.push(AccountMeta::new_readonly(validate_state_pubkey, false));
    assert(metas_view(execute.accounts@) =~= metas_view(e0).push(readonly_view(validate_state_pubkey@)));
    let mut execute_account_infos: Vec<AccountRef> = vec![source_info, mint_info, destination_info, authority_info, validate_state_info];
    let ghost base = metas_view(execute.accounts@);
    assert(base =~= seq![readonly_view(source_info.key@), readonly_view(mint_info.key@), readonly_view(destination_info.key@), readonly_view(authority_info.key@), readonly_view(validate_state_pubkey@)]);
    assert(bytes_view(additional_data@)[vi as int] == additional_data@[vi as int]@);
    assert(keys_of_refs(execute_account_infos@) =~= keys_of_views(base));
    let ghost infos0 = execute_account_infos@;
    add_to_cpi_instruction(&mut execute, &mut execute_account_infos, additional_data[vi].as_slice(), additional_accounts)?;
    let ghost ms = metas_view(execute.accounts@);
    let ghost old_metas = metas_view(cpi_instruction.accounts@);
    let ghost old_infos = cpi_account_infos@;
    let n = execute.accounts.len();
    let ghost hf = handles_for(additional_accounts@, ms.subrange(5, n as int));
    assert(infos0.len() == 5);
    assert(execute_account_infos@ == infos0 + hf);
    assert(execute_account_infos@.subrange(5, n as int) =~= hf);
    append_from(&mut cpi_instruction.accounts, cpi_account_infos, &execute.accounts, &execute_account_infos, 5);
    let ghost c1 = cpi_instruction.accounts@;
    let ghost i1 = cpi_account_infos@;
    cpi_instruction.accounts.push(AccountMeta::new_readonly(*program_id, false));
    cpi_instruction.accounts.push(AccountMeta::new_readonly(validate_state_pubkey, false));
    cpi_account_infos.push(program_info);
    cpi_account_infos.push(validate_state_info);
    assert(metas_view(cpi_instruction.accounts@) =~= metas_view(c1) + seq![readonly_view(program_id@), readonly_view(validate_state_pubkey@)]);
    assert(cpi_account_infos@ =~= i1 + seq![program_info, validate_state_info]);
    assert(metas_view(cpi_instruction.accounts@) =~= old_metas + (ms.subrange(5, n as int) + seq![readonly_view(program_id@), readonly_view(validate_state_pubkey@)]));
    assert(cpi_account_infos@ =~= old_infos + (execute_account_infos@.subrange(5, n as int) + seq![program_info, validate_state_info]));
    Ok(())
}

} // verus!
