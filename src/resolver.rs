use vstd::prelude::*;
use crate::descriptor::{DescriptorRecord, Seed, SeedView, seeds_from, seeds_view, unpack_seeds};
use crate::errors::TransferExtensionsError;
use crate::meta::{AccountMeta, Address, MetaView, address_bytes, keys_of_views, metas_view};

verus! {

/// The program-derived address of `program` for `seeds`: the first bump value,
/// searched downwards from 255, for which the derived hash is off the curve;
/// `None` where the seeds are invalid or no bump value works.
pub uninterp spec fn program_address(program: Seq<u8>, seeds: Seq<Seq<u8>>) -> Option<Seq<u8>>;

pub open spec fn bytes_view(seeds: Seq<Vec<u8>>) -> Seq<Seq<u8>> {
    seeds.map_values(|s: Vec<u8>| s@)
}

/// Relies on `Pubkey::try_find_program_address` of solana-program: the derived
/// address depends on the program and the seeds alone, and is `None` on
/// invalid seeds or an exhausted bump search (it does not panic).
#[verifier::external_body]
pub(crate) fn find_program_address(program: &Address, seeds: &Vec<Vec<u8>>) -> (r: Option<Address>)
    ensures
        match r {
            Some(a) => program_address(program@, bytes_view(seeds@)) == Some(a@),
            None => program_address(program@, bytes_view(seeds@)) is None,
        },
{
    let refs: Vec<&[u8]> = seeds.iter().map(|s| s.as_slice()).collect();
    let program = solana_program::pubkey::Pubkey::new_from_array(*program);
    solana_program::pubkey::Pubkey::try_find_program_address(&refs, &program).map(|(a, _)| a.to_bytes())
}

/// The address at position `index` of the accounts known so far. Positions
/// below `total` that are not known yet belong to descriptors resolved later.
pub open spec fn key_lookup(known: Seq<Seq<u8>>, index: int, total: int) -> Result<Seq<u8>, TransferExtensionsError> {
    if 0 <= index < known.len() {
        Ok(known[index])
    } else if index < total {
        Err(TransferExtensionsError::UnresolvedDependency)
    } else {
        Err(TransferExtensionsError::IndexOutOfRange)
    }
}

/// The bytes that one seed stands for.
pub open spec fn seed_bytes(s: SeedView, payload: Seq<u8>, known: Seq<Seq<u8>>, total: int) -> Result<Seq<u8>, TransferExtensionsError> {
    match s {
        SeedView::Literal(b) => Ok(b),
        SeedView::InstructionData(index, length) => if index + length <= payload.len() {
            Ok(payload.subrange(index as int, index + length))
        } else {
            Err(TransferExtensionsError::IndexOutOfRange)
        },
        SeedView::AccountKey(index) => key_lookup(known, index as int, total),
    }
}

/// The bytes of each seed in order; the first seed that fails decides the error.
pub open spec fn seed_list_bytes(seeds: Seq<SeedView>, payload: Seq<u8>, known: Seq<Seq<u8>>, total: int) -> Result<Seq<Seq<u8>>, TransferExtensionsError>
    decreases seeds.len(),
{
    if seeds.len() == 0 {
        Ok(seq![])
    } else {
        match seed_list_bytes(seeds.drop_last(), payload, known, total) {
            Err(e) => Err(e),
            Ok(prev) => match seed_bytes(seeds.last(), payload, known, total) {
                Err(e) => Err(e),
                Ok(b) => Ok(prev.push(b)),
            },
        }
    }
}

/// What a descriptor resolves to, given the call's payload, the hook program,
/// the addresses known so far and the number of positions that the whole
/// resolution will fill.
pub open spec fn resolve_spec(rec: DescriptorRecord, payload: Seq<u8>, hook: Seq<u8>, known: Seq<Seq<u8>>, total: int) -> Result<MetaView, TransferExtensionsError> {
    let d = rec.discriminator;
    if d == 0 {
        Ok(MetaView { key: rec.address_config@, is_signer: rec.is_signer, is_writable: rec.is_writable })
    } else if d == 1 || d >= 128 {
        let program = if d == 1 { Ok(hook) } else { key_lookup(known, d - 128, total) };
        match program {
            Err(e) => Err(e),
            Ok(p) => match seeds_from(rec.address_config@, 0) {
                None => Err(TransferExtensionsError::MalformedDescriptor),
                Some(seeds) => match seed_list_bytes(seeds, payload, known, total) {
                    Err(e) => Err(e),
                    Ok(bytes) => match program_address(p, bytes) {
                        None => Err(TransferExtensionsError::AddressDerivationFailed),
                        Some(a) => Ok(MetaView { key: a, is_signer: rec.is_signer, is_writable: rec.is_writable }),
                    },
                },
            },
        }
    } else {
        Err(TransferExtensionsError::MalformedDescriptor)
    }
}

/// Looks up position `index` among the accounts known so far.
pub fn lookup_account_key(known: &[AccountMeta], index: usize, total: usize) -> (r: Result<Address, TransferExtensionsError>)
    ensures
        match r {
            Ok(a) => key_lookup(keys_of_views(metas_view(known@)), index as int, total as int) == Ok::<Seq<u8>, TransferExtensionsError>(a@),
            Err(e) => key_lookup(keys_of_views(metas_view(known@)), index as int, total as int) == Err::<Seq<u8>, TransferExtensionsError>(e),
        },
        index < known@.len() ==> (r matches Ok(a) && a@ == known@[index as int].pubkey@),
        index >= known@.len() && index >= total ==> r == Err::<Address, TransferExtensionsError>(TransferExtensionsError::IndexOutOfRange),
{
    if index < known.len() {
        Ok(known[index].pubkey)
    } else if index < total {
        Err(TransferExtensionsError::UnresolvedDependency)
    } else {
        Err(TransferExtensionsError::IndexOutOfRange)
    }
}

fn seed_value(seed: &Seed, payload: &[u8], known: &[AccountMeta], total: usize) -> (r: Result<Vec<u8>, TransferExtensionsError>)
    ensures
        match r {
            Ok(b) => seed_bytes(seed@, payload@, keys_of_views(metas_view(known@)), total as int) == Ok::<Seq<u8>, TransferExtensionsError>(b@),
            Err(e) => seed_bytes(seed@, payload@, keys_of_views(metas_view(known@)), total as int) == Err::<Seq<u8>, TransferExtensionsError>(e),
        },
{
    match seed {
        Seed::Literal { bytes } => Ok(bytes.clone()),
        Seed::InstructionData { index, length } => {
            let start = *index as usize;
            let end = start + *length as usize;
            if end > payload.len() {
                return Err(TransferExtensionsError::IndexOutOfRange);
            }
            let mut out: Vec<u8> = Vec::new();
            let mut k: usize = start;
            while k < end
                invariant
                    start <= k <= end <= payload@.len(),
                    out@ == payload@.subrange(start as int, k as int),
                decreases end - k,
            {
                out.push(payload[k]);
                k = k + 1;
                assert(out@ =~= payload@.subrange(start as int, k as int));
            }
            Ok(out)
        },
        Seed::AccountKey { index } => {
            let a = lookup_account_key(known, *index as usize, total)?;
            Ok(address_bytes(&a))
        },
    }
}

/// Resolves one descriptor into an account meta. `known` holds the accounts
/// known so far (the fixed prefix, then the descriptors already resolved);
/// `total` is the number of positions that the whole resolution fills.
pub fn resolve_descriptor(
    rec: &DescriptorRecord,
    payload: &[u8],
    hook_program: &Address,
    known: &[AccountMeta],
    total: usize,
) -> (r: Result<AccountMeta, TransferExtensionsError>)
    ensures
        match r {
            Ok(m) => resolve_spec(*rec, payload@, hook_program@, keys_of_views(metas_view(known@)), total as int) == Ok::<MetaView, TransferExtensionsError>(m@),
            Err(e) => resolve_spec(*rec, payload@, hook_program@, keys_of_views(metas_view(known@)), total as int) == Err::<MetaView, TransferExtensionsError>(e),
        },
        rec.discriminator == 0 ==> (r matches Ok(m) && m.pubkey@ == rec.address_config@
            && m.is_signer == rec.is_signer && m.is_writable == rec.is_writable),
{
    let d = rec.discriminator;
    if d == 0 {
        return Ok(AccountMeta { pubkey: rec.address_config, is_signer: rec.is_signer, is_writable: rec.is_writable });
    }
    if d != 1 && d < 128 {
        return Err(TransferExtensionsError::MalformedDescriptor);
    }
    let program = if d == 1 {
        *hook_program
    } else {
        lookup_account_key(known, (d - 128) as usize, total)?
    };
    let seeds = unpack_seeds(&rec.address_config)?;
    let ghost sv = seeds_view(seeds@);
    let ghost kv = keys_of_views(metas_view(known@));
    let mut bytes: Vec<Vec<u8>> = Vec::new();
    let mut i: usize = 0;
    assert(sv.subrange(0, 0) =~= Seq::<SeedView>::empty());
    assert(bytes_view(bytes@) =~= Seq::<Seq<u8>>::empty());
    while i < seeds.len()
        invariant
            0 <= i <= seeds@.len(),
            sv == seeds_view(seeds@),
            kv == keys_of_views(metas_view(known@)),
            d == rec.discriminator,
            d != 0,
            d == 1 || d >= 128,
            (if d == 1 { Ok(hook_program@) } else { key_lookup(kv, d - 128, total as int) }) == Ok::<Seq<u8>, TransferExtensionsError>(program@),
            seeds_from(rec.address_config@, 0) == Some(sv),
            seed_list_bytes(sv.subrange(0, i as int), payload@, kv, total as int) == Ok::<Seq<Seq<u8>>, TransferExtensionsError>(bytes_view(bytes@)),
        decreases seeds@.len() - i,
    {
        let b = seed_value(&seeds[i], payload, known, total);
        assert(sv.subrange(0, i + 1).drop_last() =~= sv.subrange(0, i as int));
        match b {
            Ok(b) => {
                let ghost prev = bytes_view(bytes@);
                let ghost bv = b@;
                bytes.push(b);
                assert(bytes_view(bytes@) =~= prev.push(bv));
            },
            Err(e) => {
                assert(sv.subrange(0, i + 1).last() == seeds@[i as int]@);
                assert(seed_list_bytes(sv.subrange(0, i + 1), payload@, kv, total as int) == Err::<Seq<Seq<u8>>, TransferExtensionsError>(e));
                proof { lemma_first_error(sv, (i + 1) as int, payload@, kv, total as int); }
                return Err(e);
            },
        }
        i = i + 1;
    }
    assert(sv.subrange(0, i as int) =~= sv);
    match find_program_address(&program, &bytes) {
        Some(a) => Ok(AccountMeta { pubkey: a, is_signer: rec.is_signer, is_writable: rec.is_writable }),
        None => Err(TransferExtensionsError::AddressDerivationFailed),
    }
}

/// An error among the first `n` seeds is the error of the whole list.
proof fn lemma_first_error(sv: Seq<SeedView>, n: int, payload: Seq<u8>, kv: Seq<Seq<u8>>, total: int)
    requires
        0 < n <= sv.len(),
        seed_list_bytes(sv.subrange(0, n), payload, kv, total) is Err,
    ensures
        seed_list_bytes(sv, payload, kv, total) == seed_list_bytes(sv.subrange(0, n), payload, kv, total),
    decreases sv.len() - n,
{
    if n < sv.len() {
        assert(sv.subrange(0, n + 1).drop_last() =~= sv.subrange(0, n));
        lemma_first_error(sv, n + 1, payload, kv, total);
    } else {
        assert(sv.subrange(0, n) =~= sv);
    }
}

} // verus!
