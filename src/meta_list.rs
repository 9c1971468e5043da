use vstd::prelude::*;
use spl_tlv_account_resolution::account::ExtraAccountMeta;
use spl_tlv_account_resolution::seeds::Seed as PackedSeed;
use spl_tlv_account_resolution::state::ExtraAccountMetaList;
use spl_transfer_hook_interface::instruction::ExecuteInstruction;
use crate::descriptor::{DescriptorRecord, Seed, SeedView, execute_tag, record_at, record_count, seeds_view, u32_le, value_len, well_formed_list};
use crate::errors::TransferExtensionsError;
use crate::meta::{AccountRef, Address, lemma_first_index_key};
use crate::assembler::{append_spec, execute_cpi_spec, execute_payload, hook_accounts_spec, lemma_literal_descriptors_verbatim, readonly_view, stored_records};

verus! {

/// Position of the counter program among the accounts of the hook's execute
/// call: the five fixed accounts come first, then the program's own entry.
pub const COUNTER_PROGRAM_INDEX: u8 = 5;

/// Number of descriptors of the hook's meta list.
pub const META_LIST_LEN: usize = 8;

/// Seed tag of the counters of incoming transfers, "counter_in".
pub open spec fn counter_in_seed() -> Seq<u8> {
    seq![99u8, 111u8, 117u8, 110u8, 116u8, 101u8, 114u8, 95u8, 105u8, 110u8]
}

/// Seed tag of the counters of outgoing transfers, "counter_out".
pub open spec fn counter_out_seed() -> Seq<u8> {
    seq![99u8, 111u8, 117u8, 110u8, 116u8, 101u8, 114u8, 95u8, 111u8, 117u8, 116u8]
}

/// Seed tag of the global counter, "global_program_data".
pub open spec fn global_program_data_seed() -> Seq<u8> {
    seq![103u8, 108u8, 111u8, 98u8, 97u8, 108u8, 95u8, 112u8, 114u8, 111u8, 103u8, 114u8, 97u8, 109u8, 95u8, 100u8, 97u8, 116u8, 97u8]
}

pub fn counter_in_seed_bytes() -> (r: Vec<u8>)
    ensures
        r@ == counter_in_seed(),
{
    let r: Vec<u8> = vec![99u8, 111u8, 117u8, 110u8, 116u8, 101u8, 114u8, 95u8, 105u8, 110u8];
    assert(r@ =~= counter_in_seed());
    r
}

pub fn counter_out_seed_bytes() -> (r: Vec<u8>)
    ensures
        r@ == counter_out_seed(),
{
    let r: Vec<u8> = vec![99u8, 111u8, 117u8, 110u8, 116u8, 101u8, 114u8, 95u8, 111u8, 117u8, 116u8];
    assert(r@ =~= counter_out_seed());
    r
}

pub fn global_program_data_seed_bytes() -> (r: Vec<u8>)
    ensures
        r@ == global_program_data_seed(),
{
    let r: Vec<u8> = vec![103u8, 108u8, 111u8, 98u8, 97u8, 108u8, 95u8, 112u8, 114u8, 111u8, 103u8, 114u8, 97u8, 109u8, 95u8, 100u8, 97u8, 116u8, 97u8];
    assert(r@ =~= global_program_data_seed());
    r
}

/// The packed form of one seed: a kind byte and its fields.
pub open spec fn seed_encoding(s: SeedView) -> Seq<u8> {
    match s {
        SeedView::Literal(b) => seq![1u8, b.len() as u8] + b,
        SeedView::InstructionData(index, length) => seq![2u8, index, length],
        SeedView::AccountKey(index) => seq![3u8, index],
    }
}

/// The packed form of a seed list, seed after seed.
pub open spec fn seeds_encoding(seeds: Seq<SeedView>) -> Seq<u8>
    decreases seeds.len(),
{
    if seeds.len() == 0 {
        seq![]
    } else {
        seeds_encoding(seeds.drop_last()) + seed_encoding(seeds.last())
    }
}

/// `bytes` followed by zeros up to 32 bytes.
pub open spec fn padded_config(bytes: Seq<u8>) -> Seq<u8> {
    bytes + Seq::new((32 - bytes.len()) as nat, |i: int| 0u8)
}

/// Every literal seed is at most 32 bytes long.
pub open spec fn literals_fit(seeds: Seq<SeedView>) -> bool {
    forall|i: int| 0 <= i < seeds.len() ==> match #[trigger] seeds[i] {
        SeedView::Literal(b) => b.len() <= 32,
        _ => true,
    }
}

/// Relies on `ExtraAccountMeta::new_external_pda_with_seeds` of
/// spl-tlv-account-resolution: the kind byte is the program's position plus
/// 128, the configuration is the packed seeds padded with zeros; it fails
/// where the position is 128 or more or the packed seeds pass 32 bytes.
#[verifier::external_body]
fn external_pda_record(program_index: u8, seeds: &Vec<Seed>, is_signer: bool, is_writable: bool) -> (r: Result<DescriptorRecord, TransferExtensionsError>)
    requires
        literals_fit(seeds_view(seeds@)),
    ensures
        match r {
            Ok(rec) => program_index < 128 && seeds_encoding(seeds_view(seeds@)).len() <= 32
                && rec.discriminator == program_index + 128
                && rec.address_config@ == padded_config(seeds_encoding(seeds_view(seeds@)))
                && rec.is_signer == is_signer && rec.is_writable == is_writable,
            Err(e) => (program_index >= 128 || seeds_encoding(seeds_view(seeds@)).len() > 32)
                && e == TransferExtensionsError::MalformedDescriptor,
        },
{
    let packed: Vec<PackedSeed> = seeds.iter().map(|s| match s {
        Seed::Literal { bytes } => PackedSeed::Literal { bytes: bytes.clone() },
        Seed::InstructionData { index, length } => PackedSeed::InstructionData { index: *index, length: *length },
        Seed::AccountKey { index } => PackedSeed::AccountKey { index: *index },
    }).collect();
    match ExtraAccountMeta::new_external_pda_with_seeds(program_index, &packed, is_signer, is_writable) {
        Ok(m) => Ok(DescriptorRecord { discriminator: m.discriminator, address_config: m.address_config,
            is_signer: m.is_signer.into(), is_writable: m.is_writable.into() }),
        Err(_) => Err(TransferExtensionsError::MalformedDescriptor),
    }
}

/// The seeds of the counter descriptor at position `k` (1 to 7) of the meta
/// list: a tag, then, for all but the global counter, the address of the
/// source (0), mint (1) or destination (2) account.
pub open spec fn counter_seeds(k: int) -> Seq<SeedView> {
    if k == 1 {
        seq![SeedView::Literal(counter_in_seed()), SeedView::AccountKey(0)]
    } else if k == 2 {
        seq![SeedView::Literal(counter_in_seed()), SeedView::AccountKey(2)]
    } else if k == 3 {
        seq![SeedView::Literal(counter_out_seed()), SeedView::AccountKey(0)]
    } else if k == 4 {
        seq![SeedView::Literal(counter_out_seed()), SeedView::AccountKey(2)]
    } else if k == 5 {
        seq![SeedView::Literal(counter_in_seed()), SeedView::AccountKey(1)]
    } else if k == 6 {
        seq![SeedView::Literal(counter_out_seed()), SeedView::AccountKey(1)]
    } else {
        seq![SeedView::Literal(global_program_data_seed())]
    }
}

/// `rec` is the read-only, unsigned descriptor of the counter at position `k`,
/// derived under the counter program.
pub open spec fn is_counter_record(rec: DescriptorRecord, k: int) -> bool {
    &&& rec.discriminator == COUNTER_PROGRAM_INDEX + 128
    &&& rec.address_config@ == padded_config(seeds_encoding(counter_seeds(k)))
    &&& !rec.is_signer
    &&& !rec.is_writable
}

fn counter_record(tag: Vec<u8>, key_index: Option<u8>, k: Ghost<int>) -> (r: Result<DescriptorRecord, TransferExtensionsError>)
    requires
        1 <= k@ <= 7,
        tag@.len() <= 19,
        key_index matches Some(i) ==> counter_seeds(k@) == seq![SeedView::Literal(tag@), SeedView::AccountKey(i)],
        key_index is None ==> counter_seeds(k@) == seq![SeedView::Literal(tag@)],
    ensures
        r matches Ok(rec) && is_counter_record(rec, k@),
{
    let ghost t = tag@;
    let mut seeds: Vec<Seed> = Vec::new();
    seeds.push(Seed::Literal { bytes: tag });
    match key_index {
        Some(i) => {
            seeds.push(Seed::AccountKey { index: i });
            let ghost sv = seeds_view(seeds@);
            assert(sv =~= seq![SeedView::Literal(t), SeedView::AccountKey(i)]);
            assert(sv.drop_last().drop_last() =~= Seq::<SeedView>::empty());
            assert(seeds_encoding(sv.drop_last()) == seeds_encoding(sv.drop_last().drop_last()) + seed_encoding(sv.drop_last().last()));
            assert(seeds_encoding(sv).len() == 4 + t.len());
            assert(sv == counter_seeds(k@));
        },
        None => {
            let ghost sv = seeds_view(seeds@);
            assert(sv =~= seq![SeedView::Literal(t)]);
            assert(sv.drop_last() =~= Seq::<SeedView>::empty());
            assert(seeds_encoding(sv.drop_last()) =~= Seq::<u8>::empty());
            assert(seeds_encoding(sv) == seeds_encoding(sv.drop_last()) + seed_encoding(sv.last()));
            assert(seeds_encoding(sv).len() == 2 + t.len());
            assert(sv == counter_seeds(k@));
        },
    }
    assert(literals_fit(seeds_view(seeds@)));
    external_pda_record(COUNTER_PROGRAM_INDEX, &seeds, false, false)
}

/// The descriptors of the hook's meta list: the counter program itself, then
/// the six counters of the source, destination and mint, then the global one.
pub fn get_extra_account_metas(program_id: &Address) -> (r: Result<Vec<DescriptorRecord>, TransferExtensionsError>)
    ensures
        r matches Ok(v) && v@.len() == META_LIST_LEN
            && v@[0].discriminator == 0 && v@[0].address_config@ == program_id@
            && !v@[0].is_signer && !v@[0].is_writable
            && forall|k: int| 1 <= k < 8 ==> is_counter_record(#[trigger] v@[k], k),
{
    let mut v: Vec<DescriptorRecord> = Vec::new();
    v.push(DescriptorRecord { discriminator: 0, address_config: *program_id, is_signer: false, is_writable: false });
    v.push(counter_record(counter_in_seed_bytes(), Some(0), Ghost(1))?);
    v.push(counter_record(counter_in_seed_bytes(), Some(2), Ghost(2))?);
    v.push(counter_record(counter_out_seed_bytes(), Some(0), Ghost(3))?);
    v.push(counter_record(counter_out_seed_bytes(), Some(2), Ghost(4))?);
    v.push(counter_record(counter_in_seed_bytes(), Some(1), Ghost(5))?);
    v.push(counter_record(counter_out_seed_bytes(), Some(1), Ghost(6))?);
    v.push(counter_record(global_program_data_seed_bytes(), None, Ghost(7))?);
    assert forall|k: int| 1 <= k < 8 implies is_counter_record(#[trigger] v@[k], k) by {}
    Ok(v)
}

/// The stored bytes of one descriptor.
pub open spec fn record_bytes(r: DescriptorRecord) -> Seq<u8> {
    seq![r.discriminator] + r.address_config@ + seq![
        if r.is_signer { 1u8 } else { 0u8 },
        if r.is_writable { 1u8 } else { 0u8 },
    ]
}

/// The stored bytes of descriptors, one after the other.
pub open spec fn records_bytes(rs: Seq<DescriptorRecord>) -> Seq<u8>
    decreases rs.len(),
{
    if rs.len() == 0 {
        seq![]
    } else {
        records_bytes(rs.drop_last()) + record_bytes(rs.last())
    }
}

/// The four little-endian bytes of `v`.
pub open spec fn u32_le_bytes(v: nat) -> Seq<u8> {
    seq![(v % 256) as u8, ((v / 256) % 256) as u8, ((v / 65536) % 256) as u8, ((v / 16777216) % 256) as u8]
}

/// A stored meta list: the execute tag, the value length, the count of
/// descriptors, then the descriptors.
#[verifier::opaque]
pub open spec fn list_encoding(rs: Seq<DescriptorRecord>) -> Seq<u8> {
    execute_tag() + u32_le_bytes(4 + 35 * rs.len()) + u32_le_bytes(rs.len()) + records_bytes(rs)
}

/// Relies on `ExtraAccountMetaList::size_of` of spl-tlv-account-resolution:
/// a 12-byte header, a 4-byte count and 35 bytes per descriptor.
#[verifier::external_body]
fn meta_list_size(n: usize) -> (r: usize)
    requires
        16 + 35 * n <= usize::MAX,
    ensures
        r == 16 + 35 * n,
{
    ExtraAccountMetaList::size_of(n).unwrap()
}

/// Relies on `ExtraAccountMetaList::init::<ExecuteInstruction>` of
/// spl-tlv-account-resolution: on a zeroed buffer of the list's exact size it
/// succeeds (the zeroed buffer unpacks, the entry fits exactly, and every push
/// is within capacity) and writes the execute tag, the value length, the count
/// and the descriptors.
#[verifier::external_body]
fn write_meta_list(data: &mut Vec<u8>, records: &Vec<DescriptorRecord>) -> (r: Result<(), TransferExtensionsError>)
    requires
        16 + 35 * records@.len() <= u32::MAX,
        old(data)@ == Seq::new((16 + 35 * records@.len()) as nat, |i: int| 0u8),
    ensures
        r is Ok,
        final(data)@ == list_encoding(records@),
{
    let metas: Vec<ExtraAccountMeta> = records.iter().map(|r| ExtraAccountMeta { discriminator: r.discriminator,
        address_config: r.address_config, is_signer: r.is_signer.into(), is_writable: r.is_writable.into() }).collect();
    ExtraAccountMetaList::init::<ExecuteInstruction>(data, &metas).map_err(|_| TransferExtensionsError::MalformedDescriptor)
}

/// Storage size of the hook's meta list.
pub fn get_meta_list_size(program_id: &Address) -> (r: Result<usize, TransferExtensionsError>)
    ensures
        r == Ok::<usize, TransferExtensionsError>((16 + 35 * META_LIST_LEN) as usize),
{
    let metas = get_extra_account_metas(program_id)?;
    Ok(meta_list_size(metas.len()))
}

fn zeroed(n: usize) -> (r: Vec<u8>)
    ensures
        r@ == Seq::new(n as nat, |i: int| 0u8),
{
    let mut v: Vec<u8> = Vec::new();
    let mut k: usize = 0;
    while k < n
        invariant
            0 <= k <= n,
            v@ == Seq::new(k as nat, |i: int| 0u8),
        decreases n - k,
    {
        v.push(0u8);
        k = k + 1;
        assert(v@ =~= Seq::new(k as nat, |i: int| 0u8));
    }
    v
}

/// Writes the hook's meta list into a new account, once: an address that
/// already holds an account is refused and left as it is.
pub fn initialize_extra_account_meta_list(
    extra_metas_account: &mut Option<Vec<u8>>,
    program_id: &Address,
) -> (r: Result<(), TransferExtensionsError>)
    ensures
        (*old(extra_metas_account)) is Some ==> r == Err::<(), TransferExtensionsError>(TransferExtensionsError::AccountAlreadyInitialized)
            && *final(extra_metas_account) == *old(extra_metas_account),
        (*old(extra_metas_account)) is None ==> r is Ok,
        (*old(extra_metas_account)) is None ==> exists|recs: Seq<DescriptorRecord>| {
            &&& recs.len() == META_LIST_LEN
            &&& recs[0].discriminator == 0 && recs[0].address_config@ == program_id@
            &&& !recs[0].is_signer && !recs[0].is_writable
            &&& forall|k: int| 1 <= k < 8 ==> is_counter_record(#[trigger] recs[k], k)
            &&& *final(extra_metas_account) matches Some(d) && d@ == list_encoding(recs)
        },
{
    if extra_metas_account.is_some() {
        return Err(TransferExtensionsError::AccountAlreadyInitialized);
    }
    let size = get_meta_list_size(program_id)?;
    let metas = get_extra_account_metas(program_id)?;
    let mut data = zeroed(size);
    write_meta_list(&mut data, &metas)?;
    *extra_metas_account = Some(data);
    assert(forall|k: int| 1 <= k < 8 ==> is_counter_record(#[trigger] metas@[k], k));
    Ok(())
}

/// The lamports that bring an account's balance up to the rent-exempt
/// minimum: none where it already holds enough.
pub fn update_account_lamports_to_minimum_balance(minimum_balance: u64, lamports: u64) -> (r: u64)
    ensures
        r == if minimum_balance > lamports { (minimum_balance - lamports) as u64 } else { 0 },
{
    if minimum_balance > lamports {
        minimum_balance - lamports
    } else {
        0
    }
}

proof fn lemma_u32_le_bytes(v: nat)
    requires
        v < 0x1_0000_0000,
    ensures
        u32_le(u32_le_bytes(v), 0) == v,
{
    let b = u32_le_bytes(v);
    assert(b[0] == v % 256 && b[1] == (v / 256) % 256 && b[2] == (v / 65536) % 256 && b[3] == (v / 16777216) % 256);
    assert(v % 256 + 256 * ((v / 256) % 256) + 65536 * ((v / 65536) % 256) + 16777216 * ((v / 16777216) % 256) == v) by (nonlinear_arith)
        requires
            v < 0x1_0000_0000,
    {
        assert(v == 256 * (v / 256) + v % 256);
        assert(v / 256 == 256 * (v / 65536) + (v / 256) % 256);
        assert(v / 65536 == 256 * (v / 16777216) + (v / 65536) % 256);
        assert(v / 16777216 < 256);
    }
}

proof fn lemma_records_bytes(rs: Seq<DescriptorRecord>)
    ensures
        records_bytes(rs).len() == 35 * rs.len(),
        forall|i: int| 0 <= i < rs.len() ==> #[trigger] records_bytes(rs).subrange(35 * i, 35 * i + 35) == record_bytes(rs[i]),
    decreases rs.len(),
{
    if rs.len() > 0 {
        let prev = rs.drop_last();
        lemma_records_bytes(prev);
        let all = records_bytes(rs);
        assert(all == records_bytes(prev) + record_bytes(rs.last()));
        assert forall|i: int| 0 <= i < rs.len() implies #[trigger] records_bytes(rs).subrange(35 * i, 35 * i + 35) == record_bytes(rs[i]) by {
            if i < rs.len() - 1 {
                assert(records_bytes(prev).subrange(35 * i, 35 * i + 35) == record_bytes(prev[i]));
                assert(all.subrange(35 * i, 35 * i + 35) =~= records_bytes(prev).subrange(35 * i, 35 * i + 35));
            } else {
                assert(all.subrange(35 * i, 35 * i + 35) =~= record_bytes(rs.last()));
            }
        }
    }
}

/// What the meta-list initializer writes, the decoder reads back: the stored
/// list is well formed and holds exactly the written descriptors, in order.
pub proof fn lemma_written_list_decodes(rs: Seq<DescriptorRecord>)
    requires
        16 + 35 * rs.len() <= u32::MAX,
    ensures
        well_formed_list(list_encoding(rs)),
        record_count(list_encoding(rs)) == rs.len(),
        forall|i: int| 0 <= i < rs.len() ==> record_at(#[trigger] rs[i], list_encoding(rs), 16 + 35 * i),
{
    reveal(list_encoding);
    let enc = list_encoding(rs);
    let n = rs.len();
    let lv = u32_le_bytes((4 + 35 * n) as nat);
    let cv = u32_le_bytes(n);
    lemma_u32_le_bytes((4 + 35 * n) as nat);
    lemma_u32_le_bytes(n);
    lemma_records_bytes(rs);
    assert(enc.subrange(0, 8) =~= execute_tag());
    assert(enc.subrange(8, 12) =~= lv);
    assert(enc.subrange(12, 16) =~= cv);
    assert(value_len(enc) == u32_le(lv, 0));
    assert(record_count(enc) == u32_le(cv, 0));
    assert((35 * n) % 35 == 0) by (nonlinear_arith);
    assert forall|i: int| 0 <= i < n implies record_at(#[trigger] rs[i], enc, 16 + 35 * i) by {
        assert(0 <= 35 * i && 35 * i + 35 <= 35 * n) by (nonlinear_arith)
            requires
                0 <= i < n,
        ;
        let rb = records_bytes(rs);
        assert(rb.subrange(35 * i, 35 * i + 35) == record_bytes(rs[i]));
        assert(enc.subrange(16 + 35 * i, 16 + 35 * i + 35) =~= rb.subrange(35 * i, 35 * i + 35));
        let w = enc.subrange(16 + 35 * i, 16 + 35 * i + 35);
        assert(w[0] == enc[16 + 35 * i]);
        assert(enc.subrange(16 + 35 * i + 1, 16 + 35 * i + 33) =~= w.subrange(1, 33));
        assert(w.subrange(1, 33) =~= rs[i].address_config@);
        assert(w[33] == enc[16 + 35 * i + 33]);
        assert(w[34] == enc[16 + 35 * i + 34]);
    }
}

/// A hook call over a meta list that the initializer wrote for the counter
/// program `records[0]` names leads with that program: the first account it
/// adds to the outer call is the program, read-only and unsigned, served by a
/// supplied account with its address.
pub proof fn lemma_written_list_leads_with_program(
    records: Seq<DescriptorRecord>,
    program: Seq<u8>,
    source: Seq<u8>,
    mint: Seq<u8>,
    destination: Seq<u8>,
    authority: Seq<u8>,
    amount: u64,
    pool: Seq<AccountRef>,
    datas: Seq<Seq<u8>>,
)
    requires
        16 + 35 * records.len() <= u32::MAX,
        records.len() >= 1,
        records[0].discriminator == 0,
        !records[0].is_signer,
        !records[0].is_writable,
        hook_accounts_spec(program, mint, pool) matches Ok((vs, vi, pi)) && datas[vi] == list_encoding(records),
        execute_cpi_spec(program, source, mint, destination, authority, amount, pool, datas) is Ok,
    ensures
        ({
            let (ms, hs) = execute_cpi_spec(program, source, mint, destination, authority, amount, pool, datas)->Ok_0;
            &&& ms[0] == readonly_view(records[0].address_config@)
            &&& hs[0].key@ == records[0].address_config@
        }),
{
    let (vs, vi, pi) = hook_accounts_spec(program, mint, pool)->Ok_0;
    let data = list_encoding(records);
    lemma_written_list_decodes(records);
    assert(stored_records(data, records));
    let base = seq![readonly_view(source), readonly_view(mint), readonly_view(destination), readonly_view(authority), readonly_view(vs)];
    let payload = execute_payload(amount);
    lemma_literal_descriptors_verbatim(data, records, payload, program, base, pool, 0);
    let all = append_spec(data, payload, program, base, pool)->Ok_0;
    let extra = all.subrange(5, all.len() as int);
    assert(extra[0] == all[5]);
    lemma_first_index_key(pool, all[5].key);
}

} // verus!
