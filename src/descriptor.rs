use vstd::prelude::*;
use crate::errors::TransferExtensionsError;

verus! {

/// The tag that marks the descriptor list of the hook's execute call (the first
/// eight bytes of the SHA-256 of "spl-transfer-hook-interface:execute").
pub const EXECUTE_TAG: [u8; 8] = [105, 37, 101, 197, 75, 251, 102, 26];

/// One packed descriptor as it is stored: a kind byte, 32 bytes of
/// configuration, and the two requested authority flags.
#[derive(Clone, Copy, Debug)]
pub struct DescriptorRecord {
    pub discriminator: u8,
    pub address_config: [u8; 32],
    pub is_signer: bool,
    pub is_writable: bool,
}

/// One component of the seeds of a computed address.
#[derive(Clone, Debug)]
pub enum Seed {
    /// These bytes, as they are.
    Literal { bytes: Vec<u8> },
    /// A slice of the outer call's payload.
    InstructionData { index: u8, length: u8 },
    /// The address of an already known account.
    AccountKey { index: u8 },
}

/// The meaning of a `Seed`.
pub enum SeedView {
    Literal(Seq<u8>),
    InstructionData(u8, u8),
    AccountKey(u8),
}

impl View for Seed {
    type V = SeedView;

    open spec fn view(&self) -> SeedView {
        match self {
            Seed::Literal { bytes } => SeedView::Literal(bytes@),
            Seed::InstructionData { index, length } => SeedView::InstructionData(*index, *length),
            Seed::AccountKey { index } => SeedView::AccountKey(*index),
        }
    }
}

pub open spec fn execute_tag() -> Seq<u8> {
    seq![105u8, 37u8, 101u8, 197u8, 75u8, 251u8, 102u8, 26u8]
}

/// The little-endian `u32` at `at`.
pub open spec fn u32_le(s: Seq<u8>, at: int) -> int {
    s[at] + 256 * s[at + 1] + 65536 * s[at + 2] + 16777216 * s[at + 3]
}

/// Length of the value that the header announces.
pub open spec fn value_len(data: Seq<u8>) -> int {
    u32_le(data, 8)
}

/// Number of descriptors that the list announces.
pub open spec fn record_count(data: Seq<u8>) -> int {
    u32_le(data, 12)
}

/// The header carries the execute tag, the announced value fits in the buffer,
/// and the records area is a whole number of records that holds the count.
pub open spec fn well_formed_list(data: Seq<u8>) -> bool {
    &&& data.len() >= 16
    &&& data.subrange(0, 8) == execute_tag()
    &&& value_len(data) >= 4
    &&& 12 + value_len(data) <= data.len()
    &&& (value_len(data) - 4) % 35 == 0
    &&& record_count(data) * 35 <= value_len(data) - 4
}

/// `r` is the record stored at `start`.
pub open spec fn record_at(r: DescriptorRecord, data: Seq<u8>, start: int) -> bool {
    &&& r.discriminator == data[start]
    &&& r.address_config@ == data.subrange(start + 1, start + 33)
    &&& r.is_signer == (data[start + 33] != 0)
    &&& r.is_writable == (data[start + 34] != 0)
}

fn read_u32_le(data: &[u8], at: usize) -> (r: u64)
    requires
        at + 4 <= data@.len(),
    ensures
        r == u32_le(data@, at as int),
        r < 0x1_0000_0000,
{
    data[at] as u64 + 256 * (data[at + 1] as u64) + 65536 * (data[at + 2] as u64) + 16777216 * (
    data[at + 3] as u64)
}

fn read_record(data: &[u8], start: usize) -> (r: DescriptorRecord)
    requires
        start + 35 <= data@.len(),
    ensures
        record_at(r, data@, start as int),
{
    let n = data.len();
    let mut config = [0u8; 32];
    let mut j: usize = 0;
    while j < 32
        invariant
            0 <= j <= 32,
            start + 35 <= data@.len(),
            n == data@.len(),
            config@.len() == 32,
            forall|k: int| 0 <= k < j ==> config@[k] == data@[start + 1 + k],
        decreases 32 - j,
    {
        config[j] = data[start + 1 + j];
        j = j + 1;
    }
    assert(config@ =~= data@.subrange(start + 1, start + 33));
    DescriptorRecord {
        discriminator: data[start],
        address_config: config,
        is_signer: data[start + 33] != 0,
        is_writable: data[start + 34] != 0,
    }
}

/// Reads the descriptor list of a meta-list account: checks the header's tag
/// and lengths, then returns the records in their stored order.
pub fn unpack_descriptor_list(data: &[u8]) -> (r: Result<Vec<DescriptorRecord>, TransferExtensionsError>)
    ensures
        match r {
            Ok(v) => well_formed_list(data@) && v@.len() == record_count(data@) && forall|i: int|
                0 <= i < v@.len() ==> record_at(#[trigger] v@[i], data@, 16 + 35 * i),
            Err(e) => !well_formed_list(data@) && e == TransferExtensionsError::MalformedDescriptor,
        },
{
    if data.len() < 16 {
        return Err(TransferExtensionsError::MalformedDescriptor);
    }
    let mut t: usize = 0;
    while t < 8
        invariant
            0 <= t <= 8,
            data@.len() >= 16,
            forall|k: int| 0 <= k < t ==> data@[k] == execute_tag()[k],
        decreases 8 - t,
    {
        if data[t] != EXECUTE_TAG[t] {
            assert(data@.subrange(0, 8)[t as int] != execute_tag()[t as int]);
            return Err(TransferExtensionsError::MalformedDescriptor);
        }
        t = t + 1;
    }
    assert(data@.subrange(0, 8) =~= execute_tag());
    let len = read_u32_le(data, 8);
    let count = read_u32_le(data, 12);
    if len < 4 || 12 + len > data.len() as u64 || (len - 4) % 35 != 0 || count * 35 > len - 4 {
        return Err(TransferExtensionsError::MalformedDescriptor);
    }
    let count = count as usize;
    assert(data@.len() <= usize::MAX);
    let mut out: Vec<DescriptorRecord> = Vec::new();
    let mut i: usize = 0;
    while i < count
        invariant
            0 <= i <= count,
            count == record_count(data@),
            16 + 35 * count <= data@.len(),
            data@.len() <= usize::MAX,
            out@.len() == i,
            forall|k: int| 0 <= k < i ==> record_at(#[trigger] out@[k], data@, 16 + 35 * k),
        decreases count - i,
    {
        assert(16 + 35 * i + 35 <= 16 + 35 * count) by (nonlinear_arith)
            requires
                i < count,
        ;
        let rec = read_record(data, 16 + 35 * i);
        out.push(rec);
        i = i + 1;
    }
    Ok(out)
}


/// The seeds packed into a descriptor's configuration from byte `i` on, or
/// `None` where the bytes do not form a supported seed list. A zero byte, or
/// the end of the 32 bytes, ends the list.
pub open spec fn seeds_from(cfg: Seq<u8>, i: int) -> Option<Seq<SeedView>>
    decreases 32 - i,
{
    if i < 0 || i >= 32 || cfg[i] == 0 {
        Some(seq![])
    } else if cfg[i] == 1 {
        if i + 2 <= 32 && i + 2 + cfg[i + 1] <= 32 {
            let end = i + 2 + cfg[i + 1];
            match seeds_from(cfg, end) {
                Some(rest) => Some(seq![SeedView::Literal(cfg.subrange(i + 2, end))] + rest),
                None => None,
            }
        } else {
            None
        }
    } else if cfg[i] == 2 {
        if i + 3 <= 32 {
            match seeds_from(cfg, i + 3) {
                Some(rest) => Some(seq![SeedView::InstructionData(cfg[i + 1], cfg[i + 2])] + rest),
                None => None,
            }
        } else {
            None
        }
    } else if cfg[i] == 3 {
        if i + 2 <= 32 {
            match seeds_from(cfg, i + 2) {
                Some(rest) => Some(seq![SeedView::AccountKey(cfg[i + 1])] + rest),
                None => None,
            }
        } else {
            None
        }
    } else {
        None
    }
}

pub open spec fn seeds_view(seeds: Seq<Seed>) -> Seq<SeedView> {
    seeds.map_values(|s: Seed| s@)
}

/// `done` followed by the seeds from byte `i` on.
pub open spec fn seeds_after(done: Seq<SeedView>, cfg: Seq<u8>, i: int) -> Option<Seq<SeedView>> {
    match seeds_from(cfg, i) {
        Some(rest) => Some(done + rest),
        None => None,
    }
}

fn copy_bytes(src: &[u8; 32], start: usize, end: usize) -> (r: Vec<u8>)
    requires
        start <= end <= 32,
    ensures
        r@ == src@.subrange(start as int, end as int),
{
    let mut out: Vec<u8> = Vec::new();
    let mut k: usize = start;
    while k < end
        invariant
            start <= k <= end <= 32,
            src@.len() == 32,
            out@ == src@.subrange(start as int, k as int),
        decreases end - k,
    {
        out.push(src[k]);
        k = k + 1;
        assert(out@ =~= src@.subrange(start as int, k as int));
    }
    out
}

proof fn lemma_concat_assoc()
    ensures
        forall|a: Seq<SeedView>, b: Seq<SeedView>, c: Seq<SeedView>| #[trigger] ((a + b) + c) == a + (b + c),
{
    assert forall|a: Seq<SeedView>, b: Seq<SeedView>, c: Seq<SeedView>| #[trigger] ((a + b) + c) == a + (b + c) by {
        assert((a + b) + c =~= a + (b + c));
    }
}

/// Reads the seed list packed into a descriptor's configuration.
pub fn unpack_seeds(config: &[u8; 32]) -> (r: Result<Vec<Seed>, TransferExtensionsError>)
    ensures
        match r {
            Ok(v) => seeds_from(config@, 0) == Some(seeds_view(v@)),
            Err(e) => seeds_from(config@, 0) is None && e == TransferExtensionsError::MalformedDescriptor,
        },
{
    let mut out: Vec<Seed> = Vec::new();
    let mut i: usize = 0;
    while i < 32
        invariant
            0 <= i <= 32,
            config@.len() == 32,
            seeds_from(config@, 0) == seeds_after(seeds_view(out@), config@, i as int),
        decreases 32 - i,
    {
        let tag = config[i];
        if tag == 0 {
            assert(seeds_view(out@) + seq![] =~= seeds_view(out@));
            return Ok(out);
        } else if tag == 1 {
            if i + 2 > 32 || i + 2 + (config[i + 1] as usize) > 32 {
                return Err(TransferExtensionsError::MalformedDescriptor);
            }
            let end = i + 2 + (config[i + 1] as usize);
            let bytes = copy_bytes(config, i + 2, end);
            let ghost before = seeds_view(out@);
            out.push(Seed::Literal { bytes });
            assert(seeds_view(out@) =~= before + seq![SeedView::Literal(config@.subrange(i + 2, end as int))]);
            proof { lemma_concat_assoc(); }
            i = end;
        } else if tag == 2 {
            if i + 3 > 32 {
                return Err(TransferExtensionsError::MalformedDescriptor);
            }
            let ghost before = seeds_view(out@);
            out.push(Seed::InstructionData { index: config[i + 1], length: config[i + 2] });
            assert(seeds_view(out@) =~= before + seq![SeedView::InstructionData(config@[i + 1], config@[i + 2])]);
            proof { lemma_concat_assoc(); }
            i = i + 3;
        } else if tag == 3 {
            if i + 2 > 32 {
                return Err(TransferExtensionsError::MalformedDescriptor);
            }
            let ghost before = seeds_view(out@);
            out.push(Seed::AccountKey { index: config[i + 1] });
            assert(seeds_view(out@) =~= before + seq![SeedView::AccountKey(config@[i + 1])]);
            proof { lemma_concat_assoc(); }
            i = i + 2;
        } else {
            return Err(TransferExtensionsError::MalformedDescriptor);
        }
    }
    assert(seeds_view(out@) + seq![] =~= seeds_view(out@));
    Ok(out)
}

} // verus!
