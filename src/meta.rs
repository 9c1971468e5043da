use vstd::prelude::*;

verus! {

/// A 32-byte account address.
pub type Address = [u8; 32];

/// An account reference of an instruction: address and the authority asked for.
#[derive(Clone, Copy, Debug)]
pub struct AccountMeta {
    pub pubkey: Address,
    pub is_signer: bool,
    pub is_writable: bool,
}

/// A live account handed to the current call: its address and the authority
/// that the runtime granted it.
#[derive(Clone, Copy, Debug)]
pub struct AccountRef {
    pub key: Address,
    pub is_signer: bool,
    pub is_writable: bool,
}

/// What an account meta says: an address and two flags.
pub struct MetaView {
    pub key: Seq<u8>,
    pub is_signer: bool,
    pub is_writable: bool,
}

impl View for AccountMeta {
    type V = MetaView;

    open spec fn view(&self) -> MetaView {
        MetaView { key: self.pubkey@, is_signer: self.is_signer, is_writable: self.is_writable }
    }
}

/// The views of a list of account metas.
pub open spec fn metas_view(metas: Seq<AccountMeta>) -> Seq<MetaView> {
    metas.map_values(|m: AccountMeta| m@)
}

/// The addresses of a list of meta views, in order.
pub open spec fn keys_of_views(metas: Seq<MetaView>) -> Seq<Seq<u8>> {
    metas.map_values(|m: MetaView| m.key)
}

impl AccountMeta {
    /// A read-only reference to `pubkey`.
    pub fn new_readonly(pubkey: Address, is_signer: bool) -> (r: AccountMeta)
        ensures
            r.pubkey@ == pubkey@,
            r.is_signer == is_signer,
            !r.is_writable,
    {
        AccountMeta { pubkey, is_signer, is_writable: false }
    }
}

/// Address equality, byte by byte.
pub fn same_address(a: &Address, b: &Address) -> (r: bool)
    ensures
        r == (a@ == b@),
{
    let mut i: usize = 0;
    while i < 32
        invariant
            0 <= i <= 32,
            a@.len() == 32,
            b@.len() == 32,
            forall|j: int| 0 <= j < i ==> a@[j] == b@[j],
        decreases 32 - i,
    {
        if a[i] != b[i] {
            return false;
        }
        i = i + 1;
    }
    assert(a@ =~= b@);
    true
}

/// The 32 bytes of an address, as a vector.
pub fn address_bytes(a: &Address) -> (r: Vec<u8>)
    ensures
        r@ == a@,
{
    let mut out: Vec<u8> = Vec::new();
    let mut k: usize = 0;
    while k < 32
        invariant
            0 <= k <= 32,
            a@.len() == 32,
            out@ == a@.subrange(0, k as int),
        decreases 32 - k,
    {
        out.push(a[k]);
        k = k + 1;
        assert(out@ =~= a@.subrange(0, k as int));
    }
    assert(out@ =~= a@);
    out
}

/// The addresses of a list of supplied accounts, in order.
pub open spec fn keys_of_refs(accounts: Seq<AccountRef>) -> Seq<Seq<u8>> {
    accounts.map_values(|a: AccountRef| a.key@)
}

/// A copy of a list of account metas.
pub fn copy_metas(v: &Vec<AccountMeta>) -> (r: Vec<AccountMeta>)
    ensures
        r@ == v@,
{
    let mut out: Vec<AccountMeta> = Vec::new();
    let mut k: usize = 0;
    while k < v.len()
        invariant
            0 <= k <= v@.len(),
            out@ == v@.subrange(0, k as int),
        decreases v@.len() - k,
    {
        out.push(v[k]);
        k = k + 1;
        assert(out@ =~= v@.subrange(0, k as int));
    }
    assert(out@ =~= v@);
    out
}

/// A copy of a list of supplied accounts.
pub fn copy_refs(v: &Vec<AccountRef>) -> (r: Vec<AccountRef>)
    ensures
        r@ == v@,
{
    let mut out: Vec<AccountRef> = Vec::new();
    let mut k: usize = 0;
    while k < v.len()
        invariant
            0 <= k <= v@.len(),
            out@ == v@.subrange(0, k as int),
        decreases v@.len() - k,
    {
        out.push(v[k]);
        k = k + 1;
        assert(out@ =~= v@.subrange(0, k as int));
    }
    assert(out@ =~= v@);
    out
}

/// Position of the first account with the given address, if any.
#[verifier::opaque]
pub open spec fn first_index_of(accounts: Seq<AccountRef>, key: Seq<u8>) -> Option<int> {
    if exists|i: int| 0 <= i < accounts.len() && accounts[i].key@ == key {
        let i = choose|i: int|
            0 <= i < accounts.len() && accounts[i].key@ == key && forall|j: int|
                0 <= j < i ==> accounts[j].key@ != key;
        Some(i)
    } else {
        None
    }
}

/// The position that `first_index_of` names holds the address.
pub proof fn lemma_first_index_key(accounts: Seq<AccountRef>, key: Seq<u8>)
    requires
        first_index_of(accounts, key) is Some,
    ensures
        0 <= first_index_of(accounts, key)->Some_0 < accounts.len(),
        accounts[first_index_of(accounts, key)->Some_0].key@ == key,
{
    reveal(first_index_of);
    let i = choose|i: int| 0 <= i < accounts.len() && accounts[i].key@ == key;
    lemma_first_exists(accounts, key, i);
}

/// Below any position holding the address lies a first one.
proof fn lemma_first_exists(accounts: Seq<AccountRef>, key: Seq<u8>, i: int)
    requires
        0 <= i < accounts.len(),
        accounts[i].key@ == key,
    ensures
        exists|f: int|
            0 <= f < accounts.len() && accounts[f].key@ == key && forall|j: int| 0 <= j < f ==> accounts[j].key@ != key,
    decreases i,
{
    if exists|j: int| 0 <= j < i && accounts[j].key@ == key {
        let j = choose|j: int| 0 <= j < i && accounts[j].key@ == key;
        lemma_first_exists(accounts, key, j);
    } else {
        assert(forall|j: int| 0 <= j < i ==> accounts[j].key@ != key);
    }
}

/// Finds the first supplied account with the given address.
pub fn find_account(accounts: &[AccountRef], key: &Address) -> (r: Option<usize>)
    ensures
        match r {
            Some(i) => i < accounts@.len() && accounts@[i as int].key@ == key@
                && forall|j: int| 0 <= j < i ==> accounts@[j].key@ != key@,
            None => forall|j: int| 0 <= j < accounts@.len() ==> accounts@[j].key@ != key@,
        },
{
    let mut i: usize = 0;
    while i < accounts.len()
        invariant
            0 <= i <= accounts@.len(),
            forall|j: int| 0 <= j < i ==> accounts@[j].key@ != key@,
        decreases accounts@.len() - i,
    {
        if same_address(&accounts[i].key, key) {
            return Some(i);
        }
        i = i + 1;
    }
    None
}

} // verus!
