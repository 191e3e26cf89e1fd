//! Value types shared by the queue store, the worker and the
//! re-encryption engine.
use vstd::prelude::*;

verus! {

/// Ledger account identifier.
pub type AccountId = u64;

/// Amount of currency bonded to a request.
pub type Balance = u128;

/// Identifier of a registered asset class.
pub type AssetId = u32;

/// Byte-wise equality of two byte vectors.
pub fn bytes_eq(a: &Vec<u8>, b: &Vec<u8>) -> (r: bool)
    ensures
        r == (a@ == b@),
{
    if a.len() != b.len() {
        return false;
    }
    let mut i: usize = 0;
    while i < a.len()
        invariant
            a@.len() == b@.len(),
            0 <= i <= a@.len(),
            forall|j: int| 0 <= j < i ==> a@[j] == b@[j],
        decreases a@.len() - i,
    {
        if a[i] != b[i] {
            return false;
        }
        i = i + 1;
    }
    assert(a@ =~= b@);
    true
}

/// A copy of a byte vector with the same contents.
pub fn copy_bytes(a: &Vec<u8>) -> (r: Vec<u8>)
    ensures
        r@ == a@,
{
    let r = a.clone();
    assert(r@ =~= a@);
    r
}

/// Abstract value of a list of byte strings.
pub open spec fn bytes_view(v: Seq<Vec<u8>>) -> Seq<Seq<u8>> {
    v.map_values(|a: Vec<u8>| a@)
}

/// Abstract value of an [`EncryptedFragment`].
pub struct EncryptedFragmentView {
    pub public_key: Seq<u8>,
    pub nonce: Seq<u8>,
    pub ciphertext: Seq<u8>,
}

/// One fragment of a split key, sealed for a single delegatee under an
/// ephemeral key pair.
pub struct EncryptedFragment {
    /// public half of the ephemeral key pair the fragment was sealed with
    pub public_key: Vec<u8>,
    /// nonce the fragment was sealed with
    pub nonce: Vec<u8>,
    /// the sealed fragment
    pub ciphertext: Vec<u8>,
}

impl View for EncryptedFragment {
    type V = EncryptedFragmentView;

    open spec fn view(&self) -> EncryptedFragmentView {
        EncryptedFragmentView {
            public_key: self.public_key@,
            nonce: self.nonce@,
            ciphertext: self.ciphertext@,
        }
    }
}

/// Abstract value of an [`IngestionCommand`].
pub struct IngestionCommandView {
    pub owner: AccountId,
    pub cid: Seq<u8>,
    pub multiaddress: Seq<u8>,
    pub estimated_size_gb: u128,
    pub balance: Balance,
}

/// A request that a custodian fetch the content `cid` from the network
/// locator `multiaddress` and register it as an asset of `owner`.
pub struct IngestionCommand {
    pub owner: AccountId,
    pub cid: Vec<u8>,
    pub multiaddress: Vec<u8>,
    pub estimated_size_gb: u128,
    pub balance: Balance,
}

impl View for IngestionCommand {
    type V = IngestionCommandView;

    open spec fn view(&self) -> IngestionCommandView {
        IngestionCommandView {
            owner: self.owner,
            cid: self.cid@,
            multiaddress: self.multiaddress@,
            estimated_size_gb: self.estimated_size_gb,
            balance: self.balance,
        }
    }
}

impl IngestionCommand {
    /// A structurally equal copy of this command.
    pub fn duplicate(&self) -> (r: IngestionCommand)
        ensures
            r@ == self@,
    {
        IngestionCommand {
            owner: self.owner,
            cid: copy_bytes(&self.cid),
            multiaddress: copy_bytes(&self.multiaddress),
            estimated_size_gb: self.estimated_size_gb,
            balance: self.balance,
        }
    }
}

impl PartialEq for IngestionCommand {
    fn eq(&self, other: &IngestionCommand) -> (r: bool) {
        self.owner == other.owner && self.estimated_size_gb == other.estimated_size_gb
            && self.balance == other.balance && bytes_eq(&self.cid, &other.cid) && bytes_eq(
            &self.multiaddress,
            &other.multiaddress,
        )
    }
}

impl vstd::std_specs::cmp::PartialEqSpecImpl for IngestionCommand {
    open spec fn obeys_eq_spec() -> bool {
        true
    }

    open spec fn eq_spec(&self, other: &IngestionCommand) -> bool {
        self@ == other@
    }
}

/// Abstract value of a sequence of commands.
pub open spec fn commands_view(s: Seq<IngestionCommand>) -> Seq<IngestionCommandView> {
    s.map_values(|c: IngestionCommand| c@)
}

/// Copies a queue of commands, entry by entry.
pub fn copy_commands(v: &Vec<IngestionCommand>) -> (r: Vec<IngestionCommand>)
    ensures
        commands_view(r@) == commands_view(v@),
{
    let mut r: Vec<IngestionCommand> = Vec::new();
    let mut i: usize = 0;
    while i < v.len()
        invariant
            0 <= i <= v@.len(),
            commands_view(r@) == commands_view(v@.subrange(0, i as int)),
        decreases v@.len() - i,
    {
        r.push(v[i].duplicate());
        proof {
            assert(v@.subrange(0, i + 1) =~= v@.subrange(0, i as int).push(v@[i as int]));
            assert(commands_view(v@.subrange(0, i + 1)) =~= commands_view(
                v@.subrange(0, i as int),
            ).push(v@[i as int]@));
        }
        i = i + 1;
        proof {
            assert(commands_view(r@) =~= commands_view(v@.subrange(0, i as int)));
        }
    }
    assert(v@.subrange(0, v@.len() as int) =~= v@);
    r
}

/// Removes the first command structurally equal to `c`; leaves the
/// queue unchanged when there is none.
pub fn remove_first(v: &mut Vec<IngestionCommand>, c: &IngestionCommand) -> (found: bool)
    ensures
        found == commands_view(old(v)@).contains(c@),
        commands_view(final(v)@) == commands_view(old(v)@).remove_value(c@),
{
    let ghost s = commands_view(v@);
    let mut i: usize = 0;
    while i < v.len()
        invariant
            v@ == old(v)@,
            s == commands_view(v@),
            0 <= i <= v@.len(),
            forall|j: int| 0 <= j < i ==> s[j] != c@,
        decreases v@.len() - i,
    {
        if v[i] == *c {
            proof {
                s.index_of_first_ensures(c@);
                assert(s[i as int] == c@);
                assert(s.contains(c@));
            }
            v.remove(i);
            proof {
                assert(commands_view(v@) =~= s.remove(i as int));
            }
            return true;
        }
        i = i + 1;
    }
    proof {
        s.index_of_first_ensures(c@);
        if s.contains(c@) {
            let k = choose|k: int| 0 <= k < s.len() && s[k] == c@;
            assert(s[k] == c@);
        }
    }
    false
}

/// Removing a value that a sequence does not hold leaves it unchanged.
pub proof fn lemma_remove_value_absent<A>(s: Seq<A>, a: A)
    requires
        !s.contains(a),
    ensures
        s.remove_value(a) == s,
{
    s.index_of_first_ensures(a);
}

/// Whether the queue `v` holds a command structurally equal to `c`.
pub fn contains_command(v: &Vec<IngestionCommand>, c: &IngestionCommand) -> (r: bool)
    ensures
        r == commands_view(v@).contains(c@),
{
    let ghost s = commands_view(v@);
    let mut i: usize = 0;
    while i < v.len()
        invariant
            s == commands_view(v@),
            0 <= i <= v@.len(),
            forall|j: int| 0 <= j < i ==> s[j] != c@,
        decreases v@.len() - i,
    {
        if v[i] == *c {
            assert(s[i as int] == c@);
            return true;
        }
        i = i + 1;
    }
    proof {
        if s.contains(c@) {
            let k = choose|k: int| 0 <= k < s.len() && s[k] == c@;
            assert(s[k] == c@);
        }
    }
    false
}

} // verus!
