//! Merkle index over the leaves of a store: one digest per key range.

use merkle_search_tree::digest::siphash::SipHasher;
use merkle_search_tree::MerkleSearchTree;
use vstd::prelude::*;
use vstd::string::*;

use crate::bytes::{
    append_bytes, be_bytes, law_be_round_trip, lemma_be_len, lemma_byte_ranges, push_be,
};
use crate::text::{
    base64_text, bytes_of_hex, hex_nibble, hex_of_bytes, law_hex_round_trip, nibble_value, push_hex_bytes,
};

verus! {

/// Tree of `merkle_search_tree` that orders its keys and digests their values.
#[verifier::external_type_specification]
#[verifier::external_body]
#[verifier::reject_recursive_types(K)]
#[verifier::reject_recursive_types(V)]
#[verifier::reject_recursive_types(H)]
pub struct ExMerkleSearchTree<K, V, H, const N: usize>(MerkleSearchTree<K, V, H, N>);

/// Hasher that the tree uses for keys and values.
#[verifier::external_type_specification]
#[verifier::external_body]
pub struct ExSipHasher(SipHasher);

/// Keys and values that were put into a tree, each key with its last value.
pub uninterp spec fn tree_leaves(tree: MerkleSearchTree<String, String, SipHasher, 16>) -> Map<
    Seq<char>,
    Seq<char>,
>;

/// No digest of a tree was asked for since it was made.
///
/// A tree keeps the page digests that it has computed, and putting a leaf in drops only those
/// of the pages that it finds changed. So what a tree shows after reads and writes in turn is
/// not said to depend on its leaves alone.
pub uninterp spec fn tree_is_unread(
    tree: MerkleSearchTree<String, String, SipHasher, 16>,
) -> bool;

/// Root digest of a tree with these leaves.
pub uninterp spec fn tree_root(leaves: Map<Seq<char>, Seq<char>>) -> Seq<u8>;

/// Pages of a tree with these leaves: first key, last key and digest.
pub uninterp spec fn tree_pages(leaves: Map<Seq<char>, Seq<char>>) -> Seq<
    (Seq<char>, Seq<char>, Seq<u8>),
>;

/// `MerkleSearchTree::default` makes a tree without leaves and without digests.
#[verifier::external_body]
fn empty_tree() -> (out: MerkleSearchTree<String, String, SipHasher, 16>)
    ensures
        tree_leaves(out).dom() == Set::<Seq<char>>::empty(),
        tree_is_unread(out),
{
    MerkleSearchTree::default()
}

/// `MerkleSearchTree::upsert` adds a key or replaces the value of one; it computes no page
/// digest.
#[verifier::external_body]
fn upsert_leaf(
    tree: &mut MerkleSearchTree<String, String, SipHasher, 16>,
    key: String,
    value: &String,
)
    ensures
        tree_leaves(*final(tree)) == tree_leaves(*old(tree)).insert(key@, value@),
        tree_is_unread(*old(tree)) ==> tree_is_unread(*final(tree)),
{
    tree.upsert(key, value);
}

/// `MerkleSearchTree::clone` copies the leaves, and the digests that were computed.
#[verifier::external_body]
fn copy_tree(tree: &MerkleSearchTree<String, String, SipHasher, 16>) -> (out: MerkleSearchTree<
    String,
    String,
    SipHasher,
    16,
>)
    ensures
        tree_leaves(out) == tree_leaves(*tree),
        tree_is_unread(*tree) ==> tree_is_unread(out),
{
    tree.clone()
}

/// `MerkleSearchTree::root_hash` gives the 16 bytes of the root digest. Where no digest was
/// computed before, the leaves determine it whatever the order in which they were put in.
#[verifier::external_body]
fn read_root(tree: MerkleSearchTree<String, String, SipHasher, 16>) -> (out: [u8; 16])
    requires
        tree_is_unread(tree),
    ensures
        out@ == tree_root(tree_leaves(tree)),
{
    let mut tree = tree;
    *tree.root_hash().as_bytes()
}

/// The `Display` form of what `MerkleSearchTree::root_hash` gives: the padded base64 text of
/// the root digest in the standard alphabet.
#[verifier::external_body]
fn read_root_text(tree: MerkleSearchTree<String, String, SipHasher, 16>) -> (out: String)
    requires
        tree_is_unread(tree),
    ensures
        out@ == base64_text(tree_root(tree_leaves(tree))),
{
    let mut tree = tree;
    tree.root_hash().to_string()
}

/// `MerkleSearchTree::serialise_page_ranges`, once `root_hash` has computed the digests,
/// lists the pages with them; the bounds are keys of the tree. Where no digest was computed
/// before, the leaves determine the list.
#[verifier::external_body]
fn read_pages(tree: MerkleSearchTree<String, String, SipHasher, 16>) -> (out: Vec<
    (String, String, Vec<u8>),
>)
    requires
        tree_is_unread(tree),
    ensures
        out@.len() == tree_pages(tree_leaves(tree)).len(),
        forall|i: int|
            #![trigger out@[i]]
            0 <= i < out@.len() ==> {
                &&& out@[i].0@ == tree_pages(tree_leaves(tree))[i].0
                &&& out@[i].1@ == tree_pages(tree_leaves(tree))[i].1
                &&& out@[i].2@ == tree_pages(tree_leaves(tree))[i].2
                &&& tree_leaves(tree).contains_key(out@[i].0@)
                &&& tree_leaves(tree).contains_key(out@[i].1@)
            },
{
    let mut tree = tree;
    let _ = tree.root_hash();
    let pages = tree.serialise_page_ranges().unwrap_or_default();
    pages
        .into_iter()
        .map(|page| (page.start().clone(), page.end().clone(), page.hash().as_ref().to_vec()))
        .collect()
}

/// Value stored in each leaf of the index.
///
/// Active leaves carry a register snapshot. Deleted leaves carry the tombstone sequence and
/// origin actor so two same-sequence tombstones from different actors do not hash as equal
/// before their metadata has converged.
#[derive(Clone, Debug, PartialEq, Eq)]
pub enum Entry<S> {
    Active(S),
    Deleted { ts: u64, origin_actor: Vec<u8> },
}

/// Collects the bytes that are hashed for one leaf.
#[derive(Clone, Debug, PartialEq, Eq)]
pub struct HashBytes(Vec<u8>);

impl View for HashBytes {
    type V = Seq<u8>;

    closed spec fn view(&self) -> Seq<u8> {
        self.0@
    }
}

impl HashBytes {
    /// Starts without bytes.
    pub fn new() -> (out: Self)
        ensures
            out@ == Seq::<u8>::empty(),
    {
        HashBytes(Vec::new())
    }

    /// Adds bytes to the end.
    pub fn write(&mut self, bytes: &[u8])
        ensures
            final(self)@ == old(self)@ + bytes@,
    {
        append_bytes(&mut self.0, bytes);
    }

    /// Adds the big-endian bytes of a number to the end.
    pub fn write_u64(&mut self, value: u64)
        ensures
            final(self)@ == old(self)@ + be_bytes(value as nat, 8),
    {
        push_be(&mut self.0, value as u128, 8);
    }

    /// Returns the collected bytes.
    pub fn as_slice(&self) -> (out: &[u8])
        ensures
            out@ == self@,
    {
        self.0.as_slice()
    }

    /// Hands the collected bytes out.
    pub fn into_bytes(self) -> (out: Vec<u8>)
        ensures
            out@ == self@,
    {
        self.0
    }
}

/// Bytes of an active leaf: a tag, then the snapshot's own bytes.
pub open spec fn active_leaf(payload: Seq<u8>) -> Seq<u8> {
    seq![0u8] + payload
}

/// Bytes of a deleted leaf: a tag, the sequence, and the origin actor with its length.
pub open spec fn deleted_leaf(ts: u64, origin_actor: Seq<u8>) -> Seq<u8> {
    seq![1u8] + be_bytes(ts as nat, 8) + be_bytes(origin_actor.len() as nat, 8) + origin_actor
}

/// Bytes of a leaf.
pub open spec fn entry_leaf(entry: Entry<Vec<u8>>) -> Seq<u8> {
    match entry {
        Entry::Active(payload) => active_leaf(payload@),
        Entry::Deleted { ts, origin_actor } => deleted_leaf(ts, origin_actor@),
    }
}

/// Returns the canonical bytes of one leaf: a tag byte and a payload in a
/// fixed-endian encoding.
pub fn leaf_bytes(entry: &Entry<Vec<u8>>) -> (out: Vec<u8>)
    ensures
        out@ == entry_leaf(*entry),
{
    let mut sink = HashBytes::new();
    match entry {
        Entry::Active(payload) => {
            sink.write(&[0]);
            sink.write(payload);
            proof { assert(sink@ =~= active_leaf(payload@)); }
        },
        Entry::Deleted { ts, origin_actor } => {
            sink.write(&[1]);
            sink.write_u64(*ts);
            sink.write_u64(origin_actor.len() as u64);
            sink.write(origin_actor);
            proof { assert(sink@ =~= deleted_leaf(*ts, origin_actor@)); }
        },
    }
    sink.into_bytes()
}

/// Different leaves never have the same bytes.
pub proof fn law_leaf_bytes_are_unambiguous(
    ts_a: u64,
    actor_a: Seq<u8>,
    ts_b: u64,
    actor_b: Seq<u8>,
    payload_a: Seq<u8>,
    payload_b: Seq<u8>,
)
    ensures
        deleted_leaf(ts_a, actor_a) == deleted_leaf(ts_b, actor_b) <==> ts_a == ts_b && actor_a
            == actor_b,
        active_leaf(payload_a) == active_leaf(payload_b) <==> payload_a == payload_b,
        active_leaf(payload_a) != deleted_leaf(ts_a, actor_a),
{
    let a = deleted_leaf(ts_a, actor_a);
    let b = deleted_leaf(ts_b, actor_b);
    lemma_byte_ranges();
    law_be_round_trip(ts_a as nat, 8);
    law_be_round_trip(ts_b as nat, 8);
    lemma_be_len(actor_a.len() as nat, 8);
    lemma_be_len(actor_b.len() as nat, 8);
    if a == b {
        assert(a.subrange(1, 9) =~= be_bytes(ts_a as nat, 8));
        assert(b.subrange(1, 9) =~= be_bytes(ts_b as nat, 8));
        assert(a.skip(17) =~= actor_a);
        assert(b.skip(17) =~= actor_b);
    }
    if active_leaf(payload_a) == active_leaf(payload_b) {
        assert(active_leaf(payload_a).skip(1) =~= payload_a);
        assert(active_leaf(payload_b).skip(1) =~= payload_b);
    }
    assert(active_leaf(payload_a)[0] == 0u8);
    assert(a[0] == 1u8);
}

/// Text under which a key stands in the tree. The tree's hasher sees a text as its bytes and
/// an end mark, on every machine, where it would see a list of bytes with a length as wide as
/// the machine's words.
pub open spec fn key_text(key: u128) -> Seq<char> {
    hex_of_bytes(be_bytes(key as nat, 16))
}

/// Key that stands in the tree under a text.
pub open spec fn key_of_text(text: Seq<char>) -> u128 {
    choose|key: u128| key_text(key) == text
}

/// Leaves of a tree that indexes the given leaf bytes.
pub open spec fn text_leaves(leaves: Map<u128, Seq<u8>>) -> Map<Seq<char>, Seq<char>> {
    Map::new(
        |text: Seq<char>|
            text == key_text(key_of_text(text)) && leaves.contains_key(key_of_text(text)),
        |text: Seq<char>| hex_of_bytes(leaves[key_of_text(text)]),
    )
}

/// Root digest of an index with the given leaf bytes.
pub open spec fn index_root(leaves: Map<u128, Seq<u8>>) -> Seq<u8> {
    tree_root(text_leaves(leaves))
}

/// Root digest of an index with the given leaf bytes, as base64 text.
pub open spec fn index_root_text(leaves: Map<u128, Seq<u8>>) -> Seq<char> {
    base64_text(index_root(leaves))
}

/// Pages of an index with the given leaf bytes.
pub open spec fn index_pages(leaves: Map<u128, Seq<u8>>) -> Seq<(Seq<char>, Seq<char>, Seq<u8>)> {
    tree_pages(text_leaves(leaves))
}

/// Different keys stand under different texts.
pub proof fn lemma_key_text_injective(a: u128, b: u128)
    ensures
        key_text(a) == key_text(b) ==> a == b,
        key_of_text(key_text(a)) == a,
{
    lemma_key_text_one(a, b);
    lemma_key_text_one(key_of_text(key_text(a)), a);
}

/// One text stands for one key.
proof fn lemma_key_text_one(a: u128, b: u128)
    ensures
        key_text(a) == key_text(b) ==> a == b,
{
    lemma_byte_ranges();
    law_be_round_trip(a as nat, 16);
    law_be_round_trip(b as nat, 16);
    law_hex_round_trip(be_bytes(a as nat, 16));
    law_hex_round_trip(be_bytes(b as nat, 16));
}

/// Putting one leaf in changes exactly its text.
proof fn lemma_text_leaves_insert(leaves: Map<u128, Seq<u8>>, key: u128, leaf: Seq<u8>)
    ensures
        text_leaves(leaves.insert(key, leaf)) == text_leaves(leaves).insert(
            key_text(key),
            hex_of_bytes(leaf),
        ),
{
    let more = leaves.insert(key, leaf);
    lemma_key_text_injective(key, key);
    assert(text_leaves(more) =~= text_leaves(leaves).insert(key_text(key), hex_of_bytes(leaf)));
}

/// Summary of a page: the inclusive [start, end] key bounds (raw bytes) and the page digest.
#[derive(Clone, Debug, PartialEq, Eq)]
pub struct PageDigestRange {
    pub start: Vec<u8>,
    pub end: Vec<u8>,
    pub hash: Vec<u8>,
}

/// The summary shows the bounds and the digest of a page.
pub open spec fn shows_page(range: PageDigestRange, page: (Seq<char>, Seq<char>, Seq<u8>)) -> bool {
    &&& hex_of_bytes(range.start@) == page.0
    &&& hex_of_bytes(range.end@) == page.1
    &&& range.hash@ == page.2
}

/// The summaries show all pages in order.
pub open spec fn shows_pages(
    ranges: Seq<PageDigestRange>,
    pages: Seq<(Seq<char>, Seq<char>, Seq<u8>)>,
) -> bool {
    &&& ranges.len() == pages.len()
    &&& forall|i: int|
        #![trigger ranges[i]]
        0 <= i < ranges.len() ==> shows_page(ranges[i], pages[i])
}

/// Merkle index of leaf bytes by key.
pub struct MerkleIndex {
    tree: MerkleSearchTree<String, String, SipHasher, 16>,
    leaves: Ghost<Map<u128, Seq<u8>>>,
}

impl View for MerkleIndex {
    type V = Map<u128, Seq<u8>>;

    closed spec fn view(&self) -> Map<u128, Seq<u8>> {
        self.leaves@
    }
}

impl MerkleIndex {
    /// The tree holds exactly the leaves of the index, and only copies of it are read.
    #[verifier::type_invariant]
    spec fn well_formed(&self) -> bool {
        tree_leaves(self.tree) == text_leaves(self.leaves@) && tree_is_unread(self.tree)
    }

    /// Makes an index without leaves.
    pub fn new() -> (out: Self)
        ensures
            out@ == Map::<u128, Seq<u8>>::empty(),
    {
        let tree = empty_tree();
        proof {
            assert(text_leaves(Map::<u128, Seq<u8>>::empty()) =~= tree_leaves(tree));
        }
        MerkleIndex { tree, leaves: Ghost(Map::empty()) }
    }

    /// Adds or replaces the leaf of one key.
    pub fn upsert(&mut self, key: u128, entry: &Entry<Vec<u8>>)
        ensures
            final(self)@ == old(self)@.insert(key, entry_leaf(*entry)),
    {
        proof { use_type_invariant(&*self); }
        let ghost before = self.leaves@;
        let leaf = leaf_bytes(entry);
        let mut bytes: Vec<u8> = Vec::new();
        push_be(&mut bytes, key, 16);
        let mut name = String::new();
        push_hex_bytes(&mut name, &bytes);
        let mut value = String::new();
        push_hex_bytes(&mut value, &leaf);
        proof {
            assert(bytes@ =~= be_bytes(key as nat, 16));
            assert(name@ =~= key_text(key));
            assert(value@ =~= hex_of_bytes(leaf@));
            lemma_text_leaves_insert(before, key, leaf@);
        }
        let mut index = MerkleIndex::new();
        std::mem::swap(&mut index, self);
        let MerkleIndex { mut tree, leaves: _ } = index;
        upsert_leaf(&mut tree, name, &value);
        *self = MerkleIndex { tree, leaves: Ghost(before.insert(key, leaf@)) };
    }

    /// Returns the root digest.
    pub fn root_digest(&self) -> (out: [u8; 16])
        ensures
            out@ == index_root(self@),
    {
        proof { use_type_invariant(self); }
        read_root(copy_tree(&self.tree))
    }

    /// Returns the root digest as text.
    pub fn root_text(&self) -> (out: String)
        ensures
            out@ == index_root_text(self@),
    {
        proof { use_type_invariant(self); }
        read_root_text(copy_tree(&self.tree))
    }

    /// Returns the page summaries.
    pub fn page_ranges(&self) -> (out: Vec<PageDigestRange>)
        ensures
            shows_pages(out@, index_pages(self@)),
    {
        proof { use_type_invariant(self); }
        let ghost before = self.leaves@;
        let pages = read_pages(copy_tree(&self.tree));
        let mut out: Vec<PageDigestRange> = Vec::new();
        let mut i: usize = 0;
        while i < pages.len()
            invariant
                i <= pages.len(),
                pages@.len() == index_pages(before).len(),
                forall|k: int|
                    #![trigger pages@[k]]
                    0 <= k < pages@.len() ==> {
                        &&& pages@[k].0@ == index_pages(before)[k].0
                        &&& pages@[k].1@ == index_pages(before)[k].1
                        &&& pages@[k].2@ == index_pages(before)[k].2
                        &&& text_leaves(before).contains_key(pages@[k].0@)
                        &&& text_leaves(before).contains_key(pages@[k].1@)
                    },
                out@.len() == i,
                forall|k: int|
                    #![trigger out@[k]]
                    0 <= k < i ==> shows_page(out@[k], index_pages(before)[k]),
            decreases pages.len() - i,
        {
            let page = &pages[i];
            proof {
                assert(pages@[i as int].0@ == key_text(key_of_text(pages@[i as int].0@)));
                assert(pages@[i as int].1@ == key_text(key_of_text(pages@[i as int].1@)));
            }
            let ghost first = be_bytes(key_of_text(page.0@) as nat, 16);
            let ghost last = be_bytes(key_of_text(page.1@) as nat, 16);
            let start = read_hex(&page.0, Ghost(first));
            let end = read_hex(&page.1, Ghost(last));
            let hash = crate::bytes::copy_bytes(&page.2);
            out.push(PageDigestRange { start, end, hash });
            i += 1;
        }
        out
    }
}

/// Reads the byte string that a hexadecimal text was written from.
fn read_hex(text: &String, bytes: Ghost<Seq<u8>>) -> (out: Vec<u8>)
    requires
        text@ == hex_of_bytes(bytes@),
    ensures
        out@ == bytes@,
{
    let digits = text.as_str().as_bytes();
    let ghost raw = Seq::new(2 * bytes@.len(), |i: int| text@[i] as u8);
    proof {
        law_hex_round_trip(bytes@);
        assert(vstd::utf8::is_ascii_chars(text@)) by {
            assert forall|i: int| 0 <= i < text@.len() implies '\0' <= #[trigger] text@[i]
                <= '\u{7f}' by {
                assert(nibble_value(hex_of_bytes(bytes@)[i] as u8) is Some);
            }
        }
        vstd::utf8::is_ascii_chars_encode_utf8(text@);
        assert(digits@ =~= raw);
    }
    let mut out: Vec<u8> = Vec::new();
    let mut i: usize = 0;
    while i + 1 < digits.len()
        invariant
            i <= digits.len(),
            i % 2 == 0,
            digits@.len() == 2 * bytes@.len(),
            digits@ == raw,
            bytes_of_hex(raw) == bytes@,
            forall|k: int|
                #![trigger digits@[k]]
                0 <= k < digits@.len() ==> nibble_value(digits@[k]) is Some,
            out@.len() == i / 2,
            forall|k: int| #![trigger out@[k]] 0 <= k < out@.len() ==> out@[k] == bytes@[k],
        decreases digits.len() - i,
    {
        proof {
            assert(nibble_value(digits@[i as int]) is Some);
            assert(nibble_value(digits@[i + 1]) is Some);
            assert(bytes_of_hex(raw)[i as int / 2] == bytes@[i as int / 2]);
            assert(2 * (i as int / 2) == i);
        }
        let high: u8 = match hex_nibble(digits[i]) {
            Some(value) => value,
            None => 0,
        };
        let low: u8 = match hex_nibble(digits[i + 1]) {
            Some(value) => value,
            None => 0,
        };
        out.push(high * 16 + low);
        i += 2;
    }
    proof { assert(out@ =~= bytes@); }
    out
}

} // verus!
