//! 256-bit digests: the hash function, the order on digests, and the
//! domain-separated hashing of leaves and internal nodes.

use vstd::prelude::*;

verus! {

/// The SHA-256 digest of a byte string.
///
/// Nothing is assumed of this function beyond being a function: every
/// statement in this crate that mentions a digest holds for any hash.
pub uninterp spec fn sha256(data: Seq<u8>) -> Seq<u8>;

/// Calls `solana_program::hash::hashv` on the single slice `data` and
/// returns the bytes of the resulting `Hash`. The contract claims only that
/// the result is the SHA-256 digest of `data`, which is what `sha256` names.
#[verifier::external_body]
pub(crate) fn sha256_bytes(data: &Vec<u8>) -> (out: [u8; 32])
    ensures
        out@ == sha256(data@),
{
    solana_program::hash::hashv(&[data.as_slice()]).to_bytes()
}

/// Lexicographic `a <= b` on byte strings, deciding from position `i` on.
pub open spec fn lex_le_from(a: Seq<u8>, b: Seq<u8>, i: int) -> bool
    decreases a.len() - i,
{
    if i < 0 || i >= a.len() || i >= b.len() {
        a.len() <= b.len()
    } else if a[i] != b[i] {
        a[i] < b[i]
    } else {
        lex_le_from(a, b, i + 1)
    }
}

/// Lexicographic `a <= b` on byte strings: the order in which two sibling
/// digests are arranged before they are hashed together.
pub open spec fn lex_le(a: Seq<u8>, b: Seq<u8>) -> bool {
    lex_le_from(a, b, 0)
}

/// The views of a sequence of digests.
pub open spec fn views(ds: Seq<[u8; 32]>) -> Seq<Seq<u8>> {
    Seq::new(ds.len(), |i: int| ds[i]@)
}

/// Preimage of an internal node: the prefix byte 1, then the two children.
pub open spec fn node_preimage(first: Seq<u8>, second: Seq<u8>) -> Seq<u8> {
    seq![1u8] + first + second
}

/// Digest of the internal node above two children, whatever their position:
/// the smaller child is hashed first.
pub open spec fn combine(a: Seq<u8>, b: Seq<u8>) -> Seq<u8> {
    if lex_le(a, b) {
        sha256(node_preimage(a, b))
    } else {
        sha256(node_preimage(b, a))
    }
}

/// Digest of a leaf in the tree: the prefix byte 0, then the hashed claim.
pub open spec fn leaf_wrap(inner: Seq<u8>) -> Seq<u8> {
    sha256(seq![0u8] + inner)
}

/// Folds a proof into a starting digest, one sibling at a time.
pub open spec fn fold_proof(start: Seq<u8>, proof: Seq<Seq<u8>>) -> Seq<u8>
    decreases proof.len(),
{
    if proof.len() == 0 {
        start
    } else {
        combine(fold_proof(start, proof.drop_last()), proof.last())
    }
}

/// Folding a proof that starts with `x` is folding the rest into the
/// combination of the start with `x`.
pub proof fn lemma_fold_first(start: Seq<u8>, x: Seq<u8>, rest: Seq<Seq<u8>>)
    ensures
        fold_proof(start, seq![x] + rest) == fold_proof(combine(start, x), rest),
    decreases rest.len(),
{
    let s = seq![x] + rest;
    if rest.len() == 0 {
        assert(s.drop_last() =~= Seq::<Seq<u8>>::empty());
        assert(s.last() == x);
        assert(fold_proof(start, s.drop_last()) == start);
    } else {
        assert(s.drop_last() =~= seq![x] + rest.drop_last());
        assert(s.last() == rest.last());
        lemma_fold_first(start, x, rest.drop_last());
    }
}

/// Folding two proofs one after the other is folding their concatenation.
pub proof fn lemma_fold_concat(start: Seq<u8>, a: Seq<Seq<u8>>, b: Seq<Seq<u8>>)
    ensures
        fold_proof(start, a + b) == fold_proof(fold_proof(start, a), b),
    decreases b.len(),
{
    if b.len() == 0 {
        assert(a + b =~= a);
    } else {
        assert((a + b).drop_last() =~= a + b.drop_last());
        assert((a + b).last() == b.last());
        lemma_fold_concat(start, a, b.drop_last());
    }
}

/// Of two byte strings one is below or equal to the other.
pub proof fn lemma_lex_total(a: Seq<u8>, b: Seq<u8>, i: int)
    ensures
        lex_le_from(a, b, i) || lex_le_from(b, a, i),
    decreases a.len() - i,
{
    if i < 0 || i >= a.len() || i >= b.len() {
    } else if a[i] != b[i] {
    } else {
        lemma_lex_total(a, b, i + 1);
    }
}

/// Two byte strings that are below or equal to each other are equal.
pub proof fn lemma_lex_antisymmetric(a: Seq<u8>, b: Seq<u8>, i: int)
    requires
        0 <= i,
        forall|j: int| 0 <= j < i && j < a.len() && j < b.len() ==> a[j] == b[j],
        lex_le_from(a, b, i),
        lex_le_from(b, a, i),
    ensures
        a == b,
    decreases a.len() - i,
{
    if i >= a.len() || i >= b.len() {
        assert(a =~= b);
    } else if a[i] != b[i] {
    } else {
        lemma_lex_antisymmetric(a, b, i + 1);
    }
}

/// The parent of two digests does not depend on which is left and which is
/// right.
pub proof fn lemma_combine_commutes(a: Seq<u8>, b: Seq<u8>)
    ensures
        combine(a, b) == combine(b, a),
{
    lemma_lex_total(a, b, 0);
    if lex_le(a, b) && lex_le(b, a) {
        lemma_lex_antisymmetric(a, b, 0);
    }
}

/// Two different byte strings with the same digest.
pub open spec fn collides(a: Seq<u8>, b: Seq<u8>) -> bool {
    a != b && sha256(a) == sha256(b)
}

/// Whether the hash function has a collision at all.
pub open spec fn collision_exists() -> bool {
    exists|a: Seq<u8>, b: Seq<u8>| collides(a, b)
}

/// Every digest has 32 bytes.
pub open spec fn digests_sized() -> bool {
    forall|data: Seq<u8>| (#[trigger] sha256(data)).len() == 32
}

/// The two children can be read back from the preimage of their parent.
pub proof fn lemma_preimage_parts(first: Seq<u8>, second: Seq<u8>)
    requires
        first.len() == 32,
        second.len() == 32,
    ensures
        node_preimage(first, second).subrange(1, 33) == first,
        node_preimage(first, second).subrange(33, 65) == second,
{
    assert(node_preimage(first, second).subrange(1, 33) =~= first);
    assert(node_preimage(first, second).subrange(33, 65) =~= second);
}

/// Two pairs of digests with the same parent are the same pair, in one order
/// or the other, unless the hash function has a collision.
pub proof fn lemma_same_parent(a: Seq<u8>, b: Seq<u8>, c: Seq<u8>, d: Seq<u8>)
    requires
        a.len() == 32,
        b.len() == 32,
        c.len() == 32,
        d.len() == 32,
        combine(a, b) == combine(c, d),
    ensures
        collision_exists() || (a == c && b == d) || (a == d && b == c),
{
    let p = if lex_le(a, b) {
        a
    } else {
        b
    };
    let q = if lex_le(a, b) {
        b
    } else {
        a
    };
    let r = if lex_le(c, d) {
        c
    } else {
        d
    };
    let s = if lex_le(c, d) {
        d
    } else {
        c
    };
    let x = node_preimage(p, q);
    let y = node_preimage(r, s);
    if x != y {
        assert(collides(x, y));
    } else {
        lemma_preimage_parts(p, q);
        lemma_preimage_parts(r, s);
    }
}

/// Folding a proof into a digest gives a digest.
pub proof fn lemma_fold_sized(start: Seq<u8>, proof: Seq<Seq<u8>>)
    requires
        digests_sized(),
        start.len() == 32,
    ensures
        fold_proof(start, proof).len() == 32,
{
}

/// Folding the same proof into two different digests gives two different
/// digests, unless the hash function has a collision.
pub proof fn lemma_fold_distinguishes(y: Seq<u8>, a: Seq<u8>, rest: Seq<Seq<u8>>)
    requires
        digests_sized(),
        y.len() == 32,
        a.len() == 32,
        forall|j: int| 0 <= j < rest.len() ==> (#[trigger] rest[j]).len() == 32,
        y != a,
    ensures
        fold_proof(y, rest) != fold_proof(a, rest) || collision_exists(),
    decreases rest.len(),
{
    if rest.len() > 0 {
        let shorter = rest.drop_last();
        lemma_fold_distinguishes(y, a, shorter);
        let u = fold_proof(y, shorter);
        let v = fold_proof(a, shorter);
        lemma_fold_sized(y, shorter);
        lemma_fold_sized(a, shorter);
        let t = rest.last();
        assert(t.len() == 32);
        if u != v && combine(u, t) == combine(v, t) {
            lemma_same_parent(u, t, v, t);
        }
    }
}

/// Whether two digests hold the same bytes.
pub fn digest_eq(a: &[u8; 32], b: &[u8; 32]) -> (r: bool)
    ensures
        r == (a@ == b@),
{
    let mut i: usize = 0;
    while i < 32
        invariant
            i <= 32,
            forall|j: int| 0 <= j < i ==> a@[j] == b@[j],
        decreases 32 - i,
    {
        if a[i] != b[i] {
            return false;
        }
        i += 1;
    }
    assert(a@ =~= b@);
    true
}

/// Whether `a` comes before or equals `b` in lexicographic order.
pub fn digest_le(a: &[u8; 32], b: &[u8; 32]) -> (r: bool)
    ensures
        r == lex_le(a@, b@),
{
    let mut i: usize = 0;
    while i < 32
        invariant
            i <= 32,
            lex_le(a@, b@) == lex_le_from(a@, b@, i as int),
        decreases 32 - i,
    {
        if a[i] != b[i] {
            return a[i] < b[i];
        }
        i += 1;
    }
    true
}

/// Appends the bytes of `d` to `buf`.
pub fn push_digest(buf: &mut Vec<u8>, d: &[u8; 32])
    ensures
        final(buf)@ == old(buf)@ + d@,
{
    let mut i: usize = 0;
    while i < 32
        invariant
            i <= 32,
            buf@ == old(buf)@ + d@.take(i as int),
        decreases 32 - i,
    {
        buf.push(d[i]);
        assert(d@.take(i + 1) =~= d@.take(i as int).push(d@[i as int]));
        assert(buf@ =~= old(buf)@ + d@.take(i + 1));
        i += 1;
    }
    assert(d@.take(32) =~= d@);
}

/// Hashes two sibling digests into their parent, smaller sibling first.
pub fn hash_pair(a: &[u8; 32], b: &[u8; 32]) -> (out: [u8; 32])
    ensures
        out@ == combine(a@, b@),
{
    let mut buf: Vec<u8> = Vec::new();
    buf.push(1u8);
    assert(buf@ =~= seq![1u8]);
    if digest_le(a, b) {
        push_digest(&mut buf, a);
        push_digest(&mut buf, b);
    } else {
        push_digest(&mut buf, b);
        push_digest(&mut buf, a);
    }
    sha256_bytes(&buf)
}

/// Hashes the digest of a claim into the digest of its leaf.
pub fn hash_leaf(inner: &[u8; 32]) -> (out: [u8; 32])
    ensures
        out@ == leaf_wrap(inner@),
{
    let mut buf: Vec<u8> = Vec::new();
    buf.push(0u8);
    assert(buf@ =~= seq![0u8]);
    push_digest(&mut buf, inner);
    sha256_bytes(&buf)
}

} // verus!
