use vstd::prelude::*;

verus! {

/// An asset identifier: the raw bytes of the identity under which the custody
/// collaborator knows the asset. The engine reads only equality and a total
/// order on these bytes; rendering them for address derivation belongs to the
/// addressing collaborator.
#[derive(Clone, Debug)]
pub struct AssetId {
    pub bytes: Vec<u8>,
}

impl View for AssetId {
    type V = Seq<u8>;

    open spec fn view(&self) -> Seq<u8> {
        self.bytes@
    }
}

/// Strict lexicographic order on byte strings: the total order under which an
/// asset pair is put into canonical order.
pub open spec fn lex_lt(a: Seq<u8>, b: Seq<u8>) -> bool
    decreases b.len(),
{
    if b.len() == 0 {
        false
    } else if a.len() == 0 {
        true
    } else {
        a[0] < b[0] || (a[0] == b[0] && lex_lt(a.skip(1), b.skip(1)))
    }
}

proof fn lemma_lex_skip_step(x: Seq<u8>, y: Seq<u8>, i: int)
    requires
        0 <= i < x.len(),
        i < y.len(),
        x[i] == y[i],
    ensures
        lex_lt(x.skip(i), y.skip(i)) == lex_lt(x.skip(i + 1), y.skip(i + 1)),
{
    let xs = x.skip(i);
    let ys = y.skip(i);
    assert(xs[0] == x[i]);
    assert(ys[0] == y[i]);
    assert(xs.skip(1) =~= x.skip(i + 1));
    assert(ys.skip(1) =~= y.skip(i + 1));
}

proof fn lemma_lex_skip_head(x: Seq<u8>, y: Seq<u8>, i: int)
    requires
        0 <= i < x.len(),
        i < y.len(),
        x[i] != y[i],
    ensures
        lex_lt(x.skip(i), y.skip(i)) == (x[i] < y[i]),
{
    let xs = x.skip(i);
    let ys = y.skip(i);
    assert(xs[0] == x[i]);
    assert(ys[0] == y[i]);
}

proof fn lemma_lex_skip_end(x: Seq<u8>, y: Seq<u8>, i: int)
    requires
        0 <= i <= x.len(),
        i <= y.len(),
        i == x.len() || i == y.len(),
    ensures
        lex_lt(x.skip(i), y.skip(i)) == (i == x.len() && i < y.len()),
{
    let xs = x.skip(i);
    let ys = y.skip(i);
    assert(xs.len() == x.len() - i);
    assert(ys.len() == y.len() - i);
}

/// The order is asymmetric: at most one of two identifiers orders first.
pub proof fn lemma_lex_asymmetric(a: Seq<u8>, b: Seq<u8>)
    requires
        lex_lt(a, b),
    ensures
        !lex_lt(b, a),
    decreases b.len(),
{
    if a.len() > 0 && b.len() > 0 && a[0] == b[0] {
        lemma_lex_asymmetric(a.skip(1), b.skip(1));
    }
}

/// The order is connected: identifiers that order neither way are equal.
pub proof fn lemma_lex_connected(a: Seq<u8>, b: Seq<u8>)
    requires
        !lex_lt(a, b),
        !lex_lt(b, a),
    ensures
        a =~= b,
    decreases b.len(),
{
    if a.len() > 0 && b.len() > 0 {
        assert(a[0] == b[0]);
        lemma_lex_connected(a.skip(1), b.skip(1));
        assert forall|i: int| 0 <= i < a.len() implies a[i] == b[i] by {
            if i > 0 {
                assert(a[i] == a.skip(1)[i - 1]);
                assert(b[i] == b.skip(1)[i - 1]);
            }
        }
        assert(a =~= b);
    }
}

/// Whether `a` orders strictly after `b`; this is the comparison by which a
/// pool's asset pair is put into canonical order.
pub fn asset_gt(a: &AssetId, b: &AssetId) -> (r: bool)
    ensures
        r == lex_lt(b@, a@),
{
    let alen = a.bytes.len();
    let blen = b.bytes.len();
    let mut i: usize = 0;
    proof {
        assert(a@.skip(0) =~= a@);
        assert(b@.skip(0) =~= b@);
    }
    while i < alen && i < blen
        invariant
            alen == a.bytes.len(),
            blen == b.bytes.len(),
            i <= alen,
            i <= blen,
            lex_lt(b@, a@) == lex_lt(b@.skip(i as int), a@.skip(i as int)),
        decreases alen - i,
    {
        let x = a.bytes[i];
        let y = b.bytes[i];
        if x != y {
            proof {
                lemma_lex_skip_head(b@, a@, i as int);
            }
            return y < x;
        }
        proof {
            lemma_lex_skip_step(b@, a@, i as int);
        }
        i = i + 1;
    }
    proof {
        lemma_lex_skip_end(b@, a@, i as int);
    }
    i < alen
}

/// Whether two identifiers are byte-for-byte equal.
pub fn asset_eq(a: &AssetId, b: &AssetId) -> (r: bool)
    ensures
        r == (a@ == b@),
{
    let alen = a.bytes.len();
    let blen = b.bytes.len();
    if alen != blen {
        return false;
    }
    let mut i: usize = 0;
    while i < alen
        invariant
            alen == a.bytes.len(),
            alen == b.bytes.len(),
            i <= alen,
            forall|j: int| 0 <= j < i ==> a@[j] == b@[j],
        decreases alen - i,
    {
        if a.bytes[i] != b.bytes[i] {
            return false;
        }
        i = i + 1;
    }
    proof {
        assert(a@ =~= b@);
    }
    true
}

/// The concatenation of two byte identities, used to build a pairing key.
pub fn concat_bytes(a: &Vec<u8>, b: &Vec<u8>) -> (r: Vec<u8>)
    ensures
        r@ == a@ + b@,
{
    let mut r: Vec<u8> = Vec::new();
    let mut i: usize = 0;
    while i < a.len()
        invariant
            i <= a.len(),
            r@ =~= a@.take(i as int),
        decreases a.len() - i,
    {
        r.push(a[i]);
        proof {
            assert(r@ =~= a@.take(i as int + 1));
        }
        i = i + 1;
    }
    let mut j: usize = 0;
    while j < b.len()
        invariant
            j <= b.len(),
            r@ =~= a@ + b@.take(j as int),
        decreases b.len() - j,
    {
        r.push(b[j]);
        proof {
            assert(r@ =~= a@ + b@.take(j as int + 1));
        }
        j = j + 1;
    }
    proof {
        assert(r@ =~= a@ + b@);
    }
    r
}

} // verus!
