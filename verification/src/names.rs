//! The order of column names.
//!
//! Names are ordered as `String` orders them: by the bytes of their UTF-8
//! encoding, lexicographically.

use vstd::prelude::*;
use vstd::utf8::*;

verus! {

/// How one name stands to another.
#[derive(Clone, Copy, Debug, PartialEq, Eq, Structural)]
pub enum NameOrder {
    Before,
    Same,
    After,
}

/// `a` and `b` agree on their first `k` bytes.
pub open spec fn common_prefix(a: Seq<u8>, b: Seq<u8>, k: int) -> bool {
    &&& 0 <= k <= a.len()
    &&& k <= b.len()
    &&& forall|i: int| 0 <= i < k ==> a[i] == b[i]
}

/// `a` and `b` agree on their first `k` bytes, and there `a` ends while `b`
/// goes on, or `a` holds the smaller byte.
pub open spec fn precedes_at(a: Seq<u8>, b: Seq<u8>, k: int) -> bool {
    &&& common_prefix(a, b, k)
    &&& k < b.len()
    &&& k < a.len() ==> a[k] < b[k]
}

/// Lexicographic order on byte strings, strict.
pub open spec fn bytes_lt(a: Seq<u8>, b: Seq<u8>) -> bool {
    exists|k: int| precedes_at(a, b, k)
}

/// The strict order of names.
pub open spec fn name_lt(a: Seq<char>, b: Seq<char>) -> bool {
    bytes_lt(encode_utf8(a), encode_utf8(b))
}

/// No byte string precedes itself.
pub proof fn lemma_bytes_lt_irreflexive(a: Seq<u8>)
    ensures
        !bytes_lt(a, a),
{
}

/// Of two byte strings at most one precedes the other.
pub proof fn lemma_bytes_lt_asymmetric(a: Seq<u8>, b: Seq<u8>)
    requires
        bytes_lt(a, b),
    ensures
        !bytes_lt(b, a),
{
    let k = choose|k: int| precedes_at(a, b, k);
    if bytes_lt(b, a) {
        let m = choose|m: int| precedes_at(b, a, m);
        if m < k {
            assert(a[m] == b[m]);
        } else if k < m {
            assert(b[k] == a[k]);
        }
    }
}

/// The order on byte strings is transitive.
pub proof fn lemma_bytes_lt_transitive(a: Seq<u8>, b: Seq<u8>, c: Seq<u8>)
    requires
        bytes_lt(a, b),
        bytes_lt(b, c),
    ensures
        bytes_lt(a, c),
{
    let k = choose|k: int| precedes_at(a, b, k);
    let m = choose|m: int| precedes_at(b, c, m);
    let n = if k <= m { k } else { m };
    assert forall|i: int| 0 <= i < n implies a[i] == c[i] by {
        assert(a[i] == b[i]);
        assert(b[i] == c[i]);
    }
    if k < m {
        assert(b[k] == c[k]);
    } else if m < k {
        assert(a[m] == b[m]);
    }
    assert(precedes_at(a, c, n));
}

/// Names with the same encoding are the same name.
pub proof fn lemma_encoding_injective(a: Seq<char>, b: Seq<char>)
    requires
        encode_utf8(a) == encode_utf8(b),
    ensures
        a == b,
{
    encode_utf8_decode_utf8(a);
    encode_utf8_decode_utf8(b);
}

/// No name precedes itself.
pub proof fn lemma_name_lt_irreflexive(a: Seq<char>)
    ensures
        !name_lt(a, a),
{
    lemma_bytes_lt_irreflexive(encode_utf8(a));
}

/// Of two names at most one precedes the other.
pub proof fn lemma_name_lt_asymmetric(a: Seq<char>, b: Seq<char>)
    requires
        name_lt(a, b),
    ensures
        !name_lt(b, a),
        a != b,
{
    lemma_bytes_lt_asymmetric(encode_utf8(a), encode_utf8(b));
    lemma_bytes_lt_irreflexive(encode_utf8(a));
}

/// The order of names is transitive.
pub proof fn lemma_name_lt_transitive(a: Seq<char>, b: Seq<char>, c: Seq<char>)
    requires
        name_lt(a, b),
        name_lt(b, c),
    ensures
        name_lt(a, c),
{
    lemma_bytes_lt_transitive(encode_utf8(a), encode_utf8(b), encode_utf8(c));
}

/// Compares two names.
pub fn name_order(a: &str, b: &str) -> (order: NameOrder)
    ensures
        order == NameOrder::Before <==> name_lt(a@, b@),
        order == NameOrder::Same <==> a@ == b@,
        order == NameOrder::After <==> name_lt(b@, a@),
{
    let x = a.as_bytes();
    let y = b.as_bytes();
    let ghost xs = encode_utf8(a@);
    let ghost ys = encode_utf8(b@);
    let mut i: usize = 0;
    while i < x.len() && i < y.len()
        invariant
            x@ == xs,
            y@ == ys,
            xs == encode_utf8(a@),
            ys == encode_utf8(b@),
            common_prefix(xs, ys, i as int),
        decreases x.len() - i,
    {
        if x[i] < y[i] {
            proof {
                assert(precedes_at(xs, ys, i as int));
                lemma_name_lt_asymmetric(a@, b@);
            }
            return NameOrder::Before;
        }
        if x[i] > y[i] {
            proof {
                assert(precedes_at(ys, xs, i as int));
                lemma_name_lt_asymmetric(b@, a@);
            }
            return NameOrder::After;
        }
        i += 1;
    }
    if i < y.len() {
        proof {
            assert(precedes_at(xs, ys, i as int));
            lemma_name_lt_asymmetric(a@, b@);
        }
        NameOrder::Before
    } else if i < x.len() {
        proof {
            assert(precedes_at(ys, xs, i as int));
            lemma_name_lt_asymmetric(b@, a@);
        }
        NameOrder::After
    } else {
        proof {
            assert(xs =~= ys);
            lemma_encoding_injective(a@, b@);
            lemma_name_lt_irreflexive(a@);
        }
        NameOrder::Same
    }
}

/// The names stand in strictly ascending order.
pub open spec fn names_ascending(names: Seq<Seq<char>>) -> bool {
    forall|i: int, j: int|
        0 <= i < j < names.len() ==> name_lt(#[trigger] names[i], #[trigger] names[j])
}

/// Two ascending sequences that hold the same names are the same sequence.
pub proof fn lemma_ascending_unique(x: Seq<Seq<char>>, y: Seq<Seq<char>>)
    requires
        names_ascending(x),
        names_ascending(y),
        forall|n: Seq<char>| x.contains(n) <==> y.contains(n),
    ensures
        x == y,
    decreases x.len(),
{
    if x.len() == 0 {
        if y.len() > 0 {
            assert(y.contains(y[0]));
        }
        assert(x =~= y);
    } else {
        assert(x.contains(x[0]));
        assert(y.contains(x[0]));
        let j = choose|j: int| 0 <= j < y.len() && y[j] == x[0];
        assert(y.contains(y[0]));
        let i = choose|i: int| 0 <= i < x.len() && x[i] == y[0];
        if j > 0 {
            assert(name_lt(y[0], y[j]));
            if i > 0 {
                assert(name_lt(x[0], x[i]));
                lemma_name_lt_transitive(x[0], y[0], x[0]);
            }
            lemma_name_lt_irreflexive(x[0]);
        }
        let xt = x.skip(1);
        let yt = y.skip(1);
        assert forall|n: Seq<char>| xt.contains(n) <==> yt.contains(n) by {
            if xt.contains(n) {
                let k = choose|k: int| 0 <= k < xt.len() && xt[k] == n;
                assert(name_lt(x[0], x[k + 1]));
                lemma_name_lt_asymmetric(x[0], n);
                assert(x.contains(n));
                let m = choose|m: int| 0 <= m < y.len() && y[m] == n;
                assert(yt[m - 1] == n);
            }
            if yt.contains(n) {
                let k = choose|k: int| 0 <= k < yt.len() && yt[k] == n;
                assert(name_lt(y[0], y[k + 1]));
                lemma_name_lt_asymmetric(y[0], n);
                assert(y.contains(n));
                let m = choose|m: int| 0 <= m < x.len() && x[m] == n;
                assert(xt[m - 1] == n);
            }
        }
        assert(names_ascending(xt)) by {
            assert forall|a: int, b: int| 0 <= a < b < xt.len() implies name_lt(
                #[trigger] xt[a],
                #[trigger] xt[b],
            ) by {
                assert(name_lt(x[a + 1], x[b + 1]));
            }
        }
        assert(names_ascending(yt)) by {
            assert forall|a: int, b: int| 0 <= a < b < yt.len() implies name_lt(
                #[trigger] yt[a],
                #[trigger] yt[b],
            ) by {
                assert(name_lt(y[a + 1], y[b + 1]));
            }
        }
        lemma_ascending_unique(xt, yt);
        assert(x =~= seq![x[0]] + xt);
        assert(y =~= seq![y[0]] + yt);
    }
}

} // verus!
