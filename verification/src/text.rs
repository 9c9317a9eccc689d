//! The order in which the stores keep their keys.
//!
//! Keys are strings, ordered as their UTF-8 encodings are: byte by byte, the
//! shorter first where one is a prefix of the other.

use vstd::prelude::*;
use vstd::utf8::*;

verus! {

/// `a` and `b` hold the same bytes at every position below `k`.
pub open spec fn agree_before(a: Seq<u8>, b: Seq<u8>, k: int) -> bool {
    &&& 0 <= k <= a.len()
    &&& k <= b.len()
    &&& forall|i: int| 0 <= i < k ==> a[i] == b[i]
}

/// `a` comes strictly before `b` in lexicographic order: after a common
/// prefix, either `a` ends and `b` goes on, or `a` holds the smaller byte.
pub open spec fn bytes_precede(a: Seq<u8>, b: Seq<u8>) -> bool {
    exists|k: int| #[trigger] agree_before(a, b, k) && k < b.len() && (k == a.len() || a[k] < b[k])
}

/// The strict order of keys: that of their UTF-8 encodings.
pub open spec fn text_precedes(a: Seq<char>, b: Seq<char>) -> bool {
    bytes_precede(encode_utf8(a), encode_utf8(b))
}

/// `a` is `b` or comes before it.
pub open spec fn text_at_most(a: Seq<char>, b: Seq<char>) -> bool {
    a == b || text_precedes(a, b)
}

/// A list of strings as the contracts see it: each as its sequence of
/// characters, in the list's order.
pub open spec fn text_views(list: Seq<String>) -> Seq<Seq<char>> {
    list.map_values(|text: String| text@)
}

/// How one key stands to another.
#[derive(Clone, Copy, Debug, PartialEq, Eq)]
pub enum TextOrder {
    Before,
    Same,
    After,
}

/// No byte string precedes another that precedes it; none precedes itself.
pub proof fn lemma_bytes_precede_asymmetric(a: Seq<u8>, b: Seq<u8>)
    requires
        bytes_precede(a, b),
    ensures
        !bytes_precede(b, a),
        a != b,
{
    let k = choose|k: int| #[trigger] agree_before(a, b, k) && k < b.len() && (k == a.len() || a[k] < b[k]);
    if bytes_precede(b, a) {
        let j = choose|j: int| #[trigger] agree_before(b, a, j) && j < a.len() && (j == b.len() || b[j] < a[j]);
        // Whichever of the two positions comes first, the strings agree there.
        assert(j < k ==> a[j] == b[j]);
        assert(k < j ==> a[k] == b[k]);
    }
}

/// The order is transitive.
pub proof fn lemma_bytes_precede_transitive(a: Seq<u8>, b: Seq<u8>, c: Seq<u8>)
    requires
        bytes_precede(a, b),
        bytes_precede(b, c),
    ensures
        bytes_precede(a, c),
{
    let k = choose|k: int| #[trigger] agree_before(a, b, k) && k < b.len() && (k == a.len() || a[k] < b[k]);
    let j = choose|j: int| #[trigger] agree_before(b, c, j) && j < c.len() && (j == b.len() || b[j] < c[j]);
    let m = if k <= j { k } else { j };
    assert(agree_before(a, c, m));
}

/// Two byte strings that agree below `k` and are not the same are ordered.
proof fn lemma_bytes_ordered_from(a: Seq<u8>, b: Seq<u8>, k: int)
    requires
        agree_before(a, b, k),
        a != b,
    ensures
        bytes_precede(a, b) || bytes_precede(b, a),
    decreases a.len() - k,
{
    if k == a.len() {
        if k == b.len() {
            assert(a =~= b);
        }
    } else if k == b.len() || b[k] < a[k] {
        assert(agree_before(b, a, k));
    } else if a[k] == b[k] {
        lemma_bytes_ordered_from(a, b, k + 1);
    }
}

/// The order is total: of two different byte strings one precedes the other.
pub proof fn lemma_bytes_precede_total(a: Seq<u8>, b: Seq<u8>)
    requires
        a != b,
    ensures
        bytes_precede(a, b) || bytes_precede(b, a),
{
    lemma_bytes_ordered_from(a, b, 0);
}

/// Two keys with the same encoding are the same key.
pub proof fn lemma_encoding_injective(a: Seq<char>, b: Seq<char>)
    requires
        encode_utf8(a) == encode_utf8(b),
    ensures
        a == b,
{
    encode_utf8_decode_utf8(a);
    encode_utf8_decode_utf8(b);
}

/// No key precedes itself, and of two keys at most one precedes the other.
pub proof fn lemma_text_precedes_asymmetric(a: Seq<char>, b: Seq<char>)
    requires
        text_precedes(a, b),
    ensures
        !text_precedes(b, a),
        a != b,
{
    lemma_bytes_precede_asymmetric(encode_utf8(a), encode_utf8(b));
}

/// The order of keys is transitive.
pub proof fn lemma_text_precedes_transitive(a: Seq<char>, b: Seq<char>, c: Seq<char>)
    requires
        text_precedes(a, b),
        text_precedes(b, c),
    ensures
        text_precedes(a, c),
{
    lemma_bytes_precede_transitive(encode_utf8(a), encode_utf8(b), encode_utf8(c));
}

/// The order of keys is total: of two different keys one precedes the other.
pub proof fn lemma_text_precedes_total(a: Seq<char>, b: Seq<char>)
    requires
        a != b,
    ensures
        text_precedes(a, b) || text_precedes(b, a),
{
    if encode_utf8(a) == encode_utf8(b) {
        lemma_encoding_injective(a, b);
    }
    lemma_bytes_precede_total(encode_utf8(a), encode_utf8(b));
}

/// A finite set of keys that is not empty has a least key.
pub proof fn lemma_least_key(keys: Set<Seq<char>>) -> (least: Seq<char>)
    requires
        keys.finite(),
        keys.len() > 0,
    ensures
        keys.contains(least),
        forall|key: Seq<char>| keys.contains(key) ==> text_at_most(least, key),
    decreases keys.len(),
{
    let one = keys.choose();
    let rest = keys.remove(one);
    if rest.len() == 0 {
        assert forall|key: Seq<char>| keys.contains(key) implies text_at_most(one, key) by {
            assert(key != one ==> rest.contains(key));
        }
        one
    } else {
        let least_of_rest = lemma_least_key(rest);
        if text_at_most(least_of_rest, one) {
            assert forall|key: Seq<char>| keys.contains(key) implies text_at_most(least_of_rest, key) by {
                assert(key != one ==> rest.contains(key));
            }
            least_of_rest
        } else {
            lemma_text_precedes_total(one, least_of_rest);
            assert forall|key: Seq<char>| keys.contains(key) implies text_at_most(one, key) by {
                if key != one && key != least_of_rest {
                    assert(rest.contains(key));
                    lemma_text_precedes_transitive(one, least_of_rest, key);
                }
            }
            one
        }
    }
}

/// Compares two keys. Exactly one of the three answers holds of any two keys,
/// so the result is determined: `Before` when `a` precedes `b`, `After` when
/// `b` precedes `a`, and `Same` when they are one key.
pub fn compare_text(a: &str, b: &str) -> (r: TextOrder)
    ensures
        (r == TextOrder::Before) == text_precedes(a@, b@),
        (r == TextOrder::Same) == (a@ == b@),
        (r == TextOrder::After) == text_precedes(b@, a@),
{
    let x = a.as_bytes();
    let y = b.as_bytes();
    let n = x.len();
    let m = y.len();
    let mut i: usize = 0;
    while i < n && i < m
        invariant
            n == x@.len(),
            m == y@.len(),
            x@ == encode_utf8(a@),
            y@ == encode_utf8(b@),
            agree_before(x@, y@, i as int),
        decreases n - i,
    {
        if x[i] < y[i] {
            proof {
                lemma_text_precedes_asymmetric(a@, b@);
            }
            return TextOrder::Before;
        }
        if y[i] < x[i] {
            proof {
                assert(agree_before(y@, x@, i as int));
                lemma_text_precedes_asymmetric(b@, a@);
            }
            return TextOrder::After;
        }
        i = i + 1;
    }
    if n < m {
        proof {
            lemma_text_precedes_asymmetric(a@, b@);
        }
        TextOrder::Before
    } else if m < n {
        proof {
            assert(agree_before(y@, x@, i as int));
            lemma_text_precedes_asymmetric(b@, a@);
        }
        TextOrder::After
    } else {
        proof {
            assert(x@ =~= y@);
            lemma_encoding_injective(a@, b@);
            if text_precedes(a@, b@) {
                lemma_text_precedes_asymmetric(a@, b@);
            }
            if text_precedes(b@, a@) {
                lemma_text_precedes_asymmetric(b@, a@);
            }
        }
        TextOrder::Same
    }
}

} // verus!
