//! Byte-wise lexicographic order of strings, the order of `str`'s `Ord`.

use vstd::prelude::*;
use vstd::utf8::{encode_utf8, encode_utf8_decode_utf8};

verus! {

/// `x` and `y` agree before `i`, and at `i` either `x` ends while `y` goes on
/// or `x` holds the smaller byte.
pub open spec fn diverges_below(x: Seq<u8>, y: Seq<u8>, i: int) -> bool {
    &&& 0 <= i <= x.len()
    &&& i <= y.len()
    &&& forall|k: int| 0 <= k < i ==> x[k] == y[k]
    &&& ((i == x.len() && i < y.len()) || (i < x.len() && i < y.len() && x[i] < y[i]))
}

/// `x` comes before `y` in lexicographic byte order.
pub open spec fn bytes_lt(x: Seq<u8>, y: Seq<u8>) -> bool {
    exists|i: int| #[trigger] diverges_below(x, y, i)
}

/// `a` comes before `b` in the order of their UTF-8 encodings.
pub open spec fn text_lt(a: Seq<char>, b: Seq<char>) -> bool {
    bytes_lt(encode_utf8(a), encode_utf8(b))
}

/// The order of engine identities: by engine, then by flags.
pub open spec fn identity_lt(a: (Seq<char>, Seq<char>), b: (Seq<char>, Seq<char>)) -> bool {
    text_lt(a.0, b.0) || (a.0 == b.0 && text_lt(a.1, b.1))
}

/// Three-way comparison of two byte strings.
pub fn compare_bytes(x: &[u8], y: &[u8]) -> (r: i8)
    ensures
        r < 0 ==> bytes_lt(x@, y@),
        r > 0 ==> bytes_lt(y@, x@),
        r == 0 ==> x@ == y@,
{
    let mut i: usize = 0;
    while i < x.len() && i < y.len()
        invariant
            i <= x@.len(),
            i <= y@.len(),
            forall|k: int| 0 <= k < i ==> x@[k] == y@[k],
        decreases x@.len() - i,
    {
        if x[i] < y[i] {
            assert(diverges_below(x@, y@, i as int));
            return -1;
        }
        if x[i] > y[i] {
            assert(diverges_below(y@, x@, i as int));
            return 1;
        }
        i = i + 1;
    }
    if i < y.len() {
        assert(diverges_below(x@, y@, i as int));
        -1
    } else if i < x.len() {
        assert(diverges_below(y@, x@, i as int));
        1
    } else {
        assert(x@ =~= y@);
        0
    }
}

/// Three-way comparison of two strings by their UTF-8 bytes.
pub fn compare_text(a: &str, b: &str) -> (r: i8)
    ensures
        r < 0 ==> text_lt(a@, b@),
        r > 0 ==> text_lt(b@, a@),
        r == 0 ==> a@ == b@,
{
    let r = compare_bytes(a.as_bytes(), b.as_bytes());
    proof {
        if r == 0 {
            encode_utf8_decode_utf8(a@);
            encode_utf8_decode_utf8(b@);
        }
    }
    r
}

/// Does engine identity `(a_engine, a_flags)` come before
/// `(b_engine, b_flags)`?
pub fn identity_less(a_engine: &str, a_flags: &str, b_engine: &str, b_flags: &str) -> (r: bool)
    ensures
        r ==> identity_lt((a_engine@, a_flags@), (b_engine@, b_flags@)),
        !r && (a_engine@, a_flags@) != (b_engine@, b_flags@) ==> identity_lt(
            (b_engine@, b_flags@),
            (a_engine@, a_flags@),
        ),
{
    let c = compare_text(a_engine, b_engine);
    if c < 0 {
        true
    } else if c > 0 {
        false
    } else {
        compare_text(a_flags, b_flags) < 0
    }
}

/// No byte string comes before itself.
pub proof fn lemma_bytes_lt_irreflexive(x: Seq<u8>)
    ensures
        !bytes_lt(x, x),
{
    if bytes_lt(x, x) {
        let i = choose|i: int| #[trigger] diverges_below(x, x, i);
    }
}

/// No engine identity comes before itself.
pub proof fn lemma_identity_lt_irreflexive(a: (Seq<char>, Seq<char>))
    ensures
        !identity_lt(a, a),
{
    lemma_bytes_lt_irreflexive(encode_utf8(a.0));
    lemma_bytes_lt_irreflexive(encode_utf8(a.1));
}

} // verus!
