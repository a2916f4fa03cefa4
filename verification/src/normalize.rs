//! The newline-normalization transform, as mathematics.
//!
//! A byte stream is rewritten so that every line feed that is not already
//! preceded by a carriage return gains one; existing carriage-return–line-feed
//! pairs pass through unchanged, and no byte other than an inserted carriage
//! return is ever added.  The transform is stated over a rolling "previous
//! byte" value so that it composes across read chunks.

use vstd::prelude::*;

verus! {

/// Line feed, 0x0A.
pub const LF: u8 = 10;

/// Carriage return, 0x0D.
pub const CR: u8 = 13;

/// What one input byte becomes: a line feed whose predecessor was not a
/// carriage return gains an inserted carriage return; every other byte maps
/// to itself alone.
pub open spec fn expand_byte(prev: Option<u8>, b: u8) -> Seq<u8> {
    if b == LF && prev != Some(CR) {
        seq![CR, b]
    } else {
        seq![b]
    }
}

/// The whole transform: each byte of `s` is expanded in order, the previous
/// byte rolling along from `prev`.
pub open spec fn normalize_bytes(prev: Option<u8>, s: Seq<u8>) -> Seq<u8>
    decreases s.len(),
{
    if s.len() == 0 {
        Seq::empty()
    } else {
        expand_byte(prev, s[0]) + normalize_bytes(Some(s[0]), s.subrange(1, s.len() as int))
    }
}

/// The "previous byte" value after `s` has been consumed, starting from `prev`.
pub open spec fn last_seen(prev: Option<u8>, s: Seq<u8>) -> Option<u8> {
    if s.len() == 0 {
        prev
    } else {
        Some(s.last())
    }
}

/// `s` is already in normalized form given that `prev` came before it: every
/// line feed in it is directly preceded by a carriage return.
pub open spec fn is_normalized(prev: Option<u8>, s: Seq<u8>) -> bool {
    forall|i: int|
        0 <= i < s.len() && #[trigger] s[i] == LF ==> (if i == 0 {
            prev == Some(CR)
        } else {
            s[i - 1] == CR
        })
}

/// How many bytes the transform inserts: the number of line feeds in `s` not
/// already preceded by a carriage return.
pub open spec fn lone_lf_count(prev: Option<u8>, s: Seq<u8>) -> nat
    decreases s.len(),
{
    if s.len() == 0 {
        0nat
    } else {
        (if s[0] == LF && prev != Some(CR) {
            1nat
        } else {
            0nat
        }) + lone_lf_count(Some(s[0]), s.subrange(1, s.len() as int))
    }
}

/// The byte that precedes position `i` of `s`, with `prev` standing before
/// the sequence itself.
pub open spec fn byte_before(prev: Option<u8>, s: Seq<u8>, i: int) -> Option<u8> {
    if i == 0 {
        prev
    } else {
        Some(s[i - 1])
    }
}

/// Position `i` of `s` holds a line feed that the transform must prefix with
/// a carriage return.
pub open spec fn is_lone_lf(prev: Option<u8>, s: Seq<u8>, i: int) -> bool {
    s[i] == LF && byte_before(prev, s, i) != Some(CR)
}

/// Appending one byte extends the transform by that byte's expansion.
pub proof fn lemma_normalize_snoc(prev: Option<u8>, s: Seq<u8>, b: u8)
    ensures
        normalize_bytes(prev, s.push(b)) == normalize_bytes(prev, s) + expand_byte(
            last_seen(prev, s),
            b,
        ),
    decreases s.len(),
{
    let t = s.push(b);
    if s.len() == 0 {
        assert(t[0] == b);
        let t1 = t.subrange(1, t.len() as int);
        assert(t1.len() == 0);
        assert(normalize_bytes(Some(b), t1) =~= Seq::<u8>::empty());
        assert(normalize_bytes(prev, t) =~= expand_byte(prev, b) + normalize_bytes(Some(b), t1));
        assert(normalize_bytes(prev, t) =~= expand_byte(prev, b));
        assert(normalize_bytes(prev, s) + expand_byte(last_seen(prev, s), b) =~= expand_byte(
            prev,
            b,
        ));
    } else {
        let s1 = s.subrange(1, s.len() as int);
        lemma_normalize_snoc(Some(s[0]), s1, b);
        assert(t.subrange(1, t.len() as int) =~= s1.push(b));
        assert(last_seen(Some(s[0]), s1) == last_seen(prev, s));
        assert(normalize_bytes(prev, t) =~= normalize_bytes(prev, s) + expand_byte(
            last_seen(prev, s),
            b,
        ));
    }
}

/// Chunk-boundary correctness: transforming a concatenation equals
/// transforming the parts in turn, threading the previous byte through, so
/// how an input is split across reads never changes the output.
pub proof fn lemma_normalize_concat(prev: Option<u8>, a: Seq<u8>, b: Seq<u8>)
    ensures
        normalize_bytes(prev, a + b) == normalize_bytes(prev, a) + normalize_bytes(
            last_seen(prev, a),
            b,
        ),
        last_seen(prev, a + b) == last_seen(last_seen(prev, a), b),
    decreases a.len(),
{
    if a.len() == 0 {
        assert(a + b =~= b);
        assert(normalize_bytes(prev, a) + normalize_bytes(last_seen(prev, a), b)
            =~= normalize_bytes(prev, b));
    } else {
        let a1 = a.subrange(1, a.len() as int);
        lemma_normalize_concat(Some(a[0]), a1, b);
        assert((a + b).subrange(1, (a + b).len() as int) =~= a1 + b);
        assert((a + b)[0] == a[0]);
        assert(last_seen(prev, a) == last_seen(Some(a[0]), a1));
        assert(normalize_bytes(prev, a + b) =~= normalize_bytes(prev, a) + normalize_bytes(
            last_seen(prev, a),
            b,
        ));
        if b.len() == 0 {
            assert(a + b =~= a);
        }
    }
}

/// The transform's output is normalized: every line feed in it is directly
/// preceded by a carriage return (or by `prev`, for a line feed at the very
/// start that `prev == CR` already covers).
pub proof fn lemma_normalize_output_normalized(prev: Option<u8>, s: Seq<u8>)
    ensures
        is_normalized(prev, normalize_bytes(prev, s)),
    decreases s.len(),
{
    if s.len() > 0 {
        let e = expand_byte(prev, s[0]);
        let s1 = s.subrange(1, s.len() as int);
        let rest = normalize_bytes(Some(s[0]), s1);
        let r = normalize_bytes(prev, s);
        lemma_normalize_output_normalized(Some(s[0]), s1);
        assert(r == e + rest);
        assert(e.last() == s[0]);
        assert forall|i: int| 0 <= i < r.len() && #[trigger] r[i] == LF implies (if i == 0 {
            prev == Some(CR)
        } else {
            r[i - 1] == CR
        }) by {
            if i < e.len() {
                assert(e[i] == LF);
            } else {
                let j = i - e.len();
                assert(rest[j] == LF);
                if j == 0 {
                    assert(Some(s[0]) == Some(CR));
                    assert(r[i - 1] == e.last());
                } else {
                    assert(r[i - 1] == rest[j - 1]);
                }
            }
        }
    }
}

/// Transforming a sequence that is already normalized changes nothing.
pub proof fn lemma_normalize_identity_on_normalized(prev: Option<u8>, s: Seq<u8>)
    requires
        is_normalized(prev, s),
    ensures
        normalize_bytes(prev, s) == s,
    decreases s.len(),
{
    if s.len() > 0 {
        let s1 = s.subrange(1, s.len() as int);
        assert forall|i: int| 0 <= i < s1.len() && #[trigger] s1[i] == LF implies (if i == 0 {
            Some(s[0]) == Some(CR)
        } else {
            s1[i - 1] == CR
        }) by {
            assert(s[i + 1] == LF);
        }
        lemma_normalize_identity_on_normalized(Some(s[0]), s1);
        if s[0] == LF {
            assert(prev == Some(CR));
        }
        assert(expand_byte(prev, s[0]) == seq![s[0]]);
        assert(normalize_bytes(prev, s) =~= s);
    }
}

/// Idempotence: running the transform on its own output, from the same
/// starting state, reproduces that output exactly.
pub proof fn lemma_normalize_idempotent(prev: Option<u8>, s: Seq<u8>)
    ensures
        normalize_bytes(prev, normalize_bytes(prev, s)) == normalize_bytes(prev, s),
{
    lemma_normalize_output_normalized(prev, s);
    lemma_normalize_identity_on_normalized(prev, normalize_bytes(prev, s));
}

/// The output is exactly as long as the input plus one byte for each line
/// feed that needed a carriage return: nothing else is ever added.
pub proof fn lemma_normalize_len(prev: Option<u8>, s: Seq<u8>)
    ensures
        normalize_bytes(prev, s).len() == s.len() + lone_lf_count(prev, s),
    decreases s.len(),
{
    if s.len() > 0 {
        lemma_normalize_len(Some(s[0]), s.subrange(1, s.len() as int));
    }
}

/// Every input byte survives, unchanged and in order: byte `i` of the input
/// stands at position `i` plus the number of carriage returns inserted up to
/// and including it, and where one was inserted for it, that carriage return
/// stands directly before it.
pub proof fn lemma_normalize_preserves_input(prev: Option<u8>, s: Seq<u8>, i: int)
    requires
        0 <= i < s.len(),
    ensures
        ({
            let r = normalize_bytes(prev, s);
            let pos = i + lone_lf_count(prev, s.take(i)) + (if is_lone_lf(prev, s, i) {
                1int
            } else {
                0int
            });
            &&& 0 <= pos < r.len()
            &&& r[pos] == s[i]
            &&& is_lone_lf(prev, s, i) ==> r[pos - 1] == CR
        }),
{
    let head = s.take(i);
    let r_head = normalize_bytes(prev, head);
    lemma_normalize_len(prev, head);
    assert(s.take(i + 1) =~= head.push(s[i]));
    lemma_normalize_snoc(prev, head, s[i]);
    assert(last_seen(prev, head) == byte_before(prev, s, i));
    assert(s =~= s.take(i + 1) + s.skip(i + 1));
    lemma_normalize_concat(prev, s.take(i + 1), s.skip(i + 1));
    let e = expand_byte(byte_before(prev, s, i), s[i]);
    assert(normalize_bytes(prev, s) == r_head + e + normalize_bytes(
        last_seen(prev, s.take(i + 1)),
        s.skip(i + 1),
    ));
}

/// A pre-existing carriage-return–line-feed pair appears unchanged: the two
/// bytes stand side by side in the output, with nothing inserted between.
pub proof fn lemma_normalize_keeps_crlf(prev: Option<u8>, s: Seq<u8>, i: int)
    requires
        0 <= i,
        i + 1 < s.len(),
        s[i] == CR,
        s[i + 1] == LF,
    ensures
        ({
            let r = normalize_bytes(prev, s);
            let pos = i + lone_lf_count(prev, s.take(i));
            &&& 0 <= pos && pos + 1 < r.len()
            &&& r[pos] == CR
            &&& r[pos + 1] == LF
        }),
{
    lemma_normalize_preserves_input(prev, s, i);
    lemma_normalize_preserves_input(prev, s, i + 1);
    assert(s.take(i + 1) =~= s.take(i).push(s[i]));
    lemma_lone_lf_count_snoc(prev, s.take(i), s[i]);
    assert(!is_lone_lf(prev, s, i));
    assert(!is_lone_lf(prev, s, i + 1));
}

/// Appending one byte raises the lone-line-feed count by one exactly when
/// that byte is a line feed whose predecessor was not a carriage return.
pub proof fn lemma_lone_lf_count_snoc(prev: Option<u8>, s: Seq<u8>, b: u8)
    ensures
        lone_lf_count(prev, s.push(b)) == lone_lf_count(prev, s) + (if b == LF && last_seen(
            prev,
            s,
        ) != Some(CR) {
            1nat
        } else {
            0nat
        }),
    decreases s.len(),
{
    let t = s.push(b);
    if s.len() == 0 {
        assert(t[0] == b);
        let t1 = t.subrange(1, t.len() as int);
        assert(t1.len() == 0);
        assert(lone_lf_count(Some(b), t1) == 0);
    } else {
        let s1 = s.subrange(1, s.len() as int);
        lemma_lone_lf_count_snoc(Some(s[0]), s1, b);
        assert(t.subrange(1, t.len() as int) =~= s1.push(b));
        assert(last_seen(Some(s[0]), s1) == last_seen(prev, s));
    }
}

} // verus!

