//! The attribute mapping of a fragment.
//!
//! Keys are unique and re-insertion overwrites. Serialization order is part of
//! the output contract: attributes are emitted in ascending lexicographic key
//! order (by code point), never in insertion order. The mapping is kept as a
//! vector of pairs in strictly ascending key order, so rendering can emit it
//! as stored.

use vstd::prelude::*;

verus! {

/// Strict lexicographic order on character sequences, by code point.
pub open spec fn lex_lt(a: Seq<char>, b: Seq<char>) -> bool
    decreases a.len(),
{
    if b.len() == 0 {
        false
    } else if a.len() == 0 {
        true
    } else if (a[0] as u32) < (b[0] as u32) {
        true
    } else if a[0] == b[0] {
        lex_lt(a.drop_first(), b.drop_first())
    } else {
        false
    }
}

pub proof fn lemma_lex_lt_irrefl(a: Seq<char>)
    ensures
        !lex_lt(a, a),
    decreases a.len(),
{
    if a.len() > 0 {
        lemma_lex_lt_irrefl(a.drop_first());
    }
}

pub proof fn lemma_lex_lt_asym(a: Seq<char>, b: Seq<char>)
    requires
        lex_lt(a, b),
    ensures
        !lex_lt(b, a),
        a != b,
    decreases a.len(),
{
    if a.len() == 0 {
        assert(b.len() > 0);
    } else {
        assert(b.len() > 0);
        if a[0] == b[0] {
            lemma_lex_lt_asym(a.drop_first(), b.drop_first());
        }
    }
}

pub proof fn lemma_lex_lt_trans(a: Seq<char>, b: Seq<char>, c: Seq<char>)
    requires
        lex_lt(a, b),
        lex_lt(b, c),
    ensures
        lex_lt(a, c),
    decreases a.len(),
{
    if a.len() == 0 {
        assert(c.len() > 0);
    } else {
        assert(b.len() > 0);
        assert(c.len() > 0);
        if a[0] == b[0] && b[0] == c[0] {
            lemma_lex_lt_trans(a.drop_first(), b.drop_first(), c.drop_first());
        }
    }
}

/// Equal code points make equal characters.
proof fn lemma_char_code_eq(c1: char, c2: char)
    requires
        (c1 as u32) == (c2 as u32),
    ensures
        c1 == c2,
{
    vstd::utf8::char_u32_cast(c1, c1 as u32);
    vstd::utf8::char_u32_cast(c2, c2 as u32);
}

/// Two distinct keys are ordered one way or the other.
pub proof fn lemma_lex_lt_connected(a: Seq<char>, b: Seq<char>)
    requires
        a != b,
    ensures
        lex_lt(a, b) || lex_lt(b, a),
    decreases a.len(),
{
    if a.len() == 0 {
        if b.len() == 0 {
            assert(a =~= b);
        }
    } else if b.len() == 0 {
    } else if a[0] == b[0] {
        if a.drop_first() == b.drop_first() {
            assert(a.drop_first().len() == a.len() - 1);
            assert(b.drop_first().len() == b.len() - 1);
            assert(a.len() == b.len());
            assert forall|i: int| 0 <= i < a.len() implies a[i] == b[i] by {
                if i > 0 {
                    assert(a[i] == a.drop_first()[i - 1]);
                    assert(b[i] == b.drop_first()[i - 1]);
                }
            }
            assert(a =~= b);
        } else {
            lemma_lex_lt_connected(a.drop_first(), b.drop_first());
        }
    } else {
        if (a[0] as u32) == (b[0] as u32) {
            lemma_char_code_eq(a[0], b[0]);
        }
    }
}

/// The keys of an attribute list stand in strictly ascending order, so every
/// key occurs at most once.
pub open spec fn keys_ascending(s: Seq<(Seq<char>, Seq<char>)>) -> bool {
    forall|i: int, j: int| 0 <= i < j < s.len() ==> #[trigger] lex_lt(s[i].0, s[j].0)
}

/// Insertion into a key-sorted attribute list: an existing key has its value
/// overwritten, a new key enters at its ordered place.
pub open spec fn insert_sorted(
    s: Seq<(Seq<char>, Seq<char>)>,
    k: Seq<char>,
    v: Seq<char>,
) -> Seq<(Seq<char>, Seq<char>)>
    decreases s.len(),
{
    if s.len() == 0 {
        seq![(k, v)]
    } else if lex_lt(k, s[0].0) {
        seq![(k, v)] + s
    } else if k == s[0].0 {
        seq![(k, v)] + s.drop_first()
    } else {
        seq![s[0]] + insert_sorted(s.drop_first(), k, v)
    }
}

/// Where the new pair lands: at the first position whose key is not below the
/// new key, either overwriting (equal key) or splitting the list there.
pub proof fn lemma_insert_sorted_split(
    s: Seq<(Seq<char>, Seq<char>)>,
    k: Seq<char>,
    v: Seq<char>,
    i: int,
)
    requires
        0 <= i <= s.len(),
        forall|j: int| 0 <= j < i ==> lex_lt(#[trigger] s[j].0, k),
        i < s.len() ==> !lex_lt(s[i].0, k),
    ensures
        i < s.len() && s[i].0 == k ==> insert_sorted(s, k, v) == s.update(i, (k, v)),
        (i == s.len() || s[i].0 != k) ==> insert_sorted(s, k, v) == s.take(i) + seq![(k, v)]
            + s.skip(i),
    decreases s.len(),
{
    if s.len() == 0 {
        assert(insert_sorted(s, k, v) =~= s.take(i) + seq![(k, v)] + s.skip(i));
    } else if i == 0 {
        if s[0].0 == k {
            lemma_lex_lt_irrefl(k);
            assert(insert_sorted(s, k, v) =~= s.update(0, (k, v)));
        } else {
            lemma_lex_lt_connected(k, s[0].0);
            assert(insert_sorted(s, k, v) =~= s.take(0) + seq![(k, v)] + s.skip(0));
        }
    } else {
        assert(lex_lt(s[0].0, k));
        lemma_lex_lt_asym(s[0].0, k);
        assert(forall|j: int|
            0 <= j < i - 1 ==> lex_lt(#[trigger] s.drop_first()[j].0, k));
        lemma_insert_sorted_split(s.drop_first(), k, v, i - 1);
        if i < s.len() && s[i].0 == k {
            assert(insert_sorted(s, k, v) =~= s.update(i, (k, v)));
        } else {
            assert(insert_sorted(s, k, v) =~= s.take(i) + seq![(k, v)] + s.skip(i));
        }
    }
}

/// A strict lower bound on every key of a list stays a strict lower bound
/// after an insertion of a key above it.
pub proof fn lemma_insert_sorted_lower(
    s: Seq<(Seq<char>, Seq<char>)>,
    k: Seq<char>,
    v: Seq<char>,
    x: Seq<char>,
)
    requires
        forall|j: int| 0 <= j < s.len() ==> lex_lt(x, #[trigger] s[j].0),
        lex_lt(x, k),
    ensures
        forall|j: int|
            0 <= j < insert_sorted(s, k, v).len() ==> lex_lt(
                x,
                #[trigger] insert_sorted(s, k, v)[j].0,
            ),
    decreases s.len(),
{
    if s.len() == 0 {
    } else if lex_lt(k, s[0].0) {
    } else if k == s[0].0 {
    } else {
        lemma_insert_sorted_lower(s.drop_first(), k, v, x);
        assert forall|j: int| 0 <= j < insert_sorted(s, k, v).len() implies lex_lt(
            x,
            #[trigger] insert_sorted(s, k, v)[j].0,
        ) by {
            if j > 0 {
                assert(insert_sorted(s, k, v)[j] == insert_sorted(s.drop_first(), k, v)[j - 1]);
            }
        }
    }
}

/// Attribute ordering invariant: inserting into a key-sorted list keeps the
/// keys in strictly ascending order.
pub proof fn lemma_insert_sorted_ascending(
    s: Seq<(Seq<char>, Seq<char>)>,
    k: Seq<char>,
    v: Seq<char>,
)
    requires
        keys_ascending(s),
    ensures
        keys_ascending(insert_sorted(s, k, v)),
    decreases s.len(),
{
    let r = insert_sorted(s, k, v);
    if s.len() == 0 {
    } else if lex_lt(k, s[0].0) {
        assert forall|i: int, j: int| 0 <= i < j < r.len() implies #[trigger] lex_lt(
            r[i].0,
            r[j].0,
        ) by {
            if i == 0 {
                if j > 1 {
                    lemma_lex_lt_trans(k, s[0].0, s[j - 1].0);
                }
            }
        }
    } else if k == s[0].0 {
        assert forall|i: int, j: int| 0 <= i < j < r.len() implies #[trigger] lex_lt(
            r[i].0,
            r[j].0,
        ) by {
            if i == 0 {
                assert(r[j].0 == s[j].0);
            } else {
                assert(r[i].0 == s[i].0 && r[j].0 == s[j].0);
            }
        }
    } else {
        lemma_lex_lt_connected(k, s[0].0);
        assert(lex_lt(s[0].0, k));
        assert(keys_ascending(s.drop_first())) by {
            assert forall|i: int, j: int|
                0 <= i < j < s.drop_first().len() implies #[trigger] lex_lt(
                s.drop_first()[i].0,
                s.drop_first()[j].0,
            ) by {
                assert(s.drop_first()[i] == s[i + 1] && s.drop_first()[j] == s[j + 1]);
            }
        }
        lemma_insert_sorted_ascending(s.drop_first(), k, v);
        assert(forall|j: int|
            0 <= j < s.drop_first().len() ==> lex_lt(s[0].0, #[trigger] s.drop_first()[j].0));
        lemma_insert_sorted_lower(s.drop_first(), k, v, s[0].0);
        let rr = insert_sorted(s.drop_first(), k, v);
        assert forall|i: int, j: int| 0 <= i < j < r.len() implies #[trigger] lex_lt(
            r[i].0,
            r[j].0,
        ) by {
            if i == 0 {
                assert(r[j] == rr[j - 1]);
            } else {
                assert(r[i] == rr[i - 1] && r[j] == rr[j - 1]);
            }
        }
    }
}

/// Helper for the order-irrelevance law, fixed to one orientation of the two
/// distinct keys.
proof fn lemma_insert_sorted_swap(
    s: Seq<(Seq<char>, Seq<char>)>,
    k1: Seq<char>,
    v1: Seq<char>,
    k2: Seq<char>,
    v2: Seq<char>,
)
    requires
        lex_lt(k1, k2),
    ensures
        insert_sorted(insert_sorted(s, k1, v1), k2, v2) == insert_sorted(
            insert_sorted(s, k2, v2),
            k1,
            v1,
        ),
    decreases s.len(),
{
    reveal_with_fuel(insert_sorted, 3);
    lemma_lex_lt_asym(k1, k2);
    if s.len() == 0 {
        assert(insert_sorted(insert_sorted(s, k1, v1), k2, v2) =~= insert_sorted(
            insert_sorted(s, k2, v2),
            k1,
            v1,
        ));
    } else {
        let h = s[0].0;
        if lex_lt(k2, h) {
            lemma_lex_lt_trans(k1, k2, h);
            lemma_lex_lt_asym(k1, h);
            assert(insert_sorted(insert_sorted(s, k1, v1), k2, v2) =~= insert_sorted(
                insert_sorted(s, k2, v2),
                k1,
                v1,
            ));
        } else if k2 == h {
            if lex_lt(k1, h) {
                assert(insert_sorted(insert_sorted(s, k1, v1), k2, v2) =~= insert_sorted(
                    insert_sorted(s, k2, v2),
                    k1,
                    v1,
                ));
            } else {
                // k1 below k2 == h and k1 not below h is impossible
                assert(false);
            }
        } else {
            lemma_lex_lt_connected(k2, h);
            assert(lex_lt(h, k2));
            lemma_lex_lt_asym(h, k2);
            if lex_lt(k1, h) {
                let t1 = insert_sorted(s, k1, v1);
                assert(t1 == seq![(k1, v1)] + s);
                assert(t1.drop_first() =~= s);
                assert(insert_sorted(t1, k2, v2) == seq![(k1, v1)] + insert_sorted(s, k2, v2));
                let t2 = insert_sorted(s, k2, v2);
                assert(t2 == seq![s[0]] + insert_sorted(s.drop_first(), k2, v2));
                assert(t2[0] == s[0]);
                assert(insert_sorted(t2, k1, v1) == seq![(k1, v1)] + t2);
            } else if k1 == h {
                lemma_lex_lt_irrefl(h);
                assert(insert_sorted(s, k1, v1) == seq![(k1, v1)] + s.drop_first());
                assert(insert_sorted(insert_sorted(s, k1, v1), k2, v2) == seq![(k1, v1)]
                    + insert_sorted(s.drop_first(), k2, v2)) by {
                    assert((seq![(k1, v1)] + s.drop_first()).drop_first() =~= s.drop_first());
                }
                assert(insert_sorted(s, k2, v2) == seq![s[0]] + insert_sorted(
                    s.drop_first(),
                    k2,
                    v2,
                ));
                assert(insert_sorted(insert_sorted(s, k2, v2), k1, v1) == seq![(k1, v1)]
                    + insert_sorted(s.drop_first(), k2, v2)) by {
                    assert((seq![s[0]] + insert_sorted(s.drop_first(), k2, v2)).drop_first()
                        =~= insert_sorted(s.drop_first(), k2, v2));
                }
            } else {
                lemma_lex_lt_connected(k1, h);
                assert(lex_lt(h, k1));
                lemma_lex_lt_asym(h, k1);
                lemma_insert_sorted_swap(s.drop_first(), k1, v1, k2, v2);
                assert((seq![s[0]] + insert_sorted(s.drop_first(), k1, v1)).drop_first()
                    =~= insert_sorted(s.drop_first(), k1, v1));
                assert((seq![s[0]] + insert_sorted(s.drop_first(), k2, v2)).drop_first()
                    =~= insert_sorted(s.drop_first(), k2, v2));
                assert(insert_sorted(insert_sorted(s, k1, v1), k2, v2) =~= seq![s[0]]
                    + insert_sorted(insert_sorted(s.drop_first(), k1, v1), k2, v2));
                assert(insert_sorted(insert_sorted(s, k2, v2), k1, v1) =~= seq![s[0]]
                    + insert_sorted(insert_sorted(s.drop_first(), k2, v2), k1, v1));
            }
        }
    }
}

/// Attribute ordering invariant: two insertions with distinct keys land in the
/// same list whichever is made first, so the serialized order never depends on
/// insertion order.
pub proof fn lemma_insert_order_irrelevant(
    s: Seq<(Seq<char>, Seq<char>)>,
    k1: Seq<char>,
    v1: Seq<char>,
    k2: Seq<char>,
    v2: Seq<char>,
)
    requires
        k1 != k2,
    ensures
        insert_sorted(insert_sorted(s, k1, v1), k2, v2) == insert_sorted(
            insert_sorted(s, k2, v2),
            k1,
            v1,
        ),
{
    lemma_lex_lt_connected(k1, k2);
    if lex_lt(k1, k2) {
        lemma_insert_sorted_swap(s, k1, v1, k2, v2);
    } else {
        lemma_insert_sorted_swap(s, k2, v2, k1, v1);
    }
}

/// Inserting into the empty list makes a one-pair list.
pub proof fn lemma_insert_sorted_one(k: Seq<char>, v: Seq<char>)
    ensures
        insert_sorted(Seq::empty(), k, v) == seq![(k, v)],
{
    assert(insert_sorted(Seq::empty(), k, v) =~= seq![(k, v)]);
}

/// A key above every present key lands at the end.
pub proof fn lemma_insert_sorted_snoc(s: Seq<(Seq<char>, Seq<char>)>, k: Seq<char>, v: Seq<char>)
    requires
        forall|j: int| 0 <= j < s.len() ==> lex_lt(#[trigger] s[j].0, k),
    ensures
        insert_sorted(s, k, v) == s + seq![(k, v)],
    decreases s.len(),
{
    if s.len() == 0 {
        assert(insert_sorted(s, k, v) =~= s + seq![(k, v)]);
    } else {
        lemma_lex_lt_asym(s[0].0, k);
        assert(forall|j: int|
            0 <= j < s.drop_first().len() ==> lex_lt(#[trigger] s.drop_first()[j].0, k));
        lemma_insert_sorted_snoc(s.drop_first(), k, v);
        assert(insert_sorted(s, k, v) =~= s + seq![(k, v)]);
    }
}

/// One keyed pair, then a smaller key in front.
pub proof fn lemma_insert_chain1(k0: Seq<char>, v0: Seq<char>, k1: Seq<char>, v1: Seq<char>)
    requires
        lex_lt(k0, k1),
    ensures
        insert_sorted(insert_sorted(Seq::empty(), k1, v1), k0, v0) == seq![(k0, v0), (k1, v1)],
{
    lemma_insert_sorted_one(k1, v1);
    assert(insert_sorted(seq![(k1, v1)], k0, v0) =~= seq![(k0, v0), (k1, v1)]);
}

/// Two keyed pairs inserted in ascending key order, then a smaller key in
/// front.
pub proof fn lemma_insert_chain2(
    k0: Seq<char>,
    v0: Seq<char>,
    k1: Seq<char>,
    v1: Seq<char>,
    k2: Seq<char>,
    v2: Seq<char>,
)
    requires
        lex_lt(k0, k1),
        lex_lt(k1, k2),
    ensures
        insert_sorted(insert_sorted(insert_sorted(Seq::empty(), k1, v1), k2, v2), k0, v0)
            == seq![(k0, v0), (k1, v1), (k2, v2)],
{
    lemma_insert_sorted_one(k1, v1);
    assert(seq![(k1, v1)][0].0 == k1);
    lemma_insert_sorted_snoc(seq![(k1, v1)], k2, v2);
    let s2 = insert_sorted(insert_sorted(Seq::empty(), k1, v1), k2, v2);
    assert(s2 =~= seq![(k1, v1), (k2, v2)]);
    assert(insert_sorted(s2, k0, v0) =~= seq![(k0, v0), (k1, v1), (k2, v2)]);
}

/// Three keyed pairs inserted in ascending key order, then a smaller key in
/// front.
pub proof fn lemma_insert_chain3(
    k0: Seq<char>,
    v0: Seq<char>,
    k1: Seq<char>,
    v1: Seq<char>,
    k2: Seq<char>,
    v2: Seq<char>,
    k3: Seq<char>,
    v3: Seq<char>,
)
    requires
        lex_lt(k0, k1),
        lex_lt(k1, k2),
        lex_lt(k2, k3),
    ensures
        insert_sorted(
            insert_sorted(insert_sorted(insert_sorted(Seq::empty(), k1, v1), k2, v2), k3, v3),
            k0,
            v0,
        ) == seq![(k0, v0), (k1, v1), (k2, v2), (k3, v3)],
{
    lemma_lex_lt_trans(k1, k2, k3);
    lemma_insert_sorted_one(k1, v1);
    assert(seq![(k1, v1)][0].0 == k1);
    lemma_insert_sorted_snoc(seq![(k1, v1)], k2, v2);
    let s2 = insert_sorted(insert_sorted(Seq::empty(), k1, v1), k2, v2);
    assert(s2 =~= seq![(k1, v1), (k2, v2)]);
    assert(s2[0].0 == k1 && s2[1].0 == k2);
    lemma_insert_sorted_snoc(seq![(k1, v1), (k2, v2)], k3, v3);
    let s3 = insert_sorted(s2, k3, v3);
    assert(s3 =~= seq![(k1, v1), (k2, v2), (k3, v3)]);
    assert(insert_sorted(s3, k0, v0) =~= seq![(k0, v0), (k1, v1), (k2, v2), (k3, v3)]);
}

/// Strict lexicographic comparison of two keys.
fn key_lt(a: &str, b: &str) -> (r: bool)
    ensures
        r == lex_lt(a@, b@),
{
    let na = a.unicode_len();
    let nb = b.unicode_len();
    proof {
        assert(a@.skip(0) =~= a@);
        assert(b@.skip(0) =~= b@);
    }
    let mut i: usize = 0;
    while i < na
        invariant
            i <= na,
            i <= nb,
            na == a@.len(),
            nb == b@.len(),
            lex_lt(a@, b@) == lex_lt(a@.skip(i as int), b@.skip(i as int)),
        decreases na - i,
    {
        if i >= nb {
            return false;
        }
        let ca = a.get_char(i);
        let cb = b.get_char(i);
        if (ca as u32) < (cb as u32) {
            return true;
        }
        if ca != cb {
            return false;
        }
        proof {
            assert(a@.skip(i as int).drop_first() =~= a@.skip(i as int + 1));
            assert(b@.skip(i as int).drop_first() =~= b@.skip(i as int + 1));
        }
        i = i + 1;
    }
    // the whole of `a` is a prefix of `b`: below it exactly when `b` is longer
    nb > na
}

/// Equality of two keys, character by character.
fn key_eq(a: &str, b: &str) -> (r: bool)
    ensures
        r == (a@ == b@),
{
    let na = a.unicode_len();
    let nb = b.unicode_len();
    if na != nb {
        return false;
    }
    let mut i: usize = 0;
    while i < na
        invariant
            i <= na,
            na == a@.len(),
            nb == b@.len(),
            na == nb,
            forall|j: int| 0 <= j < i ==> a@[j] == b@[j],
        decreases na - i,
    {
        if a.get_char(i) != b.get_char(i) {
            return false;
        }
        i = i + 1;
    }
    proof {
        assert(a@ =~= b@);
    }
    true
}

/// An attribute mapping: static keys to caller-supplied values, held in
/// ascending key order.
pub struct Attributes {
    pairs: Vec<(String, String)>,
}

impl View for Attributes {
    type V = Seq<(Seq<char>, Seq<char>)>;

    closed spec fn view(&self) -> Seq<(Seq<char>, Seq<char>)> {
        Seq::new(self.pairs@.len(), |i: int| (self.pairs@[i].0@, self.pairs@[i].1@))
    }
}

impl Attributes {
    /// Well-formed: the pairs stand in strictly ascending key order. Every
    /// constructor establishes this and `insert` preserves it.
    pub open spec fn wf(&self) -> bool {
        keys_ascending(self@)
    }

    /// The empty attribute mapping.
    pub fn new() -> (r: Attributes)
        ensures
            r@ == Seq::<(Seq<char>, Seq<char>)>::empty(),
            r.wf(),
    {
        let r = Attributes { pairs: Vec::new() };
        proof {
            assert(r@ =~= Seq::<(Seq<char>, Seq<char>)>::empty());
        }
        r
    }

    pub fn len(&self) -> (n: usize)
        ensures
            n == self@.len(),
    {
        self.pairs.len()
    }

    pub(crate) fn key_at(&self, i: usize) -> (k: &str)
        requires
            i < self@.len(),
        ensures
            k@ == self@[i as int].0,
    {
        self.pairs[i].0.as_str()
    }

    pub(crate) fn value_at(&self, i: usize) -> (v: &str)
        requires
            i < self@.len(),
        ensures
            v@ == self@[i as int].1,
    {
        self.pairs[i].1.as_str()
    }

    /// Puts `value` under `key`: a present key is overwritten, a new key takes
    /// its ordered place.
    pub fn insert(&mut self, key: &str, value: &str)
        requires
            old(self).wf(),
        ensures
            final(self).wf(),
            final(self)@ == insert_sorted(old(self)@, key@, value@),
    {
        let n = self.pairs.len();
        let mut i: usize = 0;
        while i < n
            invariant_except_break
                i <= n,
                n == self@.len(),
                forall|j: int| 0 <= j < i ==> lex_lt(#[trigger] self@[j].0, key@),
            ensures
                i <= n,
                n == self@.len(),
                forall|j: int| 0 <= j < i ==> lex_lt(#[trigger] self@[j].0, key@),
                i < n ==> !lex_lt(self@[i as int].0, key@),
            decreases n - i,
        {
            if !key_lt(self.pairs[i].0.as_str(), key) {
                break;
            }
            i = i + 1;
        }
        proof {
            lemma_insert_sorted_split(self@, key@, value@, i as int);
            lemma_insert_sorted_ascending(self@, key@, value@);
        }
        let ghost before = self@;
        if i < n && key_eq(self.pairs[i].0.as_str(), key) {
            self.pairs.set(i, (key.to_owned(), value.to_owned()));
            proof {
                assert(self@ =~= before.update(i as int, (key@, value@)));
            }
        } else {
            self.pairs.insert(i, (key.to_owned(), value.to_owned()));
            proof {
                assert(self@ =~= before.take(i as int) + seq![(key@, value@)] + before.skip(
                    i as int,
                ));
            }
        }
    }
}

impl Default for Attributes {
    /// The empty attribute mapping.
    fn default() -> (r: Attributes)
        ensures
            r@ == Seq::<(Seq<char>, Seq<char>)>::empty(),
            r.wf(),
    {
        Attributes::new()
    }
}

} // verus!
