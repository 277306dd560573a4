//! Listing rows in key order, the way the store's listings are ordered:
//! text keys compared character by character by code point, a proper prefix
//! before its extensions. For valid UTF-8 this is the byte order of the
//! encoded keys.

use vstd::prelude::*;
use vstd::string::StrSliceExecFns;

verus! {

/// Whether `a` sorts before `b`, judged from position `i` on, given that
/// the two agree before `i`.
pub open spec fn text_lt_from(a: Seq<char>, b: Seq<char>, i: int) -> bool
    decreases a.len() - i,
{
    if i >= a.len() {
        i < b.len()
    } else if i >= b.len() {
        false
    } else if a[i] != b[i] {
        (a[i] as u32) < (b[i] as u32)
    } else {
        text_lt_from(a, b, i + 1)
    }
}

/// Whether text `a` sorts strictly before text `b`.
pub open spec fn text_lt(a: Seq<char>, b: Seq<char>) -> bool {
    text_lt_from(a, b, 0)
}

/// Whether `a` sorts strictly before `b`.
pub fn text_less(a: &str, b: &str) -> (r: bool)
    ensures
        r == text_lt(a@, b@),
{
    let la: usize = a.unicode_len();
    let lb: usize = b.unicode_len();
    let mut i: usize = 0;
    while i < la && i < lb
        invariant
            la == a@.len(),
            lb == b@.len(),
            i <= la,
            i <= lb,
            text_lt(a@, b@) == text_lt_from(a@, b@, i as int),
        decreases la - i,
    {
        let ca: char = a.get_char(i);
        let cb: char = b.get_char(i);
        if ca != cb {
            return (ca as u32) < (cb as u32);
        }
        i = i + 1;
    }
    i == la && i < lb
}

/// A row listed by a text key.
pub trait TextKeyed: Sized {
    /// The key the row is listed by.
    spec fn text_key(&self) -> Seq<char>;

    /// The key, borrowed.
    fn key_text(&self) -> (r: &str)
        ensures
            r@ == self.text_key(),
    ;
}

/// Where `x` goes in `sorted`: after every row whose key does not sort
/// after its own, so rows with equal keys keep their arrival order.
pub open spec fn insert_pos<T: TextKeyed>(sorted: Seq<T>, x: T) -> int
    decreases sorted.len(),
{
    if sorted.len() == 0 {
        0
    } else if text_lt(x.text_key(), sorted[0].text_key()) {
        0
    } else {
        1 + insert_pos(sorted.drop_first(), x)
    }
}

/// `items` listed in key order by insertion, stable for equal keys.
pub open spec fn sorted_by_text<T: TextKeyed>(items: Seq<T>) -> Seq<T>
    decreases items.len(),
{
    if items.len() == 0 {
        Seq::empty()
    } else {
        let front = sorted_by_text(items.drop_last());
        front.insert(insert_pos(front, items.last()), items.last())
    }
}

/// The insertion position lies within the sequence.
pub proof fn lemma_insert_pos_bounds<T: TextKeyed>(sorted: Seq<T>, x: T)
    ensures
        0 <= insert_pos(sorted, x) <= sorted.len(),
    decreases sorted.len(),
{
    if sorted.len() > 0 {
        lemma_insert_pos_bounds(sorted.drop_first(), x);
    }
}

/// Sorting keeps the number of rows.
pub proof fn lemma_sorted_len<T: TextKeyed>(items: Seq<T>)
    ensures
        sorted_by_text(items).len() == items.len(),
    decreases items.len(),
{
    if items.len() > 0 {
        lemma_sorted_len(items.drop_last());
        lemma_insert_pos_bounds(sorted_by_text(items.drop_last()), items.last());
    }
}

/// The first position whose key sorts after `x`'s, with none before it, is
/// the insertion position.
proof fn lemma_insert_pos_is<T: TextKeyed>(sorted: Seq<T>, x: T, p: int)
    requires
        0 <= p <= sorted.len(),
        forall|j: int| 0 <= j < p ==> !text_lt(x.text_key(), (#[trigger] sorted[j]).text_key()),
        p < sorted.len() ==> text_lt(x.text_key(), sorted[p].text_key()),
    ensures
        insert_pos(sorted, x) == p,
    decreases p,
{
    if p > 0 {
        let rest = sorted.drop_first();
        assert forall|j: int| 0 <= j < p - 1 implies !text_lt(x.text_key(), (#[trigger] rest[j]).text_key()) by {
            assert(rest[j] == sorted[j + 1]);
        }
        if p - 1 < rest.len() {
            assert(rest[p - 1] == sorted[p]);
        }
        lemma_insert_pos_is(rest, x, p - 1);
        assert(!text_lt(x.text_key(), sorted[0].text_key()));
    }
}

/// Lists `items` in key order, stable for equal keys.
pub fn sort_by_text<T: TextKeyed>(items: Vec<T>) -> (r: Vec<T>)
    ensures
        r@ == sorted_by_text(items@),
{
    let ghost all = items@;
    assert(all.len() == items.len());
    let mut rest: Vec<T> = items;
    let mut out: Vec<T> = Vec::new();
    let mut k: usize = 0;
    while rest.len() > 0
        invariant
            k <= all.len() <= usize::MAX,
            rest@ == all.subrange(k as int, all.len() as int),
            out@ == sorted_by_text(all.subrange(0, k as int)),
        decreases rest@.len(),
    {
        let ghost before_out = out@;
        let x: T = rest.remove(0);
        proof {
            assert(x == all[k as int]);
            lemma_sorted_len(all.subrange(0, k as int));
        }
        let mut p: usize = 0;
        while p < out.len()
            invariant
                out@ == before_out,
                p <= out@.len(),
                forall|j: int| 0 <= j < p ==> !text_lt(x.text_key(), (#[trigger] out@[j]).text_key()),
            ensures
                out@ == before_out,
                p <= out@.len(),
                forall|j: int| 0 <= j < p ==> !text_lt(x.text_key(), (#[trigger] out@[j]).text_key()),
                p < out@.len() ==> text_lt(x.text_key(), out@[p as int].text_key()),
            decreases out@.len() - p,
        {
            if text_less(x.key_text(), out[p].key_text()) {
                break;
            }
            p = p + 1;
        }
        proof {
            lemma_insert_pos_is(before_out, x, p as int);
            let taken = all.subrange(0, k as int + 1);
            assert(taken.drop_last() =~= all.subrange(0, k as int));
            assert(taken.last() == x);
        }
        out.insert(p, x);
        k = k + 1;
        proof {
            assert(rest@ =~= all.subrange(k as int, all.len() as int));
        }
    }
    proof {
        assert(all.subrange(0, k as int) =~= all);
    }
    out
}

/// No text sorts before itself.
pub proof fn lemma_text_lt_irreflexive(a: Seq<char>, i: int)
    requires
        0 <= i,
    ensures
        !text_lt_from(a, a, i),
    decreases a.len() - i,
{
    if i < a.len() {
        lemma_text_lt_irreflexive(a, i + 1);
    }
}

/// Sorting before is transitive.
pub proof fn lemma_text_lt_transitive(a: Seq<char>, b: Seq<char>, c: Seq<char>, i: int)
    requires
        0 <= i,
        text_lt_from(a, b, i),
        text_lt_from(b, c, i),
    ensures
        text_lt_from(a, c, i),
    decreases a.len() - i,
{
    if i < a.len() && i < b.len() && i < c.len() && a[i] == b[i] && b[i] == c[i] {
        lemma_text_lt_transitive(a, b, c, i + 1);
    }
}

/// No row of `s` has a key sorting before that of an earlier row.
pub open spec fn text_ordered<T: TextKeyed>(s: Seq<T>) -> bool {
    forall|i: int, j: int| 0 <= i < j < s.len() ==> !text_lt((#[trigger] s[j]).text_key(), (#[trigger] s[i]).text_key())
}

/// What the insertion position is: no row before it sorts after `x`, and
/// the row at it, if any, does.
pub proof fn lemma_insert_pos_facts<T: TextKeyed>(sorted: Seq<T>, x: T)
    ensures
        forall|j: int|
            0 <= j < insert_pos(sorted, x) ==> !text_lt(x.text_key(), (#[trigger] sorted[j]).text_key()),
        insert_pos(sorted, x) < sorted.len() ==> text_lt(x.text_key(), sorted[insert_pos(sorted, x)].text_key()),
    decreases sorted.len(),
{
    if sorted.len() > 0 && !text_lt(x.text_key(), sorted[0].text_key()) {
        let rest = sorted.drop_first();
        lemma_insert_pos_facts(rest, x);
        lemma_insert_pos_bounds(rest, x);
        assert forall|j: int| 0 <= j < insert_pos(sorted, x) implies !text_lt(
            x.text_key(),
            (#[trigger] sorted[j]).text_key(),
        ) by {
            if j > 0 {
                assert(sorted[j] == rest[j - 1]);
            }
        }
        if insert_pos(sorted, x) < sorted.len() {
            assert(sorted[insert_pos(sorted, x)] == rest[insert_pos(rest, x)]);
        }
    }
}

/// A listing comes out in key order: no row's key sorts before an earlier
/// row's.
pub proof fn lemma_sorted_by_text_ordered<T: TextKeyed>(items: Seq<T>)
    ensures
        text_ordered(sorted_by_text(items)),
    decreases items.len(),
{
    if items.len() > 0 {
        let front = sorted_by_text(items.drop_last());
        let x = items.last();
        lemma_sorted_by_text_ordered(items.drop_last());
        lemma_insert_pos_bounds(front, x);
        lemma_insert_pos_facts(front, x);
        let p = insert_pos(front, x);
        let r = front.insert(p, x);
        assert forall|i: int, j: int| 0 <= i < j < r.len() implies !text_lt(
            (#[trigger] r[j]).text_key(),
            (#[trigger] r[i]).text_key(),
        ) by {
            if j < p {
                assert(r[i] == front[i] && r[j] == front[j]);
            } else if j == p {
                assert(r[i] == front[i] && r[j] == x);
            } else if i < p {
                assert(r[i] == front[i] && r[j] == front[j - 1]);
            } else if i == p {
                assert(r[i] == x && r[j] == front[j - 1]);
                if text_lt(front[j - 1].text_key(), x.text_key()) {
                    lemma_text_lt_transitive(front[j - 1].text_key(), x.text_key(), front[p].text_key(), 0);
                    if j - 1 == p {
                        lemma_text_lt_irreflexive(front[p].text_key(), 0);
                    }
                }
            } else {
                assert(r[i] == front[i - 1] && r[j] == front[j - 1]);
            }
        }
    }
}

/// A listing holds only rows it was given.
pub proof fn lemma_sorted_from_items<T: TextKeyed>(items: Seq<T>)
    ensures
        forall|i: int|
            0 <= i < sorted_by_text(items).len() ==> exists|j: int|
                0 <= j < items.len() && items[j] == #[trigger] sorted_by_text(items)[i],
    decreases items.len(),
{
    if items.len() > 0 {
        let front_items = items.drop_last();
        let front = sorted_by_text(front_items);
        let x = items.last();
        lemma_sorted_from_items(front_items);
        lemma_insert_pos_bounds(front, x);
        let p = insert_pos(front, x);
        let r = front.insert(p, x);
        assert forall|i: int| 0 <= i < r.len() implies exists|j: int|
            0 <= j < items.len() && items[j] == #[trigger] r[i] by {
            if i < p {
                assert(r[i] == front[i]);
                let j = choose|j: int| 0 <= j < front_items.len() && front_items[j] == #[trigger] front[i];
                assert(items[j] == front_items[j]);
            } else if i == p {
                assert(items[items.len() - 1] == r[i]);
            } else {
                assert(r[i] == front[i - 1]);
                let j = choose|j: int| 0 <= j < front_items.len() && front_items[j] == #[trigger] front[i - 1];
                assert(items[j] == front_items[j]);
            }
        }
    }
}

} // verus!
