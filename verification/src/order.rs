//! The column order of a table that is written out.

use crate::types::{texts, InputFrame};
use vstd::prelude::*;
use vstd::seq_lib::to_multiset_insert;
use vstd::string::StringSliceAdditionalSpecFns;
use vstd::utf8::encode_utf8;

verus! {

/// Whether `a` comes no later than `b` when the bytes are compared one by one
/// from position `i` on, a shorter text before its extensions.
pub open spec fn bytes_le_from(a: Seq<u8>, b: Seq<u8>, i: int) -> bool
    decreases a.len() - i,
{
    if i >= a.len() {
        true
    } else if i >= b.len() {
        false
    } else if a[i] != b[i] {
        a[i] < b[i]
    } else {
        bytes_le_from(a, b, i + 1)
    }
}

/// The order of names: lexicographic by the bytes of their UTF-8 encoding.
pub open spec fn name_le(a: Seq<char>, b: Seq<char>) -> bool {
    bytes_le_from(encode_utf8(a), encode_utf8(b), 0)
}

/// Whether each name comes no later than the one after it.
pub open spec fn sorted_names(names: Seq<Seq<char>>) -> bool {
    forall|i: int| 0 <= i < names.len() - 1 ==> name_le(#[trigger] names[i], names[i + 1])
}

/// Of two texts, one comes no later than the other.
pub proof fn lemma_bytes_le_total(a: Seq<u8>, b: Seq<u8>, i: int)
    requires
        0 <= i,
    ensures
        bytes_le_from(a, b, i) || bytes_le_from(b, a, i),
    decreases a.len() - i,
{
    if i < a.len() && i < b.len() && a[i] == b[i] {
        lemma_bytes_le_total(a, b, i + 1);
    }
}

/// Whether `a` comes no later than `b` in the order of names.
pub fn name_precedes(a: &str, b: &str) -> (r: bool)
    ensures
        r == name_le(a@, b@),
{
    let x = a.as_bytes();
    let y = b.as_bytes();
    let mut i: usize = 0;
    while i < x.len() && i < y.len()
        invariant
            i <= x@.len(),
            i <= y@.len(),
            x@ == a.spec_bytes(),
            y@ == b.spec_bytes(),
            name_le(a@, b@) == bytes_le_from(x@, y@, i as int),
        decreases x@.len() - i,
    {
        if x[i] != y[i] {
            return x[i] < y[i];
        }
        i = i + 1;
    }
    i >= x.len()
}

/// Puts names in order. The result holds the same names, each as often as
/// before.
pub fn sort_names(names: Vec<String>) -> (r: Vec<String>)
    ensures
        sorted_names(texts(r@)),
        texts(r@).to_multiset() == texts(names@).to_multiset(),
{
    let mut sorted: Vec<String> = Vec::new();
    let n = names.len();
    let mut i: usize = 0;
    assert(texts(sorted@) =~= texts(names@).subrange(0, 0));
    while i < n
        invariant
            i <= n,
            n == names@.len(),
            sorted_names(texts(sorted@)),
            texts(sorted@).to_multiset() == texts(names@).subrange(0, i as int).to_multiset(),
        decreases n - i,
    {
        let item = names[i].clone();
        let ghost before = texts(sorted@);
        let m = sorted.len();
        let mut p: usize = 0;
        while p < m && name_precedes(sorted[p].as_str(), item.as_str())
            invariant
                p <= m,
                m == sorted@.len(),
                before == texts(sorted@),
                forall|j: int| 0 <= j < p ==> name_le(#[trigger] before[j], item@),
            decreases m - p,
        {
            p = p + 1;
        }
        proof {
            if p < m {
                lemma_bytes_le_total(encode_utf8(before[p as int]), encode_utf8(item@), 0);
            }
            to_multiset_insert(before, p as int, item@);
            let done = texts(names@).subrange(0, i as int);
            let next = texts(names@).subrange(0, i + 1);
            assert(next =~= done.push(item@));
            vstd::seq_lib::to_multiset_build(done, item@);
        }
        sorted.insert(p, item);
        proof {
            let after = texts(sorted@);
            assert(after =~= before.insert(p as int, item@));
            assert forall|j: int| 0 <= j < after.len() - 1 implies name_le(
                #[trigger] after[j],
                after[j + 1],
            ) by {
                if j + 1 < p {
                    assert(after[j] == before[j] && after[j + 1] == before[j + 1]);
                } else if j + 1 == p {
                    assert(after[j] == before[j]);
                } else if j == p {
                    assert(after[j + 1] == before[j]);
                } else {
                    assert(after[j] == before[j - 1] && after[j + 1] == before[j]);
                }
            }
        }
        i = i + 1;
    }
    assert(texts(names@).subrange(0, n as int) =~= texts(names@));
    sorted
}

/// The column order for writing a sequence out: the button order of the
/// mapping where there is one; else the button names of the first frame, in
/// the order of names; else no column.
pub fn column_order(button_order: &Vec<String>, frames: &Vec<InputFrame>) -> (r: Vec<String>)
    ensures
        button_order@.len() > 0 ==> texts(r@) == texts(button_order@),
        button_order@.len() == 0 && frames@.len() > 0 ==> sorted_names(texts(r@)) && texts(
            r@,
        ).to_multiset() == frames@[0].buttons.names().to_multiset(),
        button_order@.len() == 0 && frames@.len() == 0 ==> r@.len() == 0,
{
    if button_order.len() > 0 {
        let n = button_order.len();
        let mut order: Vec<String> = Vec::new();
        let mut i: usize = 0;
        while i < n
            invariant
                i <= n,
                n == button_order@.len(),
                order@.len() == i,
                forall|j: int| 0 <= j < i ==> (#[trigger] order@[j])@ == button_order@[j]@,
            decreases n - i,
        {
            order.push(button_order[i].clone());
            i = i + 1;
        }
        assert(texts(order@) =~= texts(button_order@));
        order
    } else if frames.len() > 0 {
        let keys = frames[0].buttons.keys();
        assert(texts(keys@) =~= frames@[0].buttons.names());
        sort_names(keys)
    } else {
        Vec::new()
    }
}

} // verus!
