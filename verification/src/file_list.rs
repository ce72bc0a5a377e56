//! The order of the model picker's list: files sorted by path, with a folder
//! title before each run of files from the same sub-folder.
use vstd::prelude::*;
use crate::text::{chars_of, lex_le, lex_le_exec, names_of, str_eq};

verus! {

/// `ord` lists each index below `n` once.
pub open spec fn is_index_perm(ord: Seq<usize>, n: nat) -> bool {
    &&& ord.len() == n
    &&& forall|j: int| 0 <= j < ord.len() ==> #[trigger] ord[j] < n
    &&& forall|j: int, k: int| 0 <= j < k < ord.len() ==> #[trigger] ord[j] != #[trigger] ord[k]
}

/// The keys taken in the order `ord` never go down.
pub open spec fn sorted_by(ks: Seq<Seq<char>>, ord: Seq<usize>) -> bool {
    forall|j: int, k: int|
        #![trigger ord[j], ord[k]]
        0 <= j < k < ord.len() ==> lex_le(ks[ord[j] as int], ks[ord[k] as int])
}

/// Equal keys keep the order of their indices.
pub open spec fn stable_on(ks: Seq<Seq<char>>, ord: Seq<usize>) -> bool {
    forall|j: int, k: int|
        #![trigger ord[j], ord[k]]
        0 <= j < k < ord.len() && ks[ord[j] as int] == ks[ord[k] as int] ==> ord[j] < ord[k]
}

/// `ord` is the stable sort of the keys `ks`: every index once, the keys in
/// text order, equal keys in their first order.
pub open spec fn is_sort_order(ks: Seq<Seq<char>>, ord: Seq<usize>) -> bool {
    &&& is_index_perm(ord, ks.len())
    &&& sorted_by(ks, ord)
    &&& stable_on(ks, ord)
}

/// Whether a folder title comes before the `k`-th file, whose folder is
/// `folders[k]`: the folder is not the chosen one and differs from the
/// folder of the file before.
pub open spec fn folder_header(root: Seq<char>, folders: Seq<Seq<char>>, k: int) -> bool {
    folders[k] != root && (k == 0 || folders[k - 1] != folders[k])
}

proof fn lemma_lex_total(a: Seq<char>, b: Seq<char>)
    ensures
        lex_le(a, b) || lex_le(b, a),
    decreases a.len(),
{
    if a.len() > 0 && b.len() > 0 && (a[0] as u32) == (b[0] as u32) {
        lemma_lex_total(a.drop_first(), b.drop_first());
    }
}

proof fn lemma_lex_trans(a: Seq<char>, b: Seq<char>, c: Seq<char>)
    requires
        lex_le(a, b),
        lex_le(b, c),
    ensures
        lex_le(a, c),
    decreases a.len(),
{
    if a.len() > 0 && b.len() > 0 && c.len() > 0 && (a[0] as u32) == (b[0] as u32) && (b[0] as u32)
        == (c[0] as u32) {
        lemma_lex_trans(a.drop_first(), b.drop_first(), c.drop_first());
    }
}

/// Puts index `i` into the sorted order `ord` of the indices below it, after
/// every key not above its own.
proof fn lemma_insert_sorted(ks: Seq<Seq<char>>, ord: Seq<usize>, i: usize, p: int)
    requires
        i < ks.len(),
        is_index_perm(ord, i as nat),
        sorted_by(ks, ord),
        stable_on(ks, ord),
        0 <= p <= ord.len(),
        forall|j: int| 0 <= j < p ==> lex_le(ks[#[trigger] ord[j] as int], ks[i as int]),
        p < ord.len() ==> !lex_le(ks[ord[p] as int], ks[i as int]),
    ensures
        is_index_perm(ord.insert(p, i), (i + 1) as nat),
        sorted_by(ks, ord.insert(p, i)),
        stable_on(ks, ord.insert(p, i)),
{
    let o2 = ord.insert(p, i);
    ord.insert_ensures(p, i);
    assert forall|j: int| 0 <= j < o2.len() implies #[trigger] o2[j] < i + 1 by {
        if j > p {
            assert(o2[j] == ord[j - 1]);
        }
    }
    assert forall|j: int, k: int| 0 <= j < k < o2.len() implies #[trigger] o2[j] != #[trigger] o2[k] by {
        if j < p && k < p {
        } else if j < p && k == p {
            assert(ord[j] < i);
        } else if j < p {
            assert(o2[k] == ord[k - 1]);
        } else if j == p {
            assert(o2[k] == ord[k - 1]);
            assert(ord[k - 1] < i);
        } else {
            assert(o2[j] == ord[j - 1]);
            assert(o2[k] == ord[k - 1]);
        }
    }
    if p < ord.len() {
        lemma_lex_total(ks[ord[p] as int], ks[i as int]);
    }
    assert forall|j: int, k: int|
        #![trigger o2[j], o2[k]]
        0 <= j < k < o2.len() implies lex_le(ks[o2[j] as int], ks[o2[k] as int]) && (ks[o2[j] as int]
            == ks[o2[k] as int] ==> o2[j] < o2[k]) by {
        if k < p {
            assert(o2[j] == ord[j] && o2[k] == ord[k]);
        } else if k == p {
            assert(o2[j] == ord[j]);
            assert(ord[j] < i);
        } else if j < p {
            assert(o2[j] == ord[j] && o2[k] == ord[k - 1]);
        } else if j == p {
            let q = k - 1;
            assert(o2[k] == ord[q]);
            if q > p {
                assert(lex_le(ks[ord[p] as int], ks[ord[q] as int]));
                lemma_lex_trans(ks[i as int], ks[ord[p] as int], ks[ord[q] as int]);
            }
            if ks[i as int] == ks[ord[q] as int] {
                if q > p {
                    assert(lex_le(ks[ord[p] as int], ks[ord[q] as int]));
                }
                assert(false);
            }
        } else {
            assert(o2[j] == ord[j - 1] && o2[k] == ord[k - 1]);
        }
    }
}

/// The stable sort of the keys: the indices of `keys` in text order (see
/// `is_sort_order`).
pub fn sort_order(keys: &[String]) -> (res: Vec<usize>)
    ensures
        is_sort_order(names_of(keys@), res@),
{
    let ghost ks = names_of(keys@);
    let mut cs: Vec<Vec<char>> = Vec::new();
    let mut c: usize = 0;
    while c < keys.len()
        invariant
            c <= keys@.len(),
            ks == names_of(keys@),
            cs@.len() == c,
            forall|j: int| 0 <= j < c ==> (#[trigger] cs@[j])@ == ks[j],
        decreases keys@.len() - c,
    {
        cs.push(chars_of(keys[c].as_str()));
        c = c + 1;
    }
    let mut out: Vec<usize> = Vec::new();
    let mut i: usize = 0;
    while i < keys.len()
        invariant
            i <= keys@.len(),
            ks == names_of(keys@),
            cs@.len() == keys@.len(),
            forall|j: int| 0 <= j < keys@.len() ==> (#[trigger] cs@[j])@ == ks[j],
            is_index_perm(out@, i as nat),
            sorted_by(ks, out@),
            stable_on(ks, out@),
        decreases keys@.len() - i,
    {
        let mut p: usize = 0;
        let mut stop = false;
        while !stop && p < out.len()
            invariant
                i < keys@.len(),
                cs@.len() == keys@.len(),
                forall|j: int| 0 <= j < keys@.len() ==> (#[trigger] cs@[j])@ == ks[j],
                is_index_perm(out@, i as nat),
                p <= out@.len(),
                forall|j: int| 0 <= j < p ==> lex_le(ks[#[trigger] out@[j] as int], ks[i as int]),
                stop ==> p < out@.len() && !lex_le(ks[out@[p as int] as int], ks[i as int]),
            decreases out@.len() - p + if stop {
                0int
            } else {
                1int
            },
        {
            let o = out[p];
            if lex_le_exec(cs[o].as_slice(), cs[i].as_slice()) {
                p = p + 1;
            } else {
                stop = true;
            }
        }
        proof {
            lemma_insert_sorted(ks, out@, i, p as int);
        }
        out.insert(p, i);
        i = i + 1;
    }
    out
}

/// For files listed in order with their folders `folders`, whether a folder
/// title comes before each (see `folder_header`); `root` is the chosen
/// folder, whose own files get no title.
pub fn folder_headers(root: &str, folders: &[String]) -> (res: Vec<bool>)
    ensures
        res@.len() == folders@.len(),
        forall|k: int| 0 <= k < res@.len() ==> #[trigger] res@[k] == folder_header(root@, names_of(folders@), k),
{
    let ghost fs = names_of(folders@);
    let mut out: Vec<bool> = Vec::new();
    let mut k: usize = 0;
    while k < folders.len()
        invariant
            k <= folders@.len(),
            fs == names_of(folders@),
            out@.len() == k,
            forall|j: int| 0 <= j < k ==> #[trigger] out@[j] == folder_header(root@, fs, j),
        decreases folders@.len() - k,
    {
        let f = chars_of(folders[k].as_str());
        let in_root = str_eq(f.as_slice(), root);
        let same = k > 0 && folders[k - 1] == folders[k];
        out.push(!in_root && !same);
        k = k + 1;
    }
    out
}

} // verus!
