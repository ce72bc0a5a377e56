//! Breadth-first search for an executable in a directory tree.
//!
//! The caller lists the directories (the tree below a starting directory, as
//! deep as the search goes) into a `DirNode`; the search order and the choice
//! are decided here. Directories of one level are visited in the order of their
//! parents, and the sub-directories of one directory with those whose lower-cased
//! name holds the keyword first, then by lower-cased name; directories that
//! compare equal keep the listing's order.
use vstd::prelude::*;
use crate::text::{chars_of, contains, lex_le, lex_le_exec, lower, lower_vec, slice_contains, string_of};
use vstd::utf8::is_ascii_chars;

verus! {

/// One listed directory.
pub struct DirNode {
    /// Its own name (the last component of its path).
    pub name: String,
    /// Its full path, as the caller will use it.
    pub path: String,
    /// Names of the regular files in it.
    pub files: Vec<String>,
    /// Its sub-directories (listed to the depth the search needs).
    pub dirs: Vec<DirNode>,
}

/// What a directory must hold to be the one searched for.
#[derive(Clone, Copy, Debug, PartialEq, Eq)]
pub enum Probe {
    /// A file of that name.
    File,
    /// An entry of that name, file or directory.
    Entry,
}

/// `str::to_lowercase` (Unicode lower case) of `s`.
pub uninterp spec fn unicode_lowercase(s: Seq<char>) -> Seq<char>;

/// `str::to_lowercase`.
///
/// The result is named, not described: Unicode case mapping is the standard
/// library's matter.
#[verifier::external_body]
pub(crate) fn to_lowercase(s: &str) -> (res: String)
    ensures
        res@ == unicode_lowercase(s@),
{
    s.to_lowercase()
}

/// Lower case as `str::to_lowercase` gives it: for ASCII text the ASCII mapping
/// (which is what Unicode prescribes there), for other text the standard
/// library's result.
pub open spec fn lowercase_text(s: Seq<char>) -> Seq<char> {
    if is_ascii_chars(s) {
        lower(s)
    } else {
        unicode_lowercase(s)
    }
}

fn is_ascii_exec(s: &[char]) -> (res: bool)
    ensures
        res == is_ascii_chars(s@),
{
    let mut i: usize = 0;
    while i < s.len()
        invariant
            i <= s@.len(),
            forall|k: int| 0 <= k < i ==> '\0' <= #[trigger] s@[k] <= '\u{7f}',
        decreases s@.len() - i,
    {
        if (s[i] as u32) >= 128 {
            return false;
        }
        proof {
            crate::base64url::lemma_ascii_char_pub(s@[i as int]);
        }
        i = i + 1;
    }
    true
}

/// Lower-cased copy (see `lowercase_text`).
pub fn lowercase_chars(s: &[char]) -> (res: Vec<char>)
    ensures
        res@ == lowercase_text(s@),
{
    if is_ascii_exec(s) {
        lower_vec(s)
    } else {
        let t = string_of(s);
        let l = to_lowercase(t.as_str());
        chars_of(l.as_str())
    }
}

/// Sort key of a directory: keyword holders first, then the lower-cased name.
pub open spec fn key_le(a: DirNode, b: DirNode, keyword: Seq<char>) -> bool {
    let an = lowercase_text(a.name@);
    let bn = lowercase_text(b.name@);
    let ak = contains(an, keyword);
    let bk = contains(bn, keyword);
    (ak && !bk) || (ak == bk && lex_le(an, bn))
}

/// `x` placed into the sorted `s` after every element that does not come after it.
pub open spec fn insert_sorted(x: DirNode, s: Seq<DirNode>, keyword: Seq<char>) -> Seq<DirNode>
    decreases s.len(),
{
    if s.len() == 0 || key_le(s.last(), x, keyword) {
        s.push(x)
    } else {
        insert_sorted(x, s.drop_last(), keyword).push(s.last())
    }
}

/// Stable sort of `s` by the directory key.
pub open spec fn sorted_dirs(s: Seq<DirNode>, keyword: Seq<char>) -> Seq<DirNode>
    decreases s.len(),
{
    if s.len() == 0 {
        Seq::empty()
    } else {
        insert_sorted(s.last(), sorted_dirs(s.drop_last(), keyword), keyword)
    }
}

/// The sub-directories of a level: those of each directory sorted, directory
/// after directory.
pub open spec fn children_level(level: Seq<DirNode>, keyword: Seq<char>) -> Seq<DirNode>
    decreases level.len(),
{
    if level.len() == 0 {
        Seq::empty()
    } else {
        children_level(level.drop_last(), keyword) + sorted_dirs(level.last().dirs@, keyword)
    }
}

/// The next level. With `whole`, the whole level is sorted by the directory
/// key (keyword holders first across the level, then the lower-cased name);
/// otherwise each directory's sub-directories are sorted among themselves.
pub open spec fn next_level(level: Seq<DirNode>, keyword: Seq<char>, whole: bool) -> Seq<DirNode> {
    if whole {
        sorted_dirs(children_level(level, keyword), keyword)
    } else {
        children_level(level, keyword)
    }
}

/// Directories at depth `d` below `root`, in visiting order.
pub open spec fn level_at(root: DirNode, d: nat, keyword: Seq<char>, whole: bool) -> Seq<DirNode>
    decreases d,
{
    if d == 0 {
        seq![root]
    } else {
        next_level(level_at(root, (d - 1) as nat, keyword, whole), keyword, whole)
    }
}

/// Visiting order down to depth `max`.
pub open spec fn search_order(root: DirNode, max: nat, keyword: Seq<char>, whole: bool) -> Seq<DirNode>
    decreases max,
{
    if max == 0 {
        level_at(root, 0, keyword, whole)
    } else {
        search_order(root, (max - 1) as nat, keyword, whole) + level_at(root, max, keyword, whole)
    }
}

/// The directory holds the entry searched for.
pub open spec fn holds(n: DirNode, name: Seq<char>, probe: Probe) -> bool {
    (exists|i: int| 0 <= i < n.files@.len() && (#[trigger] n.files@[i])@ == name) || (probe
        is Entry && exists|i: int| 0 <= i < n.dirs@.len() && (#[trigger] n.dirs@[i]).name@ == name)
}

/// The first directory of `order` that holds the entry.
pub open spec fn first_holding(order: Seq<DirNode>, name: Seq<char>, probe: Probe) -> Option<int>
    decreases order.len(),
{
    if order.len() == 0 {
        None
    } else if holds(order[0], name, probe) {
        Some(0)
    } else {
        match first_holding(order.drop_first(), name, probe) {
            Some(i) => Some(i + 1),
            None => None,
        }
    }
}

proof fn lemma_first_holding(order: Seq<DirNode>, name: Seq<char>, probe: Probe, i: int)
    requires
        0 <= i < order.len(),
        holds(order[i], name, probe),
        forall|j: int| 0 <= j < i ==> !holds(#[trigger] order[j], name, probe),
    ensures
        first_holding(order, name, probe) == Some(i),
    decreases i,
{
    if i > 0 {
        assert(!holds(order[0], name, probe));
        let t = order.drop_first();
        assert forall|j: int| 0 <= j < i - 1 implies !holds(#[trigger] t[j], name, probe) by {
            assert(t[j] == order[j + 1]);
        }
        lemma_first_holding(t, name, probe, i - 1);
    }
}

proof fn lemma_first_holding_none(order: Seq<DirNode>, name: Seq<char>, probe: Probe)
    requires
        forall|j: int| 0 <= j < order.len() ==> !holds(#[trigger] order[j], name, probe),
    ensures
        first_holding(order, name, probe) is None,
    decreases order.len(),
{
    if order.len() > 0 {
        assert(!holds(order[0], name, probe));
        let t = order.drop_first();
        assert forall|j: int| 0 <= j < t.len() implies !holds(#[trigger] t[j], name, probe) by {
            assert(t[j] == order[j + 1]);
        }
        lemma_first_holding_none(t, name, probe);
    }
}

proof fn lemma_first_holding_props(order: Seq<DirNode>, name: Seq<char>, probe: Probe)
    ensures
        first_holding(order, name, probe) matches Some(i) ==> 0 <= i < order.len() && holds(
            order[i],
            name,
            probe,
        ) && forall|j: int| 0 <= j < i ==> !holds(#[trigger] order[j], name, probe),
    decreases order.len(),
{
    if order.len() > 0 && !holds(order[0], name, probe) {
        let t = order.drop_first();
        lemma_first_holding_props(t, name, probe);
        if let Some(i) = first_holding(order, name, probe) {
            assert(order[i] == t[i - 1]);
            assert forall|j: int| 0 <= j < i implies !holds(#[trigger] order[j], name, probe) by {
                if j > 0 {
                    assert(order[j] == t[j - 1]);
                }
            }
        }
    }
}

/// Lower-cased name and keyword flag of a directory.
struct Keyed<'a> {
    node: &'a DirNode,
    lname: Vec<char>,
    kw: bool,
}

spec fn keyed_ok(k: Keyed, keyword: Seq<char>) -> bool {
    &&& k.lname@ == lowercase_text(k.node.name@)
    &&& k.kw == contains(k.lname@, keyword)
}

fn keyed<'a>(n: &'a DirNode, keyword: &[char]) -> (res: Keyed<'a>)
    ensures
        res.node == n,
        keyed_ok(res, keyword@),
{
    let nm = chars_of(n.name.as_str());
    let lname = lowercase_chars(nm.as_slice());
    let kw = slice_contains(lname.as_slice(), keyword);
    Keyed { node: n, lname, kw }
}

fn key_le_exec(a: &Keyed, b: &Keyed, Ghost(keyword): Ghost<Seq<char>>) -> (res: bool)
    requires
        keyed_ok(*a, keyword),
        keyed_ok(*b, keyword),
    ensures
        res == key_le(*a.node, *b.node, keyword),
{
    (a.kw && !b.kw) || (a.kw == b.kw && lex_le_exec(a.lname.as_slice(), b.lname.as_slice()))
}

spec fn nodes_of(v: Seq<Keyed>) -> Seq<DirNode> {
    v.map_values(|k: Keyed| *k.node)
}

/// The directories `nodes`, stably sorted by the directory key.
fn sort_nodes<'a>(nodes: &Vec<&'a DirNode>, keyword: &[char]) -> (res: Vec<&'a DirNode>)
    ensures
        res@.map_values(|r: &DirNode| *r) == sorted_dirs(nodes@.map_values(|r: &DirNode| *r), keyword@),
{
    let ghost ns = nodes@.map_values(|r: &DirNode| *r);
    let mut out: Vec<Keyed<'a>> = Vec::new();
    let mut i: usize = 0;
    while i < nodes.len()
        invariant
            i <= ns.len(),
            ns == nodes@.map_values(|r: &DirNode| *r),
            nodes_of(out@) == sorted_dirs(ns.take(i as int), keyword@),
            forall|k: int| 0 <= k < out@.len() ==> keyed_ok(#[trigger] out@[k], keyword@),
        decreases ns.len() - i,
    {
        let x = keyed(nodes[i], keyword);
        proof {
            assert(ns.take(i + 1).drop_last() =~= ns.take(i as int));
            assert(ns.take(i + 1).last() == ns[i as int]);
        }
        let ghost before = nodes_of(out@);
        // position: after the last element that does not come after `x`
        let mut j: usize = out.len();
        proof {
            assert(before.take(j as int) =~= before);
            assert(before.skip(j as int) =~= Seq::<DirNode>::empty());
            assert(insert_sorted(*x.node, before, keyword@) + Seq::<DirNode>::empty() =~= insert_sorted(*x.node, before, keyword@));
        }
        while j > 0 && !key_le_exec(&out[j - 1], &x, Ghost(keyword@))
            invariant
                j <= out@.len(),
                nodes_of(out@) == before,
                keyed_ok(x, keyword@),
                forall|k: int| 0 <= k < out@.len() ==> keyed_ok(#[trigger] out@[k], keyword@),
                insert_sorted(*x.node, before, keyword@) == insert_sorted(
                    *x.node,
                    before.take(j as int),
                    keyword@,
                ) + before.skip(j as int),
            decreases j,
        {
            proof {
                let t = before.take(j as int);
                assert(t.last() == *out@[j - 1].node);
                assert(t.drop_last() =~= before.take(j - 1));
                assert(before.skip(j - 1) =~= seq![t.last()] + before.skip(j as int));
                assert(insert_sorted(*x.node, t, keyword@) == insert_sorted(
                    *x.node,
                    before.take(j - 1),
                    keyword@,
                ).push(t.last()));
                assert(insert_sorted(*x.node, before.take(j - 1), keyword@).push(t.last())
                    + before.skip(j as int) =~= insert_sorted(
                    *x.node,
                    before.take(j - 1),
                    keyword@,
                ) + before.skip(j - 1));
            }
            j = j - 1;
        }
        proof {
            let t = before.take(j as int);
            if j > 0 {
                assert(t.last() == *out@[j - 1].node);
            }
            assert(insert_sorted(*x.node, t, keyword@) == t.push(*x.node));
        }
        out.insert(j, x);
        proof {
            assert(nodes_of(out@) =~= before.take(j as int).push(*x.node) + before.skip(j as int));
            assert forall|k: int| 0 <= k < out@.len() implies keyed_ok(#[trigger] out@[k], keyword@) by {
            }
        }
        i = i + 1;
    }
    proof {
        assert(ns.take(ns.len() as int) =~= ns);
    }
    let mut res: Vec<&'a DirNode> = Vec::new();
    let mut k: usize = 0;
    while k < out.len()
        invariant
            k <= out@.len(),
            res@.map_values(|r: &DirNode| *r) == nodes_of(out@).take(k as int),
        decreases out@.len() - k,
    {
        let ghost prev = res@;
        res.push(out[k].node);
        k = k + 1;
        proof {
            assert(res@ =~= prev.push(out@[k - 1].node));
            assert(nodes_of(out@).take(k as int) =~= nodes_of(out@).take(k - 1).push(
                *out@[k - 1].node,
            ));
            assert(res@.map_values(|r: &DirNode| *r) =~= prev.map_values(|r: &DirNode| *r).push(
                *out@[k - 1].node,
            ));
        }
    }
    proof {
        assert(nodes_of(out@).take(out@.len() as int) =~= nodes_of(out@));
    }
    res
}

/// Sub-directories of `n`, sorted.
fn sorted_children<'a>(n: &'a DirNode, keyword: &[char]) -> (res: Vec<&'a DirNode>)
    ensures
        res@.map_values(|r: &DirNode| *r) == sorted_dirs(n.dirs@, keyword@),
{
    let mut refs: Vec<&'a DirNode> = Vec::new();
    let mut i: usize = 0;
    while i < n.dirs.len()
        invariant
            i <= n.dirs@.len(),
            refs@.map_values(|r: &DirNode| *r) == n.dirs@.take(i as int),
        decreases n.dirs@.len() - i,
    {
        let ghost prev = refs@;
        refs.push(&n.dirs[i]);
        proof {
            assert(refs@.map_values(|r: &DirNode| *r) =~= prev.map_values(|r: &DirNode| *r).push(
                n.dirs@[i as int],
            ));
            assert(n.dirs@.take(i + 1) =~= n.dirs@.take(i as int).push(n.dirs@[i as int]));
        }
        i = i + 1;
    }
    proof {
        assert(n.dirs@.take(n.dirs@.len() as int) =~= n.dirs@);
    }
    sort_nodes(&refs, keyword)
}

/// Whether the directory holds the entry (see `holds`).
pub fn dir_holds(n: &DirNode, name: &str, probe: Probe) -> (res: bool)
    ensures
        res == holds(*n, name@, probe),
{
    let target = chars_of(name);
    let mut i: usize = 0;
    while i < n.files.len()
        invariant
            i <= n.files@.len(),
            target@ == name@,
            forall|j: int| 0 <= j < i ==> (#[trigger] n.files@[j])@ != name@,
        decreases n.files@.len() - i,
    {
        let f = chars_of(n.files[i].as_str());
        if crate::text::str_eq(f.as_slice(), name) {
            proof {
                assert(n.files@[i as int]@ == name@);
            }
            return true;
        }
        i = i + 1;
    }
    match probe {
        Probe::File => false,
        Probe::Entry => {
            let mut k: usize = 0;
            while k < n.dirs.len()
                invariant
                    k <= n.dirs@.len(),
                    probe is Entry,
                    forall|j: int| 0 <= j < n.files@.len() ==> (#[trigger] n.files@[j])@ != name@,
                    forall|j: int| 0 <= j < k ==> (#[trigger] n.dirs@[j]).name@ != name@,
                decreases n.dirs@.len() - k,
            {
                let d = chars_of(n.dirs[k].name.as_str());
                if crate::text::str_eq(d.as_slice(), name) {
                    proof {
                        assert(n.dirs@[k as int].name@ == name@);
                    }
                    return true;
                }
                k = k + 1;
            }
            false
        },
    }
}

/// The first directory, in breadth-first order down to depth `max_depth`, that
/// holds `name` (as a file, or for `Probe::Entry` as any entry); `whole`
/// chooses how a level is ordered (see `next_level`).
pub fn bfs_find<'a>(
    root: &'a DirNode,
    name: &str,
    probe: Probe,
    keyword: &str,
    whole: bool,
    max_depth: usize,
) -> (res: Option<&'a DirNode>)
    ensures
        match first_holding(search_order(*root, max_depth as nat, keyword@, whole), name@, probe) {
            Some(i) => res == Some(&search_order(*root, max_depth as nat, keyword@, whole)[i]),
            None => res is None,
        },
{
    let kw = chars_of(keyword);
    let mut level: Vec<&'a DirNode> = Vec::new();
    level.push(root);
    let mut d: usize = 0;
    let ghost seen: Seq<DirNode> = Seq::empty();
    proof {
        assert(level@.map_values(|r: &DirNode| *r) =~= level_at(*root, 0, keyword@, whole));
    }
    loop
        invariant
            d <= max_depth,
            kw@ == keyword@,
            level@.map_values(|r: &DirNode| *r) == level_at(*root, d as nat, keyword@, whole),
            seen == (if d == 0 {
                Seq::<DirNode>::empty()
            } else {
                search_order(*root, (d - 1) as nat, keyword@, whole)
            }),
            forall|j: int| 0 <= j < seen.len() ==> !holds(#[trigger] seen[j], name@, probe),
        decreases max_depth - d,
    {
        let ghost lv = level@.map_values(|r: &DirNode| *r);
        let ghost order = seen + lv;
        proof {
            if d == 0 {
                assert(order =~= search_order(*root, 0, keyword@, whole));
            } else {
                assert(order == search_order(*root, d as nat, keyword@, whole));
            }
        }
        let mut i: usize = 0;
        while i < level.len()
            invariant
                i <= level@.len(),
                lv == level@.map_values(|r: &DirNode| *r),
                order == seen + lv,
                order == search_order(*root, d as nat, keyword@, whole),
                d <= max_depth,
                forall|j: int| 0 <= j < seen.len() ==> !holds(#[trigger] seen[j], name@, probe),
                forall|j: int| 0 <= j < i ==> !holds(#[trigger] lv[j], name@, probe),
            decreases level@.len() - i,
        {
            if dir_holds(level[i], name, probe) {
                proof {
                    assert forall|j: int| 0 <= j < seen.len() + i implies !holds(
                        #[trigger] order[j],
                        name@,
                        probe,
                    ) by {
                        if j < seen.len() {
                            assert(order[j] == seen[j]);
                        } else {
                            assert(order[j] == lv[j - seen.len()]);
                        }
                    }
                    assert(order[seen.len() + i] == lv[i as int]);
                    lemma_first_holding(order, name@, probe, seen.len() + i);
                    lemma_first_holding_prefix(
                        *root,
                        d as nat,
                        max_depth as nat,
                        keyword@,
                        whole,
                        name@,
                        probe,
                        seen.len() + i,
                    );
                }
                return Some(level[i]);
            }
            i = i + 1;
        }
        proof {
            assert forall|j: int| 0 <= j < order.len() implies !holds(#[trigger] order[j], name@, probe) by {
                if j < seen.len() {
                    assert(order[j] == seen[j]);
                } else {
                    assert(order[j] == lv[j - seen.len()]);
                }
            }
        }
        if d == max_depth {
            proof {
                lemma_first_holding_none(order, name@, probe);
            }
            return None;
        }
        let mut next: Vec<&'a DirNode> = Vec::new();
        let mut k: usize = 0;
        while k < level.len()
            invariant
                k <= level@.len(),
                kw@ == keyword@,
                lv == level@.map_values(|r: &DirNode| *r),
                next@.map_values(|r: &DirNode| *r) == children_level(lv.take(k as int), keyword@),
            decreases level@.len() - k,
        {
            let children = sorted_children(level[k], kw.as_slice());
            let ghost before = next@.map_values(|r: &DirNode| *r);
            let mut c: usize = 0;
            while c < children.len()
                invariant
                    c <= children@.len(),
                    next@.map_values(|r: &DirNode| *r) == before + children@.map_values(
                        |r: &DirNode| *r,
                    ).take(c as int),
                decreases children@.len() - c,
            {
                let ghost prev = next@;
                next.push(children[c]);
                c = c + 1;
                proof {
                    let cm = children@.map_values(|r: &DirNode| *r);
                    assert(next@ =~= prev.push(children@[c - 1]));
                    assert(next@.map_values(|r: &DirNode| *r) =~= prev.map_values(
                        |r: &DirNode| *r,
                    ).push(cm[c - 1]));
                    assert(cm.take(c as int) =~= cm.take(c - 1).push(cm[c - 1]));
                    assert(next@.map_values(|r: &DirNode| *r) =~= before + cm.take(c as int));
                }
            }
            proof {
                assert(children@.map_values(|r: &DirNode| *r).take(children@.len() as int)
                    =~= children@.map_values(|r: &DirNode| *r));
                assert(lv.take(k + 1).drop_last() =~= lv.take(k as int));
                assert(lv.take(k + 1).last() == *level@[k as int]);
            }
            k = k + 1;
        }
        proof {
            assert(lv.take(level@.len() as int) =~= lv);
            assert(order == search_order(*root, d as nat, keyword@, whole));
        }
        if whole {
            next = sort_nodes(&next, kw.as_slice());
        }
        level = next;
        d = d + 1;
        proof {
            seen = order;
        }
    }
}

proof fn lemma_search_order_prefix(root: DirNode, d: nat, max: nat, keyword: Seq<char>, whole: bool)
    requires
        d <= max,
    ensures
        search_order(root, max, keyword, whole).len() >= search_order(root, d, keyword, whole).len(),
        forall|j: int|
            0 <= j < search_order(root, d, keyword, whole).len() ==> #[trigger] search_order(
                root,
                max,
                keyword,
                whole,
            )[j] == search_order(root, d, keyword, whole)[j],
    decreases max,
{
    if d < max {
        lemma_search_order_prefix(root, d, (max - 1) as nat, keyword, whole);
    }
}

proof fn lemma_first_holding_extend(small: Seq<DirNode>, big: Seq<DirNode>, name: Seq<char>, probe: Probe, i: int)
    requires
        big.len() >= small.len(),
        forall|j: int| 0 <= j < small.len() ==> #[trigger] big[j] == small[j],
        first_holding(small, name, probe) == Some(i),
    ensures
        first_holding(big, name, probe) == Some(i),
{
    lemma_first_holding_props(small, name, probe);
    assert(big[i] == small[i]);
    assert forall|j: int| 0 <= j < i implies !holds(#[trigger] big[j], name, probe) by {
        assert(big[j] == small[j]);
    }
    lemma_first_holding(big, name, probe, i);
}

proof fn lemma_first_holding_prefix(
    root: DirNode,
    d: nat,
    max: nat,
    keyword: Seq<char>,
    whole: bool,
    name: Seq<char>,
    probe: Probe,
    i: int,
)
    requires
        d <= max,
        first_holding(search_order(root, d, keyword, whole), name, probe) == Some(i),
    ensures
        first_holding(search_order(root, max, keyword, whole), name, probe) == Some(i),
        search_order(root, max, keyword, whole)[i] == search_order(root, d, keyword, whole)[i],
{
    lemma_first_holding_props(search_order(root, d, keyword, whole), name, probe);
    lemma_search_order_prefix(root, d, max, keyword, whole);
    lemma_first_holding_extend(search_order(root, d, keyword, whole), search_order(root, max, keyword, whole), name, probe, i);
}

} // verus!
