//! The sizes that the details of a model show, taken from its GGUF metadata.
use vstd::prelude::*;
use crate::text::{chars_of, push_str, str_eq, string_from};

verus! {

/// Metadata entries as (key, value read as an unsigned number, if it is one).
pub open spec fn entry_views(entries: Seq<(String, Option<u64>)>) -> Seq<(Seq<char>, Option<u64>)> {
    entries.map_values(|e: (String, Option<u64>)| (e.0@, e.1))
}

/// The entry under `key`: none when no entry has that key, else the number
/// it holds (none when its value is no unsigned number). The first entry with
/// the key decides.
pub open spec fn meta_lookup(entries: Seq<(Seq<char>, Option<u64>)>, key: Seq<char>) -> Option<Option<u64>>
    decreases entries.len(),
{
    if entries.len() == 0 {
        None
    } else if entries[0].0 == key {
        Some(entries[0].1)
    } else {
        meta_lookup(entries.drop_first(), key)
    }
}

/// The number under `key`, if the key is there and holds one.
pub open spec fn meta_number(entries: Seq<(Seq<char>, Option<u64>)>, key: Seq<char>) -> Option<u64> {
    match meta_lookup(entries, key) {
        Some(v) => v,
        None => None,
    }
}

/// The context length: `general.context_length` where that key is present,
/// else `<arch>.context_length`.
pub open spec fn context_length_of(entries: Seq<(Seq<char>, Option<u64>)>, arch: Seq<char>) -> Option<u64> {
    match meta_lookup(entries, "general.context_length"@) {
        Some(v) => v,
        None => meta_number(entries, arch + ".context_length"@),
    }
}

/// The sizes that the model details show.
pub struct ModelDims {
    /// The context length it was trained for.
    pub context_length: Option<u64>,
    /// The embedding width.
    pub embedding_length: Option<u64>,
    /// The number of layers.
    pub block_count: Option<u64>,
}

fn lookup(entries: &[(String, Option<u64>)], key: &str) -> (res: Option<Option<u64>>)
    ensures
        res == meta_lookup(entry_views(entries@), key@),
{
    let ghost ev = entry_views(entries@);
    let mut i: usize = 0;
    proof {
        assert(ev.skip(0) =~= ev);
    }
    while i < entries.len()
        invariant
            i <= entries@.len(),
            ev == entry_views(entries@),
            meta_lookup(ev, key@) == meta_lookup(ev.skip(i as int), key@),
        decreases entries@.len() - i,
    {
        let k = chars_of(entries[i].0.as_str());
        proof {
            assert(ev.skip(i as int)[0] == ev[i as int]);
            assert(ev.skip(i as int).drop_first() =~= ev.skip(i + 1));
        }
        if str_eq(k.as_slice(), key) {
            return Some(entries[i].1);
        }
        i = i + 1;
    }
    None
}

/// The context length, embedding width and layer count in a model's metadata
/// (see `context_length_of` and `meta_number`), for the architecture `arch`.
pub fn model_dims(arch: &str, entries: &[(String, Option<u64>)]) -> (res: ModelDims)
    ensures
        res.context_length == context_length_of(entry_views(entries@), arch@),
        res.embedding_length == meta_number(entry_views(entries@), arch@ + ".embedding_length"@),
        res.block_count == meta_number(entry_views(entries@), arch@ + ".block_count"@),
{
    let context_length = match lookup(entries, "general.context_length") {
        Some(v) => v,
        None => {
            let mut key = string_from(arch);
            push_str(&mut key, ".context_length");
            match lookup(entries, key.as_str()) {
                Some(v) => v,
                None => None,
            }
        },
    };
    let mut ekey = string_from(arch);
    push_str(&mut ekey, ".embedding_length");
    let embedding_length = match lookup(entries, ekey.as_str()) {
        Some(v) => v,
        None => None,
    };
    let mut bkey = string_from(arch);
    push_str(&mut bkey, ".block_count");
    let block_count = match lookup(entries, bkey.as_str()) {
        Some(v) => v,
        None => None,
    };
    ModelDims { context_length, embedding_length, block_count }
}

} // verus!
