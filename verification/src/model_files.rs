//! Model files: which `.gguf` files a picker lists, and the coloured tags that a
//! file name is cut into.
use vstd::prelude::*;
use crate::dirtree::{lowercase_chars, lowercase_text, DirNode};
use crate::text::{
    chars_of, contains, ends_with, is_digit, slice_sub, split, split_exec, starts_with,
    str_contains, str_ends_with, str_eq, str_starts_with, string_of, trim, trim_vec, views,
};

verus! {

/// What a part of a model file name says.
#[derive(Clone, Copy, Debug, PartialEq, Eq, Structural)]
pub enum TagKind {
    /// Parameter count (`7b`, `350m`).
    ParamSize,
    /// Quantisation (`q4_k_m`, `iq3_xs`).
    Quantization,
    /// A version number (`3.1`).
    Version,
    /// Training method (`instruct`, `dpo`).
    TrainingMethod,
    /// Precision (`fp16`, `bf16`).
    Precision,
    /// LoRA, adapter or delta weights.
    Adapter,
    /// Context length (`32k`, `long`).
    ContextLength,
    /// Architecture family (`mamba`, `rwkv`).
    Architecture,
    /// Anything else: part of the model's name.
    Name,
}

impl TagKind {
    /// The colour of the tag, as red, green and blue.
    pub fn rgb(&self) -> (res: [u8; 3])
        ensures
            res@ == match *self {
                TagKind::ParamSize => seq![180u8, 120u8, 255u8],
                TagKind::Quantization => seq![255u8, 165u8, 0u8],
                TagKind::Version => seq![160u8, 160u8, 160u8],
                TagKind::TrainingMethod => seq![100u8, 200u8, 100u8],
                TagKind::Precision => seq![255u8, 215u8, 0u8],
                TagKind::Adapter => seq![255u8, 100u8, 130u8],
                TagKind::ContextLength => seq![205u8, 133u8, 63u8],
                TagKind::Architecture => seq![0u8, 210u8, 210u8],
                TagKind::Name => seq![100u8, 150u8, 255u8],
            },
    {
        let res: [u8; 3] = match *self {
            TagKind::ParamSize => [180u8, 120u8, 255u8],
            TagKind::Quantization => [255u8, 165u8, 0u8],
            TagKind::Version => [160u8, 160u8, 160u8],
            TagKind::TrainingMethod => [100u8, 200u8, 100u8],
            TagKind::Precision => [255u8, 215u8, 0u8],
            TagKind::Adapter => [255u8, 100u8, 130u8],
            TagKind::ContextLength => [205u8, 133u8, 63u8],
            TagKind::Architecture => [0u8, 210u8, 210u8],
            TagKind::Name => [100u8, 150u8, 255u8],
        };
        proof {
            assert(res@ =~= match *self {
                TagKind::ParamSize => seq![180u8, 120u8, 255u8],
                TagKind::Quantization => seq![255u8, 165u8, 0u8],
                TagKind::Version => seq![160u8, 160u8, 160u8],
                TagKind::TrainingMethod => seq![100u8, 200u8, 100u8],
                TagKind::Precision => seq![255u8, 215u8, 0u8],
                TagKind::Adapter => seq![255u8, 100u8, 130u8],
                TagKind::ContextLength => seq![205u8, 133u8, 63u8],
                TagKind::Architecture => seq![0u8, 210u8, 210u8],
                TagKind::Name => seq![100u8, 150u8, 255u8],
            });
        }
        res
    }
}

/// Some character of `s` is an ASCII digit.
pub open spec fn has_digit(s: Seq<char>) -> bool {
    exists|i: int| 0 <= i < s.len() && is_digit(#[trigger] s[i])
}

/// A parameter count: a digit somewhere, ending in `b` or `m`.
pub open spec fn param_size(s: Seq<char>) -> bool {
    has_digit(s) && (ends_with(s, seq!['b']) || ends_with(s, seq!['m']))
}

/// A quantisation: `iq` then a digit, or `q` then a digit.
pub open spec fn quantization(s: Seq<char>) -> bool {
    (starts_with(s, seq!['i', 'q']) && s.len() > 2 && is_digit(s[2])) || (starts_with(
        s,
        seq!['q'],
    ) && s.len() > 1 && is_digit(s[1]))
}

/// Only ASCII digits and dots.
pub open spec fn version_number(s: Seq<char>) -> bool {
    forall|i: int| 0 <= i < s.len() ==> is_digit(#[trigger] s[i]) || s[i] == '.'
}

/// Names a training method.
pub open spec fn training_method(s: Seq<char>) -> bool {
    contains(s, "instruct"@) || contains(s, "chat"@) || contains(s, "sft"@) || contains(
        s,
        "rlhf"@,
    ) || contains(s, "dpo"@) || contains(s, "orpo"@) || contains(s, "grpo"@)
}

/// Names a precision.
pub open spec fn precision(s: Seq<char>) -> bool {
    contains(s, "fp16"@) || contains(s, "bf16"@) || contains(s, "f32"@) || contains(s, "fp8"@)
}

/// Names adapter weights.
pub open spec fn adapter(s: Seq<char>) -> bool {
    contains(s, "lora"@) || contains(s, "adapter"@) || contains(s, "delta"@)
}

/// A context length: ends in `k` with a digit somewhere, holds `long`, or is
/// one of `128`, `64`, `32`.
pub open spec fn context_length(s: Seq<char>) -> bool {
    (ends_with(s, seq!['k']) && has_digit(s)) || contains(s, "long"@) || s == "128"@ || s
        == "64"@ || s == "32"@
}

/// Names an architecture family.
pub open spec fn architecture(s: Seq<char>) -> bool {
    contains(s, "mamba"@) || contains(s, "rwkv"@) || contains(s, "hyena"@) || contains(
        s,
        "decoder"@,
    )
}

/// The kind of a trimmed part `t` whose lower-cased form is `l`; the first rule
/// that fits decides, a quantisation form (`Q4_K_M`) before a parameter size.
pub open spec fn kind_of(t: Seq<char>, l: Seq<char>) -> TagKind {
    if quantization(l) {
        TagKind::Quantization
    } else if param_size(l) {
        TagKind::ParamSize
    } else if version_number(t) {
        TagKind::Version
    } else if training_method(l) {
        TagKind::TrainingMethod
    } else if precision(l) {
        TagKind::Precision
    } else if adapter(l) {
        TagKind::Adapter
    } else if context_length(l) {
        TagKind::ContextLength
    } else if architecture(l) {
        TagKind::Architecture
    } else {
        TagKind::Name
    }
}

/// The file name without a final `.gguf`.
pub open spec fn model_stem(name: Seq<char>) -> Seq<char> {
    if ends_with(name, ".gguf"@) {
        name.take(name.len() - 5)
    } else {
        name
    }
}

/// The tag of one `-`-separated part: none for a part that is only white space.
pub open spec fn tag_of(part: Seq<char>) -> Option<(Seq<char>, TagKind)> {
    let t = trim(part);
    if t.len() == 0 {
        None
    } else {
        Some((t, kind_of(t, lowercase_text(t))))
    }
}

/// The tags of the parts, in order.
pub open spec fn tags_of(parts: Seq<Seq<char>>) -> Seq<(Seq<char>, TagKind)>
    decreases parts.len(),
{
    if parts.len() == 0 {
        Seq::empty()
    } else {
        let rest = tags_of(parts.drop_last());
        match tag_of(parts.last()) {
            Some(x) => rest.push(x),
            None => rest,
        }
    }
}

/// The tags of a model file name.
pub open spec fn file_tags(name: Seq<char>) -> Seq<(Seq<char>, TagKind)> {
    tags_of(split(model_stem(name), '-'))
}

/// The tags as a caller holds them.
pub open spec fn tag_views(v: Seq<(String, TagKind)>) -> Seq<(Seq<char>, TagKind)> {
    v.map_values(|p: (String, TagKind)| (p.0@, p.1))
}

fn has_digit_exec(s: &[char]) -> (res: bool)
    ensures
        res == has_digit(s@),
{
    let mut i: usize = 0;
    while i < s.len()
        invariant
            i <= s@.len(),
            forall|k: int| 0 <= k < i ==> !is_digit(#[trigger] s@[k]),
        decreases s@.len() - i,
    {
        if crate::text::char_is_digit(s[i]) {
            return true;
        }
        i = i + 1;
    }
    false
}

fn is_param_size(s: &[char]) -> (res: bool)
    ensures
        res == param_size(s@),
{
    let b = vec!['b'];
    let m = vec!['m'];
    proof {
        assert(b@ =~= seq!['b']);
        assert(m@ =~= seq!['m']);
    }
    has_digit_exec(s) && (crate::text::slice_ends_with(s, b.as_slice())
        || crate::text::slice_ends_with(s, m.as_slice()))
}

fn is_quantization(s: &[char]) -> (res: bool)
    ensures
        res == quantization(s@),
{
    let iq = vec!['i', 'q'];
    let q = vec!['q'];
    proof {
        assert(iq@ =~= seq!['i', 'q']);
        assert(q@ =~= seq!['q']);
    }
    if crate::text::slice_starts_with(s, iq.as_slice()) && s.len() > 2
        && crate::text::char_is_digit(s[2]) {
        return true;
    }
    crate::text::slice_starts_with(s, q.as_slice()) && s.len() > 1 && crate::text::char_is_digit(
        s[1],
    )
}

fn is_version_number(s: &[char]) -> (res: bool)
    ensures
        res == version_number(s@),
{
    let mut i: usize = 0;
    while i < s.len()
        invariant
            i <= s@.len(),
            forall|k: int| 0 <= k < i ==> is_digit(#[trigger] s@[k]) || s@[k] == '.',
        decreases s@.len() - i,
    {
        if !(crate::text::char_is_digit(s[i]) || s[i] == '.') {
            return false;
        }
        i = i + 1;
    }
    true
}

fn is_training_method(s: &[char]) -> (res: bool)
    ensures
        res == training_method(s@),
{
    str_contains(s, "instruct") || str_contains(s, "chat") || str_contains(s, "sft")
        || str_contains(s, "rlhf") || str_contains(s, "dpo") || str_contains(s, "orpo")
        || str_contains(s, "grpo")
}

fn is_precision(s: &[char]) -> (res: bool)
    ensures
        res == precision(s@),
{
    str_contains(s, "fp16") || str_contains(s, "bf16") || str_contains(s, "f32") || str_contains(
        s,
        "fp8",
    )
}

fn is_adapter(s: &[char]) -> (res: bool)
    ensures
        res == adapter(s@),
{
    str_contains(s, "lora") || str_contains(s, "adapter") || str_contains(s, "delta")
}

fn is_context_length(s: &[char]) -> (res: bool)
    ensures
        res == context_length(s@),
{
    let k = vec!['k'];
    proof {
        assert(k@ =~= seq!['k']);
    }
    (crate::text::slice_ends_with(s, k.as_slice()) && has_digit_exec(s)) || str_contains(s, "long")
        || str_eq(s, "128") || str_eq(s, "64") || str_eq(s, "32")
}

fn is_architecture(s: &[char]) -> (res: bool)
    ensures
        res == architecture(s@),
{
    str_contains(s, "mamba") || str_contains(s, "rwkv") || str_contains(s, "hyena")
        || str_contains(s, "decoder")
}

fn classify(t: &[char], l: &[char]) -> (res: TagKind)
    ensures
        res == kind_of(t@, l@),
{
    if is_quantization(l) {
        TagKind::Quantization
    } else if is_param_size(l) {
        TagKind::ParamSize
    } else if is_version_number(t) {
        TagKind::Version
    } else if is_training_method(l) {
        TagKind::TrainingMethod
    } else if is_precision(l) {
        TagKind::Precision
    } else if is_adapter(l) {
        TagKind::Adapter
    } else if is_context_length(l) {
        TagKind::ContextLength
    } else if is_architecture(l) {
        TagKind::Architecture
    } else {
        TagKind::Name
    }
}

/// Cuts a model file name (`.gguf` dropped) at `-` into tags: each part
/// trimmed, empty parts skipped, and classified on its lower-cased form.
pub fn parse_tags(filename: &str) -> (res: Vec<(String, TagKind)>)
    ensures
        tag_views(res@) == file_tags(filename@),
{
    let name = chars_of(filename);
    let stem_end: usize = if str_ends_with(name.as_slice(), ".gguf") {
        proof {
            reveal_strlit(".gguf");
        }
        name.len() - 5
    } else {
        name.len()
    };
    let stem = slice_sub(name.as_slice(), 0, stem_end);
    proof {
        reveal_strlit(".gguf");
        assert(stem@ =~= model_stem(filename@));
    }
    let parts = split_exec(stem.as_slice(), '-');
    let ghost pv = views(parts@);
    let mut tags: Vec<(String, TagKind)> = Vec::new();
    let mut i: usize = 0;
    proof {
        assert(pv.take(0) =~= Seq::<Seq<char>>::empty());
    }
    while i < parts.len()
        invariant
            i <= parts@.len(),
            pv == views(parts@),
            tag_views(tags@) == tags_of(pv.take(i as int)),
        decreases parts@.len() - i,
    {
        let t = trim_vec(parts[i].as_slice());
        let ghost before = tag_views(tags@);
        proof {
            assert(pv.take(i + 1).drop_last() =~= pv.take(i as int));
            assert(pv.take(i + 1).last() == parts@[i as int]@);
        }
        if t.len() > 0 {
            let l = lowercase_chars(t.as_slice());
            let kind = classify(t.as_slice(), l.as_slice());
            tags.push((string_of(t.as_slice()), kind));
            proof {
                assert(tag_views(tags@) =~= before.push((t@, kind)));
            }
        }
        i = i + 1;
    }
    proof {
        assert(pv.take(parts@.len() as int) =~= pv);
    }
    tags
}

/// Which files a picker lists.
#[derive(Clone, Copy, Debug, PartialEq, Eq, Structural)]
pub enum FileMode {
    /// Main models: neither projectors nor draft models.
    Main,
    /// Multimodal projectors.
    Mmproj,
    /// DFlash draft models.
    Dflash,
}

/// A multimodal projector by name: its lower-cased form holds `mmproj`, `clip`,
/// or both `proj` and `vision`.
pub open spec fn mmproj_name(name: Seq<char>) -> bool {
    let l = lowercase_text(name);
    contains(l, "mmproj"@) || contains(l, "clip"@) || (contains(l, "proj"@) && contains(
        l,
        "vision"@,
    ))
}

/// A DFlash draft model by name.
pub open spec fn dflash_name(name: Seq<char>) -> bool {
    contains(lowercase_text(name), "dflash"@)
}

/// The picker in `mode` lists a file of this name: its lower-cased name ends in
/// `.gguf` and, lower-cased, is of the mode's kind.
pub open spec fn listed(name: Seq<char>, mode: FileMode) -> bool {
    let l = lowercase_text(name);
    ends_with(l, ".gguf"@) && match mode {
        FileMode::Main => !mmproj_name(l) && !dflash_name(l),
        FileMode::Mmproj => mmproj_name(l),
        FileMode::Dflash => dflash_name(l),
    }
}

/// Whether a file name is that of a multimodal projector.
pub fn is_mmproj_file(filename: &str) -> (res: bool)
    ensures
        res == mmproj_name(filename@),
{
    let cs = chars_of(filename);
    let l = lowercase_chars(cs.as_slice());
    str_contains(l.as_slice(), "mmproj") || str_contains(l.as_slice(), "clip") || (str_contains(
        l.as_slice(),
        "proj",
    ) && str_contains(l.as_slice(), "vision"))
}

/// Whether a file name is that of a DFlash draft model.
pub fn is_dflash_file(filename: &str) -> (res: bool)
    ensures
        res == dflash_name(filename@),
{
    let cs = chars_of(filename);
    let l = lowercase_chars(cs.as_slice());
    str_contains(l.as_slice(), "dflash")
}

/// Whether the picker in `mode` lists a file of this name.
pub fn include_model_file(filename: &str, mode: FileMode) -> (res: bool)
    ensures
        res == listed(filename@, mode),
{
    let cs = chars_of(filename);
    let l = lowercase_chars(cs.as_slice());
    if !str_ends_with(l.as_slice(), ".gguf") {
        return false;
    }
    let lower_name = string_of(l.as_slice());
    match mode {
        FileMode::Main => !is_mmproj_file(lower_name.as_str()) && !is_dflash_file(
            lower_name.as_str(),
        ),
        FileMode::Mmproj => is_mmproj_file(lower_name.as_str()),
        FileMode::Dflash => is_dflash_file(lower_name.as_str()),
    }
}

/// The listed files of one directory, as (directory path, file name).
pub open spec fn listed_here(n: DirNode, mode: FileMode) -> Seq<(Seq<char>, Seq<char>)> {
    listed_among(n.path@, n.files@, mode)
}

/// The listed names among `files`, each with `dir`.
pub open spec fn listed_among(dir: Seq<char>, files: Seq<String>, mode: FileMode) -> Seq<
    (Seq<char>, Seq<char>),
>
    decreases files.len(),
{
    if files.len() == 0 {
        Seq::empty()
    } else {
        let rest = listed_among(dir, files.drop_last(), mode);
        if listed(files.last()@, mode) {
            rest.push((dir, files.last()@))
        } else {
            rest
        }
    }
}

/// The listed files of a directory and all directories below it: those of the
/// directory first, then those below each sub-directory in turn.
pub open spec fn model_files_in(n: DirNode, mode: FileMode) -> Seq<(Seq<char>, Seq<char>)>
    decreases n, 1nat,
{
    listed_here(n, mode) + model_files_under(n, n.dirs@.len() as int, mode)
}

/// The listed files below the first `k` sub-directories of `n`.
pub open spec fn model_files_under(n: DirNode, k: int, mode: FileMode) -> Seq<
    (Seq<char>, Seq<char>),
>
    decreases n, 0nat, k,
{
    if k <= 0 || k > n.dirs@.len() {
        Seq::empty()
    } else {
        proof {
            assert(decreases_to!(n => n.dirs));
            assert(decreases_to!(n.dirs => n.dirs@));
            assert(decreases_to!(n.dirs@ => n.dirs@[k - 1]));
        }
        model_files_under(n, k - 1, mode) + model_files_in(n.dirs@[k - 1], mode)
    }
}

/// Output pairs as a caller holds them.
pub open spec fn pair_views(v: Seq<(String, String)>) -> Seq<(Seq<char>, Seq<char>)> {
    v.map_values(|p: (String, String)| (p.0@, p.1@))
}

fn collect_into(n: &DirNode, mode: FileMode, out: &mut Vec<(String, String)>)
    ensures
        pair_views(final(out)@) == pair_views(old(out)@) + model_files_in(*n, mode),
    decreases n,
{
    let ghost start = pair_views(out@);
    let mut i: usize = 0;
    proof {
        assert(n.files@.take(0) =~= Seq::<String>::empty());
        assert(start + listed_among(n.path@, n.files@.take(0), mode) =~= start);
    }
    while i < n.files.len()
        invariant
            i <= n.files@.len(),
            pair_views(out@) == start + listed_among(n.path@, n.files@.take(i as int), mode),
        decreases n.files@.len() - i,
    {
        let ghost before = pair_views(out@);
        proof {
            assert(n.files@.take(i + 1).drop_last() =~= n.files@.take(i as int));
            assert(n.files@.take(i + 1).last() == n.files@[i as int]);
        }
        if include_model_file(n.files[i].as_str(), mode) {
            let dir = string_of(chars_of(n.path.as_str()).as_slice());
            let name = string_of(chars_of(n.files[i].as_str()).as_slice());
            out.push((dir, name));
            proof {
                assert(pair_views(out@) =~= before.push((n.path@, n.files@[i as int]@)));
            }
        }
        i = i + 1;
    }
    proof {
        assert(n.files@.take(n.files@.len() as int) =~= n.files@);
        assert(pair_views(out@) == start + listed_here(*n, mode));
        assert(model_files_under(*n, 0, mode) =~= Seq::<(Seq<char>, Seq<char>)>::empty());
        assert(pair_views(out@) =~= start + listed_here(*n, mode) + model_files_under(*n, 0, mode));
    }
    let mut j: usize = 0;
    while j < n.dirs.len()
        invariant
            j <= n.dirs@.len(),
            pair_views(out@) == start + listed_here(*n, mode) + model_files_under(
                *n,
                j as int,
                mode,
            ),
        decreases n.dirs@.len() - j,
    {
        let ghost before = pair_views(out@);
        collect_into(&n.dirs[j], mode, out);
        proof {
            assert(pair_views(out@) =~= start + listed_here(*n, mode) + model_files_under(
                *n,
                j + 1,
                mode,
            ));
        }
        j = j + 1;
    }
    proof {
        assert(pair_views(out@) =~= start + model_files_in(*n, mode));
    }
}

/// The files that the picker in `mode` lists, in a directory and every
/// directory below it, each as (its directory's path, its name).
pub fn collect_model_files(tree: &DirNode, mode: FileMode) -> (res: Vec<(String, String)>)
    ensures
        pair_views(res@) == model_files_in(*tree, mode),
{
    let mut out: Vec<(String, String)> = Vec::new();
    collect_into(tree, mode, &mut out);
    proof {
        assert(pair_views(out@) =~= Seq::<(Seq<char>, Seq<char>)>::empty() + model_files_in(
            *tree,
            mode,
        ));
    }
    out
}

/// The directory named `want` (ignoring ASCII case, after lower-casing).
pub open spec fn named_dir(name: Seq<char>, want: Seq<char>) -> bool {
    crate::text::lower(lowercase_text(name)) == want
}

/// The first of `names` that is `want`.
pub open spec fn first_named_dir(names: Seq<Seq<char>>, want: Seq<char>) -> Option<int> {
    if exists|i: int| 0 <= i < names.len() && named_dir(names[i], want) {
        Some(
            choose|i: int|
                0 <= i < names.len() && named_dir(names[i], want) && forall|j: int|
                    0 <= j < i ==> !named_dir(#[trigger] names[j], want),
        )
    } else {
        None
    }
}

fn find_named_dir(names: &[String], want: &str) -> (res: Option<usize>)
    ensures
        match res {
            Some(i) => i < names@.len() && named_dir(names@[i as int]@, want@) && forall|j: int|
                0 <= j < i ==> !named_dir(#[trigger] names@[j]@, want@),
            None => forall|j: int| 0 <= j < names@.len() ==> !named_dir(#[trigger] names@[j]@, want@),
        },
{
    let mut i: usize = 0;
    while i < names.len()
        invariant
            i <= names@.len(),
            forall|j: int| 0 <= j < i ==> !named_dir(#[trigger] names@[j]@, want@),
        decreases names@.len() - i,
    {
        let cs = chars_of(names[i].as_str());
        let l = crate::text::lower_vec(lowercase_chars(cs.as_slice()).as_slice());
        if str_eq(l.as_slice(), want) {
            return Some(i);
        }
        i = i + 1;
    }
    None
}

proof fn lemma_first_named_dir(names: Seq<Seq<char>>, want: Seq<char>, i: int)
    requires
        0 <= i < names.len(),
        named_dir(names[i], want),
        forall|j: int| 0 <= j < i ==> !named_dir(#[trigger] names[j], want),
    ensures
        first_named_dir(names, want) == Some(i),
{
    let k = choose|k: int|
        0 <= k < names.len() && named_dir(names[k], want) && forall|j: int|
            0 <= j < k ==> !named_dir(#[trigger] names[j], want);
    assert(0 <= k < names.len() && named_dir(names[k], want));
    if k < i {
        assert(!named_dir(names[k], want));
    }
    if i < k {
        assert(!named_dir(names[i], want));
    }
}

/// Among the sub-directories of the program's directory, the one that holds the
/// models: the first named `models`, else the first named `model` (letters in
/// any case).
pub fn pick_model_dir(dir_names: &[String]) -> (res: Option<usize>)
    ensures
        res == match first_named_dir(crate::text::names_of(dir_names@), "models"@) {
            Some(i) => Some(i as usize),
            None => match first_named_dir(crate::text::names_of(dir_names@), "model"@) {
                Some(i) => Some(i as usize),
                None => None,
            },
        },
{
    let ghost nv = crate::text::names_of(dir_names@);
    match find_named_dir(dir_names, "models") {
        Some(i) => {
            proof {
                assert forall|j: int| 0 <= j < i implies !named_dir(#[trigger] nv[j], "models"@) by {
                    assert(nv[j] == dir_names@[j]@);
                }
                assert(nv[i as int] == dir_names@[i as int]@);
                lemma_first_named_dir(nv, "models"@, i as int);
            }
            Some(i)
        },
        None => {
            proof {
                if exists|j: int| 0 <= j < nv.len() && named_dir(nv[j], "models"@) {
                    let j = choose|j: int| 0 <= j < nv.len() && named_dir(nv[j], "models"@);
                    assert(nv[j] == dir_names@[j]@);
                }
            }
            match find_named_dir(dir_names, "model") {
                Some(i) => {
                    proof {
                        assert forall|j: int| 0 <= j < i implies !named_dir(
                            #[trigger] nv[j],
                            "model"@,
                        ) by {
                            assert(nv[j] == dir_names@[j]@);
                        }
                        assert(nv[i as int] == dir_names@[i as int]@);
                        lemma_first_named_dir(nv, "model"@, i as int);
                    }
                    Some(i)
                },
                None => {
                    proof {
                        if exists|j: int| 0 <= j < nv.len() && named_dir(nv[j], "model"@) {
                            let j = choose|j: int| 0 <= j < nv.len() && named_dir(nv[j], "model"@);
                            assert(nv[j] == dir_names@[j]@);
                        }
                    }
                    None
                },
            }
        },
    }
}

/// Every tag of a file name has text: empty parts (`a--b`) give no tag.
pub proof fn tags_have_text(name: Seq<char>)
    ensures
        forall|i: int| 0 <= i < file_tags(name).len() ==> (#[trigger] file_tags(name)[i]).0.len() > 0,
{
    lemma_tags_have_text(split(model_stem(name), '-'));
}

proof fn lemma_tags_have_text(parts: Seq<Seq<char>>)
    ensures
        forall|i: int| 0 <= i < tags_of(parts).len() ==> (#[trigger] tags_of(parts)[i]).0.len() > 0,
    decreases parts.len(),
{
    if parts.len() > 0 {
        lemma_tags_have_text(parts.drop_last());
        let rest = tags_of(parts.drop_last());
        let r = tags_of(parts);
        match tag_of(parts.last()) {
            Some(x) => {
                assert(r == rest.push(x));
                assert forall|i: int| 0 <= i < r.len() implies (#[trigger] r[i]).0.len() > 0 by {
                    if i < rest.len() {
                        assert(r[i] == rest[i]);
                    }
                }
            },
            None => {},
        }
    }
}

/// The main-model picker lists no projector and no draft model: a file listed
/// there is listed by neither of the other pickers.
pub proof fn main_excludes_projectors_and_drafts(name: Seq<char>)
    ensures
        listed(name, FileMode::Main) ==> !listed(name, FileMode::Mmproj) && !listed(
            name,
            FileMode::Dflash,
        ),
{
}

// ───────────── every listed file is found ─────────────

/// The directory reached from `n` by taking, level after level, the
/// sub-directory at each index of `path`.
pub open spec fn descend(n: DirNode, path: Seq<int>) -> Option<DirNode>
    decreases path.len(),
{
    if path.len() == 0 {
        Some(n)
    } else if 0 <= path[0] < n.dirs@.len() {
        descend(n.dirs@[path[0]], path.drop_first())
    } else {
        None
    }
}

proof fn lemma_contains_left(a: Seq<(Seq<char>, Seq<char>)>, b: Seq<(Seq<char>, Seq<char>)>, x: (
    Seq<char>,
    Seq<char>,
))
    requires
        a.contains(x),
    ensures
        (a + b).contains(x),
{
    let i = choose|i: int| 0 <= i < a.len() && a[i] == x;
    assert((a + b)[i] == x);
}

proof fn lemma_contains_right(a: Seq<(Seq<char>, Seq<char>)>, b: Seq<(Seq<char>, Seq<char>)>, x: (
    Seq<char>,
    Seq<char>,
))
    requires
        b.contains(x),
    ensures
        (a + b).contains(x),
{
    let i = choose|i: int| 0 <= i < b.len() && b[i] == x;
    assert((a + b)[a.len() + i] == x);
}

proof fn lemma_listed_among_has(dir: Seq<char>, files: Seq<String>, mode: FileMode, i: int)
    requires
        0 <= i < files.len(),
        listed(files[i]@, mode),
    ensures
        listed_among(dir, files, mode).contains((dir, files[i]@)),
    decreases files.len(),
{
    let rest = listed_among(dir, files.drop_last(), mode);
    if i == files.len() - 1 {
        assert(listed_among(dir, files, mode) == rest.push((dir, files.last()@)));
        assert(rest.push((dir, files.last()@))[rest.len() as int] == (dir, files[i]@));
    } else {
        assert(files.drop_last()[i] == files[i]);
        lemma_listed_among_has(dir, files.drop_last(), mode, i);
        let w = choose|w: int| 0 <= w < rest.len() && rest[w] == (dir, files[i]@);
        if listed(files.last()@, mode) {
            assert(rest.push((dir, files.last()@))[w] == (dir, files[i]@));
        }
    }
}

proof fn lemma_under_has(n: DirNode, k: int, j: int, mode: FileMode, x: (Seq<char>, Seq<char>))
    requires
        0 <= j < k <= n.dirs@.len(),
        model_files_in(n.dirs@[j], mode).contains(x),
    ensures
        model_files_under(n, k, mode).contains(x),
    decreases k,
{
    let prev = model_files_under(n, k - 1, mode);
    let last = model_files_in(n.dirs@[k - 1], mode);
    assert(model_files_under(n, k, mode) == prev + last);
    if j == k - 1 {
        lemma_contains_right(prev, last, x);
    } else {
        lemma_under_has(n, k - 1, j, mode, x);
        lemma_contains_left(prev, last, x);
    }
}

/// Every file that the picker lists, in the chosen directory or in any
/// directory below it at any depth, is in the collected list with its own
/// directory's path.
pub proof fn model_files_found_at_any_depth(tree: DirNode, path: Seq<int>, i: int, mode: FileMode)
    ensures
        (descend(tree, path) matches Some(d) && 0 <= i < d.files@.len() && listed(
            d.files@[i]@,
            mode,
        )) ==> model_files_in(tree, mode).contains((descend(tree, path)->0.path@, descend(tree, path)->0.files@[i]@)),
    decreases path.len(),
{
    if let Some(d) = descend(tree, path) {
        if 0 <= i < d.files@.len() && listed(d.files@[i]@, mode) {
            let x = (d.path@, d.files@[i]@);
            let here = listed_here(tree, mode);
            let under = model_files_under(tree, tree.dirs@.len() as int, mode);
            assert(model_files_in(tree, mode) == here + under);
            if path.len() == 0 {
                assert(d == tree);
                lemma_listed_among_has(d.path@, d.files@, mode, i);
                lemma_contains_left(here, under, x);
            } else {
                let c = tree.dirs@[path[0]];
                assert(descend(c, path.drop_first()) == Some(d));
                model_files_found_at_any_depth(c, path.drop_first(), i, mode);
                lemma_under_has(tree, tree.dirs@.len() as int, path[0], mode, x);
                lemma_contains_right(here, under, x);
            }
        }
    }
}

/// `x` is the listed file `i` of the directory reached by `path`, with that
/// directory's path.
pub open spec fn listed_file_at(tree: DirNode, path: Seq<int>, i: int, mode: FileMode, x: (
    Seq<char>,
    Seq<char>,
)) -> bool {
    match descend(tree, path) {
        Some(d) => 0 <= i < d.files@.len() && listed(d.files@[i]@, mode) && x == (
            d.path@,
            d.files@[i]@,
        ),
        None => false,
    }
}

proof fn lemma_listed_among_only(dir: Seq<char>, files: Seq<String>, mode: FileMode, x: (
    Seq<char>,
    Seq<char>,
))
    requires
        listed_among(dir, files, mode).contains(x),
    ensures
        exists|i: int| 0 <= i < files.len() && listed(files[i]@, mode) && x == (dir, #[trigger] files[i]@),
    decreases files.len(),
{
    let rest = listed_among(dir, files.drop_last(), mode);
    let w = choose|w: int|
        0 <= w < listed_among(dir, files, mode).len() && listed_among(dir, files, mode)[w] == x;
    if listed(files.last()@, mode) && w == rest.len() {
        let i = files.len() - 1;
        assert(x == (dir, files[i]@));
    } else {
        assert(rest[w] == x);
        lemma_listed_among_only(dir, files.drop_last(), mode, x);
        let i = choose|i: int|
            0 <= i < files.drop_last().len() && listed(files.drop_last()[i]@, mode) && x == (
                dir,
                #[trigger] files.drop_last()[i]@,
            );
        assert(files.drop_last()[i] == files[i]);
    }
}

proof fn lemma_under_only(n: DirNode, k: int, mode: FileMode, x: (Seq<char>, Seq<char>))
    requires
        model_files_under(n, k, mode).contains(x),
    ensures
        exists|j: int| 0 <= j < k && j < n.dirs@.len() && #[trigger] model_files_in(n.dirs@[j], mode).contains(x),
    decreases k,
{
    if 0 < k <= n.dirs@.len() {
        let prev = model_files_under(n, k - 1, mode);
        let last = model_files_in(n.dirs@[k - 1], mode);
        assert(model_files_under(n, k, mode) == prev + last);
        let w = choose|w: int| 0 <= w < (prev + last).len() && (prev + last)[w] == x;
        if w < prev.len() {
            assert(prev[w] == x);
            lemma_under_only(n, k - 1, mode, x);
        } else {
            assert(last[w - prev.len()] == x);
            assert(model_files_in(n.dirs@[k - 1], mode).contains(x));
        }
    }
}

/// The collected list holds nothing but listed files: each entry is a file
/// that the picker lists, in the chosen directory or a directory below it,
/// with that directory's path.
pub proof fn model_files_only_listed(tree: DirNode, mode: FileMode, x: (Seq<char>, Seq<char>))
    requires
        model_files_in(tree, mode).contains(x),
    ensures
        exists|path: Seq<int>, i: int| #[trigger] listed_file_at(tree, path, i, mode, x),
    decreases tree,
{
    let here = listed_here(tree, mode);
    let under = model_files_under(tree, tree.dirs@.len() as int, mode);
    assert(model_files_in(tree, mode) == here + under);
    let w = choose|w: int| 0 <= w < (here + under).len() && (here + under)[w] == x;
    if w < here.len() {
        assert(here[w] == x);
        lemma_listed_among_only(tree.path@, tree.files@, mode, x);
        let i = choose|i: int|
            0 <= i < tree.files@.len() && listed(tree.files@[i]@, mode) && x == (
                tree.path@,
                #[trigger] tree.files@[i]@,
            );
        let path: Seq<int> = Seq::empty();
        assert(listed_file_at(tree, path, i, mode, x));
    } else {
        assert(under[w - here.len()] == x);
        lemma_under_only(tree, tree.dirs@.len() as int, mode, x);
        let j = choose|j: int|
            0 <= j < tree.dirs@.len() as int && j < tree.dirs@.len() && #[trigger] model_files_in(
                tree.dirs@[j],
                mode,
            ).contains(x);
        let c = tree.dirs@[j];
        assert(decreases_to!(tree => tree.dirs));
        assert(decreases_to!(tree.dirs => tree.dirs@));
        assert(decreases_to!(tree.dirs@ => tree.dirs@[j]));
        model_files_only_listed(c, mode, x);
        let (p, i) = choose|p: Seq<int>, i: int| #[trigger] listed_file_at(c, p, i, mode, x);
        let path = seq![j] + p;
        assert(path.drop_first() =~= p);
        assert(descend(tree, path) == descend(c, p));
        assert(listed_file_at(tree, path, i, mode, x));
    }
}

} // verus!
