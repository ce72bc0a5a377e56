//! Presets as sets of settings: taking the listed fields out of the settings,
//! and laying a preset's fields over the settings.
use vstd::prelude::*;
use crate::json::{member, Json};
use crate::share::{keys_unique, lemma_member_concat, lemma_member_push};
use crate::text::{names_of, string_from};

verus! {

/// The members of `ms` whose keys are listed, in order.
pub open spec fn picked(ms: Seq<(String, Json)>, keys: Seq<Seq<char>>) -> Seq<(String, Json)>
    decreases ms.len(),
{
    if ms.len() == 0 {
        Seq::empty()
    } else {
        let rest = picked(ms.drop_last(), keys);
        if keys.contains(ms.last().0@) {
            rest.push(ms.last())
        } else {
            rest
        }
    }
}

/// The settings with a preset laid over them: each listed setting that the
/// preset holds takes the preset's value; every other setting stays.
pub open spec fn overlaid(
    settings: Seq<(String, Json)>,
    preset: Seq<(String, Json)>,
    keys: Seq<Seq<char>>,
) -> Seq<(String, Json)> {
    settings.map_values(
        |m: (String, Json)|
            if keys.contains(m.0@) && member(preset, m.0@) is Some {
                (m.0, member(preset, m.0@).unwrap())
            } else {
                m
            },
    )
}

fn listed(keys: &[String], k: &String) -> (res: bool)
    ensures
        res == names_of(keys@).contains(k@),
{
    let ghost kv = names_of(keys@);
    let mut i: usize = 0;
    while i < keys.len()
        invariant
            i <= keys@.len(),
            kv == names_of(keys@),
            forall|j: int| 0 <= j < i ==> kv[j] != k@,
        decreases keys@.len() - i,
    {
        if keys[i] == *k {
            proof {
                assert(kv[i as int] == k@);
            }
            return true;
        }
        i = i + 1;
    }
    false
}

/// The listed members of the settings: a preset's fields (see `picked`).
pub fn pick_members(ms: Vec<(String, Json)>, keys: &[String]) -> (res: Vec<(String, Json)>)
    ensures
        res@ == picked(ms@, names_of(keys@)),
{
    let ghost orig = ms@;
    let mut rest = ms;
    let mut out: Vec<(String, Json)> = Vec::new();
    let mut k: usize = 0;
    proof {
        assert(orig.len() == rest.len());
        assert(orig.take(0) =~= Seq::<(String, Json)>::empty());
        assert(orig.skip(0) =~= orig);
    }
    while rest.len() > 0
        invariant
            k <= orig.len(),
            orig.len() <= usize::MAX,
            rest@ == orig.skip(k as int),
            out@ == picked(orig.take(k as int), names_of(keys@)),
        decreases rest@.len(),
    {
        let m = rest.remove(0);
        proof {
            assert(m == orig[k as int]);
            assert(orig.take(k + 1).drop_last() =~= orig.take(k as int));
            assert(orig.take(k + 1).last() == m);
            assert(rest@ =~= orig.skip(k + 1));
        }
        if listed(keys, &m.0) {
            out.push(m);
        }
        k = k + 1;
    }
    proof {
        assert(orig.take(k as int) =~= orig);
    }
    out
}

proof fn lemma_member_split(s: Seq<(String, Json)>, i: int, k: Seq<char>)
    requires
        0 <= i < s.len(),
        forall|j: int| 0 <= j < i ==> (#[trigger] s[j]).0@ != s[i].0@,
    ensures
        member(s, s[i].0@) == Some(s[i].1),
        k != s[i].0@ ==> member(s.remove(i), k) == member(s, k),
{
    let a = s.take(i);
    let b = s.skip(i + 1);
    assert(s =~= a + (seq![s[i]] + b));
    assert(s.remove(i) =~= a + b);
    lemma_member_concat(a, seq![s[i]] + b, k);
    lemma_member_concat(a, seq![s[i]] + b, s[i].0@);
    lemma_member_concat(a, b, k);
    lemma_member_concat(seq![s[i]], b, k);
    lemma_member_concat(seq![s[i]], b, s[i].0@);
    assert(seq![s[i]].drop_first() =~= Seq::<(String, Json)>::empty());
    assert(member(Seq::<(String, Json)>::empty(), k) is None);
    assert(member(Seq::<(String, Json)>::empty(), s[i].0@) is None);
    assert(seq![s[i]][0] == s[i]);
    lemma_member_absent_prefix(a, s[i].0@);
}

proof fn lemma_member_absent_prefix(a: Seq<(String, Json)>, k: Seq<char>)
    requires
        forall|j: int| 0 <= j < a.len() ==> (#[trigger] a[j]).0@ != k,
    ensures
        member(a, k) is None,
    decreases a.len(),
{
    if a.len() > 0 {
        assert forall|j: int| 0 <= j < a.drop_first().len() implies (#[trigger] a.drop_first()[j]).0@
            != k by {
            assert(a.drop_first()[j] == a[j + 1]);
        }
        lemma_member_absent_prefix(a.drop_first(), k);
    }
}

/// Takes the first member under `key` out of `ms`.
fn take_member(ms: &mut Vec<(String, Json)>, key: &String) -> (res: Option<Json>)
    ensures
        res == member(old(ms)@, key@),
        forall|k: Seq<char>| k != key@ ==> #[trigger] member(final(ms)@, k) == member(old(ms)@, k),
{
    let mut i: usize = 0;
    while i < ms.len()
        invariant
            i <= ms@.len(),
            ms@ == old(ms)@,
            forall|j: int| 0 <= j < i ==> (#[trigger] ms@[j]).0@ != key@,
        decreases ms@.len() - i,
    {
        if ms[i].0 == *key {
            proof {
                assert forall|k: Seq<char>| k != key@ implies #[trigger] member(
                    ms@.remove(i as int),
                    k,
                ) == member(ms@, k) by {
                    lemma_member_split(ms@, i as int, k);
                }
                lemma_member_split(ms@, i as int, key@);
            }
            let m = ms.remove(i);
            return Some(m.1);
        }
        i = i + 1;
    }
    proof {
        lemma_member_absent_prefix(ms@, key@);
    }
    None
}

/// Lays a preset over the settings (see `overlaid`); the keys of the
/// settings are distinct, as in any JSON object.
pub fn apply_members(
    settings: Vec<(String, Json)>,
    preset: Vec<(String, Json)>,
    keys: &[String],
) -> (res: Vec<(String, Json)>)
    requires
        keys_unique(settings@),
    ensures
        res@ == overlaid(settings@, preset@, names_of(keys@)),
{
    let ghost orig = settings@;
    let ghost p0 = preset@;
    let ghost target = overlaid(orig, p0, names_of(keys@));
    let mut rest = settings;
    let mut pre = preset;
    let mut out: Vec<(String, Json)> = Vec::new();
    let mut k: usize = 0;
    proof {
        assert(orig.len() == rest.len());
        assert(orig.skip(0) =~= orig);
    }
    while rest.len() > 0
        invariant
            k <= orig.len(),
            orig.len() <= usize::MAX,
            keys_unique(orig),
            target == overlaid(orig, p0, names_of(keys@)),
            rest@ == orig.skip(k as int),
            out@ == target.take(k as int),
            forall|key: Seq<char>|
                (forall|j: int| 0 <= j < k ==> (#[trigger] orig[j]).0@ != key) ==> #[trigger] member(
                    pre@,
                    key,
                ) == member(p0, key),
        decreases rest@.len(),
    {
        let m = rest.remove(0);
        proof {
            assert(m == orig[k as int]);
            assert(rest@ =~= orig.skip(k + 1));
            assert forall|j: int| 0 <= j < k implies (#[trigger] orig[j]).0@ != m.0@ by {
                assert(orig[j].0@ != orig[k as int].0@);
            }
            assert(member(pre@, m.0@) == member(p0, m.0@));
        }
        let ghost pre_before = pre@;
        if listed(keys, &m.0) {
            match take_member(&mut pre, &m.0) {
                Some(v) => {
                    out.push((m.0, v));
                },
                None => {
                    out.push(m);
                },
            }
        } else {
            out.push(m);
        }
        proof {
            assert(out@ =~= target.take(k + 1));
            assert forall|key: Seq<char>|
                (forall|j: int| 0 <= j < k + 1 ==> (#[trigger] orig[j]).0@ != key) implies #[trigger] member(
                pre@,
                key,
            ) == member(p0, key) by {
                assert(orig[k as int].0@ != key);
                assert(member(pre@, key) == member(pre_before, key));
            }
        }
        k = k + 1;
    }
    proof {
        assert(target.take(k as int) =~= target);
    }
    out
}

/// The settings a preset keeps besides its name.
pub open spec fn preset_fields() -> Seq<Seq<char>> {
    seq![
        "host"@,
        "port"@,
        "parallel_slots"@,
        "context"@,
        "batch_size"@,
        "ubatch_size"@,
        "temperature"@,
        "top_p"@,
        "top_k"@,
        "repeat_penalty"@,
        "presence_penalty"@,
        "enable_temperature"@,
        "enable_top_p"@,
        "enable_top_k"@,
        "enable_repeat_penalty"@,
        "enable_presence_penalty"@,
        "flash_attn"@,
        "load_mode"@,
        "threads"@,
        "threads_batch"@,
        "n_predict"@,
        "keep"@,
        "seed"@,
        "main_gpu"@,
        "enable_min_p"@,
        "min_p"@,
        "enable_top_n_sigma"@,
        "top_n_sigma"@,
        "enable_xtc"@,
        "xtc_probability"@,
        "xtc_threshold"@,
        "enable_typical_p"@,
        "typical_p"@,
        "enable_mirostat"@,
        "mirostat"@,
        "mirostat_lr"@,
        "mirostat_ent"@,
        "enable_dynatemp"@,
        "dynatemp_range"@,
        "dynatemp_exp"@,
        "sampler_seq"@,
        "cache_prompt"@,
        "cache_reuse"@,
        "context_shift"@,
        "json_schema"@,
        "grammar"@,
        "api_key"@,
        "api_prefix"@,
        "cors_origins"@,
        "ssl_cert_file"@,
        "ssl_key_file"@,
        "reuse_port"@,
        "numa"@,
        "spec_type"@,
        "spec_draft_n_max"@,
        "spec_draft_n_min"@,
        "spec_draft_p_min"@,
        "spec_draft_p_split"@,
        "kv_offload"@,
        "cache_type_k"@,
        "cache_type_v"@,
        "kv_mlock"@,
        "kv_mmap"@,
        "kv_unified"@,
        "swa_full"@,
        "kv_cache_ratio"@,
        "ctx_checkpoints"@,
        "checkpoint_min_step"@,
        "gpu_layers_mode"@,
        "split_mode"@,
        "tensor_split"@,
        "cpu_moe"@,
        "n_cpu_moe"@,
        "override_tensor"@,
        "verbose"@,
        "offline_mode"@,
        "rpc_mode"@,
        "rpc_endpoints"@,
        "web_ui_enabled"@,
        "log_timestamps"@,
        "log_verbosity"@,
        "session_timeout"@,
        "reasoning"@,
        "reasoning_format"@,
        "reasoning_effort"@,
        "reasoning_budget"@,
        "reasoning_preserve"@,
        "jinja_enabled"@,
        "chat_template"@,
        "chat_template_file"@,
    ]
}

/// The names of `preset_fields`, as strings.
pub fn preset_keys() -> (res: Vec<String>)
    ensures
        names_of(res@) == preset_fields(),
{
    let mut v: Vec<String> = Vec::new();
    v.push(string_from("host"));
    v.push(string_from("port"));
    v.push(string_from("parallel_slots"));
    v.push(string_from("context"));
    v.push(string_from("batch_size"));
    v.push(string_from("ubatch_size"));
    v.push(string_from("temperature"));
    v.push(string_from("top_p"));
    v.push(string_from("top_k"));
    v.push(string_from("repeat_penalty"));
    v.push(string_from("presence_penalty"));
    v.push(string_from("enable_temperature"));
    v.push(string_from("enable_top_p"));
    v.push(string_from("enable_top_k"));
    v.push(string_from("enable_repeat_penalty"));
    v.push(string_from("enable_presence_penalty"));
    v.push(string_from("flash_attn"));
    v.push(string_from("load_mode"));
    v.push(string_from("threads"));
    v.push(string_from("threads_batch"));
    v.push(string_from("n_predict"));
    v.push(string_from("keep"));
    v.push(string_from("seed"));
    v.push(string_from("main_gpu"));
    v.push(string_from("enable_min_p"));
    v.push(string_from("min_p"));
    v.push(string_from("enable_top_n_sigma"));
    v.push(string_from("top_n_sigma"));
    v.push(string_from("enable_xtc"));
    v.push(string_from("xtc_probability"));
    v.push(string_from("xtc_threshold"));
    v.push(string_from("enable_typical_p"));
    v.push(string_from("typical_p"));
    v.push(string_from("enable_mirostat"));
    v.push(string_from("mirostat"));
    v.push(string_from("mirostat_lr"));
    v.push(string_from("mirostat_ent"));
    v.push(string_from("enable_dynatemp"));
    v.push(string_from("dynatemp_range"));
    v.push(string_from("dynatemp_exp"));
    v.push(string_from("sampler_seq"));
    v.push(string_from("cache_prompt"));
    v.push(string_from("cache_reuse"));
    v.push(string_from("context_shift"));
    v.push(string_from("json_schema"));
    v.push(string_from("grammar"));
    v.push(string_from("api_key"));
    v.push(string_from("api_prefix"));
    v.push(string_from("cors_origins"));
    v.push(string_from("ssl_cert_file"));
    v.push(string_from("ssl_key_file"));
    v.push(string_from("reuse_port"));
    v.push(string_from("numa"));
    v.push(string_from("spec_type"));
    v.push(string_from("spec_draft_n_max"));
    v.push(string_from("spec_draft_n_min"));
    v.push(string_from("spec_draft_p_min"));
    v.push(string_from("spec_draft_p_split"));
    v.push(string_from("kv_offload"));
    v.push(string_from("cache_type_k"));
    v.push(string_from("cache_type_v"));
    v.push(string_from("kv_mlock"));
    v.push(string_from("kv_mmap"));
    v.push(string_from("kv_unified"));
    v.push(string_from("swa_full"));
    v.push(string_from("kv_cache_ratio"));
    v.push(string_from("ctx_checkpoints"));
    v.push(string_from("checkpoint_min_step"));
    v.push(string_from("gpu_layers_mode"));
    v.push(string_from("split_mode"));
    v.push(string_from("tensor_split"));
    v.push(string_from("cpu_moe"));
    v.push(string_from("n_cpu_moe"));
    v.push(string_from("override_tensor"));
    v.push(string_from("verbose"));
    v.push(string_from("offline_mode"));
    v.push(string_from("rpc_mode"));
    v.push(string_from("rpc_endpoints"));
    v.push(string_from("web_ui_enabled"));
    v.push(string_from("log_timestamps"));
    v.push(string_from("log_verbosity"));
    v.push(string_from("session_timeout"));
    v.push(string_from("reasoning"));
    v.push(string_from("reasoning_format"));
    v.push(string_from("reasoning_effort"));
    v.push(string_from("reasoning_budget"));
    v.push(string_from("reasoning_preserve"));
    v.push(string_from("jinja_enabled"));
    v.push(string_from("chat_template"));
    v.push(string_from("chat_template_file"));
    proof {
        assert(names_of(v@) =~= preset_fields());
    }
    v
}

/// The parameters that a shared preset carries (no server, RPC, model path or key).
pub open spec fn shared_param_fields() -> Seq<Seq<char>> {
    seq![
        "context"@,
        "batch_size"@,
        "ubatch_size"@,
        "temperature"@,
        "top_p"@,
        "top_k"@,
        "repeat_penalty"@,
        "presence_penalty"@,
        "enable_temperature"@,
        "enable_top_p"@,
        "enable_top_k"@,
        "enable_repeat_penalty"@,
        "enable_presence_penalty"@,
        "flash_attn"@,
        "spec_type"@,
        "spec_draft_n_max"@,
        "spec_draft_n_min"@,
        "spec_draft_p_min"@,
        "spec_draft_p_split"@,
        "kv_offload"@,
        "cache_type_k"@,
        "cache_type_v"@,
        "kv_mlock"@,
        "kv_mmap"@,
        "kv_unified"@,
        "swa_full"@,
        "gpu_layers_mode"@,
        "split_mode"@,
        "tensor_split"@,
        "cpu_moe"@,
        "n_cpu_moe"@,
        "reasoning"@,
        "reasoning_format"@,
        "reasoning_effort"@,
        "reasoning_budget"@,
        "reasoning_preserve"@,
        "jinja_enabled"@,
        "chat_template"@,
        "chat_template_file"@,
        "mmproj_auto"@,
        "mmproj_offload"@,
        "mmproj_device"@,
        "image_min_tokens"@,
        "image_max_tokens"@,
        "mtmd_batch_max_tokens"@,
        "video_fps"@,
        "video_timestamp_interval"@,
        "video_ffmpeg_dir"@,
    ]
}

/// The names of `shared_param_fields`, as strings.
pub fn param_keys() -> (res: Vec<String>)
    ensures
        names_of(res@) == shared_param_fields(),
{
    let mut v: Vec<String> = Vec::new();
    v.push(string_from("context"));
    v.push(string_from("batch_size"));
    v.push(string_from("ubatch_size"));
    v.push(string_from("temperature"));
    v.push(string_from("top_p"));
    v.push(string_from("top_k"));
    v.push(string_from("repeat_penalty"));
    v.push(string_from("presence_penalty"));
    v.push(string_from("enable_temperature"));
    v.push(string_from("enable_top_p"));
    v.push(string_from("enable_top_k"));
    v.push(string_from("enable_repeat_penalty"));
    v.push(string_from("enable_presence_penalty"));
    v.push(string_from("flash_attn"));
    v.push(string_from("spec_type"));
    v.push(string_from("spec_draft_n_max"));
    v.push(string_from("spec_draft_n_min"));
    v.push(string_from("spec_draft_p_min"));
    v.push(string_from("spec_draft_p_split"));
    v.push(string_from("kv_offload"));
    v.push(string_from("cache_type_k"));
    v.push(string_from("cache_type_v"));
    v.push(string_from("kv_mlock"));
    v.push(string_from("kv_mmap"));
    v.push(string_from("kv_unified"));
    v.push(string_from("swa_full"));
    v.push(string_from("gpu_layers_mode"));
    v.push(string_from("split_mode"));
    v.push(string_from("tensor_split"));
    v.push(string_from("cpu_moe"));
    v.push(string_from("n_cpu_moe"));
    v.push(string_from("reasoning"));
    v.push(string_from("reasoning_format"));
    v.push(string_from("reasoning_effort"));
    v.push(string_from("reasoning_budget"));
    v.push(string_from("reasoning_preserve"));
    v.push(string_from("jinja_enabled"));
    v.push(string_from("chat_template"));
    v.push(string_from("chat_template_file"));
    v.push(string_from("mmproj_auto"));
    v.push(string_from("mmproj_offload"));
    v.push(string_from("mmproj_device"));
    v.push(string_from("image_min_tokens"));
    v.push(string_from("image_max_tokens"));
    v.push(string_from("mtmd_batch_max_tokens"));
    v.push(string_from("video_fps"));
    v.push(string_from("video_timestamp_interval"));
    v.push(string_from("video_ffmpeg_dir"));
    proof {
        assert(names_of(v@) =~= shared_param_fields());
    }
    v
}

proof fn lemma_member_overlaid(
    s: Seq<(String, Json)>,
    p: Seq<(String, Json)>,
    keys: Seq<Seq<char>>,
    k: Seq<char>,
)
    ensures
        member(overlaid(s, p, keys), k) == match member(s, k) {
            Some(v) => Some(
                if keys.contains(k) && member(p, k) is Some {
                    member(p, k).unwrap()
                } else {
                    v
                },
            ),
            None => None,
        },
    decreases s.len(),
{
    if s.len() > 0 {
        assert(overlaid(s, p, keys).drop_first() =~= overlaid(s.drop_first(), p, keys));
        lemma_member_overlaid(s.drop_first(), p, keys, k);
    }
}

proof fn lemma_member_picked(t: Seq<(String, Json)>, keys: Seq<Seq<char>>, k: Seq<char>)
    ensures
        member(picked(t, keys), k) == if keys.contains(k) {
            member(t, k)
        } else {
            None
        },
    decreases t.len(),
{
    if t.len() == 0 {
    } else {
        let u = t.drop_last();
        let x = t.last();
        assert(t =~= u.push(x));
        lemma_member_picked(u, keys, k);
        lemma_member_push(u, x, k);
        lemma_member_push(picked(u, keys), x, k);
    }
}

/// Taking a preset's fields out of the settings right after laying the preset
/// over them gives the preset back: every listed field that the settings and
/// the preset both hold reads as the preset's value, and nothing unlisted is
/// taken.
pub proof fn preset_back_after_apply(
    settings: Seq<(String, Json)>,
    preset: Seq<(String, Json)>,
    keys: Seq<Seq<char>>,
    k: Seq<char>,
)
    ensures
        keys.contains(k) && member(settings, k) is Some && member(preset, k) is Some ==> member(
            picked(overlaid(settings, preset, keys), keys),
            k,
        ) == member(preset, k),
        !keys.contains(k) ==> member(picked(overlaid(settings, preset, keys), keys), k) is None,
{
    lemma_member_picked(overlaid(settings, preset, keys), keys, k);
    lemma_member_overlaid(settings, preset, keys, k);
}

/// Laying a preset (or a shared parameter set) over the settings changes
/// only listed fields: every other setting keeps its value.
pub proof fn apply_keeps_unlisted(
    settings: Seq<(String, Json)>,
    preset: Seq<(String, Json)>,
    keys: Seq<Seq<char>>,
    k: Seq<char>,
)
    requires
        !keys.contains(k),
    ensures
        member(overlaid(settings, preset, keys), k) == member(settings, k),
{
    lemma_member_overlaid(settings, preset, keys, k);
}

/// For the shared parameters: after laying an exported parameter set over the
/// settings, taking the parameters out again gives the export back, and every
/// setting outside the parameter list (server, model, keys, presets) stays.
pub proof fn params_export_round_trip(
    settings: Seq<(String, Json)>,
    export: Seq<(String, Json)>,
    k: Seq<char>,
)
    ensures
        shared_param_fields().contains(k) && member(settings, k) is Some && member(export, k) is Some
            ==> member(
            picked(overlaid(settings, export, shared_param_fields()), shared_param_fields()),
            k,
        ) == member(export, k),
        !shared_param_fields().contains(k) ==> member(
            overlaid(settings, export, shared_param_fields()),
            k,
        ) == member(settings, k),
{
    preset_back_after_apply(settings, export, shared_param_fields(), k);
    if !shared_param_fields().contains(k) {
        apply_keeps_unlisted(settings, export, shared_param_fields(), k);
    }
}

/// A preset keeps every field of the preset type besides its name (host and port, the sampling
/// and sampler settings with their switches, the speculative, cache and GPU settings, threads,
/// output, API, RPC, logging and reasoning settings, the chat template), and has exactly as
/// many keys as the type has such fields.
pub proof fn preset_fields_complete()
    ensures
        preset_fields().len() == 90,
        ({
            let fields = seq![
                "host"@,
                "port"@,
                "parallel_slots"@,
                "context"@,
                "batch_size"@,
                "ubatch_size"@,
                "temperature"@,
                "top_p"@,
                "top_k"@,
                "repeat_penalty"@,
                "presence_penalty"@,
                "enable_temperature"@,
                "enable_top_p"@,
                "enable_top_k"@,
                "enable_repeat_penalty"@,
                "enable_presence_penalty"@,
                "flash_attn"@,
                "load_mode"@,
                "threads"@,
                "threads_batch"@,
                "n_predict"@,
                "keep"@,
                "seed"@,
                "main_gpu"@,
                "enable_min_p"@,
                "min_p"@,
                "enable_top_n_sigma"@,
                "top_n_sigma"@,
                "enable_xtc"@,
                "xtc_probability"@,
                "xtc_threshold"@,
                "enable_typical_p"@,
                "typical_p"@,
                "enable_mirostat"@,
                "mirostat"@,
                "mirostat_lr"@,
                "mirostat_ent"@,
                "enable_dynatemp"@,
                "dynatemp_range"@,
                "dynatemp_exp"@,
                "sampler_seq"@,
                "cache_prompt"@,
                "cache_reuse"@,
                "context_shift"@,
                "json_schema"@,
                "grammar"@,
                "api_key"@,
                "api_prefix"@,
                "cors_origins"@,
                "ssl_cert_file"@,
                "ssl_key_file"@,
                "reuse_port"@,
                "numa"@,
                "spec_type"@,
                "spec_draft_n_max"@,
                "spec_draft_n_min"@,
                "spec_draft_p_min"@,
                "spec_draft_p_split"@,
                "kv_offload"@,
                "cache_type_k"@,
                "cache_type_v"@,
                "kv_mlock"@,
                "kv_mmap"@,
                "kv_unified"@,
                "swa_full"@,
                "kv_cache_ratio"@,
                "ctx_checkpoints"@,
                "checkpoint_min_step"@,
                "gpu_layers_mode"@,
                "split_mode"@,
                "tensor_split"@,
                "cpu_moe"@,
                "n_cpu_moe"@,
                "override_tensor"@,
                "verbose"@,
                "offline_mode"@,
                "rpc_mode"@,
                "rpc_endpoints"@,
                "web_ui_enabled"@,
                "log_timestamps"@,
                "log_verbosity"@,
                "session_timeout"@,
                "reasoning"@,
                "reasoning_format"@,
                "reasoning_effort"@,
                "reasoning_budget"@,
                "reasoning_preserve"@,
                "jinja_enabled"@,
                "chat_template"@,
                "chat_template_file"@,
            ];
            forall|j: int| 0 <= j < fields.len() ==> preset_fields().contains(#[trigger] fields[j])
        }),
{
    let fields: Seq<Seq<char>> = seq![
        "host"@,
        "port"@,
        "parallel_slots"@,
        "context"@,
        "batch_size"@,
        "ubatch_size"@,
        "temperature"@,
        "top_p"@,
        "top_k"@,
        "repeat_penalty"@,
        "presence_penalty"@,
        "enable_temperature"@,
        "enable_top_p"@,
        "enable_top_k"@,
        "enable_repeat_penalty"@,
        "enable_presence_penalty"@,
        "flash_attn"@,
        "load_mode"@,
        "threads"@,
        "threads_batch"@,
        "n_predict"@,
        "keep"@,
        "seed"@,
        "main_gpu"@,
        "enable_min_p"@,
        "min_p"@,
        "enable_top_n_sigma"@,
        "top_n_sigma"@,
        "enable_xtc"@,
        "xtc_probability"@,
        "xtc_threshold"@,
        "enable_typical_p"@,
        "typical_p"@,
        "enable_mirostat"@,
        "mirostat"@,
        "mirostat_lr"@,
        "mirostat_ent"@,
        "enable_dynatemp"@,
        "dynatemp_range"@,
        "dynatemp_exp"@,
        "sampler_seq"@,
        "cache_prompt"@,
        "cache_reuse"@,
        "context_shift"@,
        "json_schema"@,
        "grammar"@,
        "api_key"@,
        "api_prefix"@,
        "cors_origins"@,
        "ssl_cert_file"@,
        "ssl_key_file"@,
        "reuse_port"@,
        "numa"@,
        "spec_type"@,
        "spec_draft_n_max"@,
        "spec_draft_n_min"@,
        "spec_draft_p_min"@,
        "spec_draft_p_split"@,
        "kv_offload"@,
        "cache_type_k"@,
        "cache_type_v"@,
        "kv_mlock"@,
        "kv_mmap"@,
        "kv_unified"@,
        "swa_full"@,
        "kv_cache_ratio"@,
        "ctx_checkpoints"@,
        "checkpoint_min_step"@,
        "gpu_layers_mode"@,
        "split_mode"@,
        "tensor_split"@,
        "cpu_moe"@,
        "n_cpu_moe"@,
        "override_tensor"@,
        "verbose"@,
        "offline_mode"@,
        "rpc_mode"@,
        "rpc_endpoints"@,
        "web_ui_enabled"@,
        "log_timestamps"@,
        "log_verbosity"@,
        "session_timeout"@,
        "reasoning"@,
        "reasoning_format"@,
        "reasoning_effort"@,
        "reasoning_budget"@,
        "reasoning_preserve"@,
        "jinja_enabled"@,
        "chat_template"@,
        "chat_template_file"@,
    ];
    assert(preset_fields() =~= fields);
    assert forall|j: int| 0 <= j < fields.len() implies preset_fields().contains(#[trigger] fields[j]) by {
        assert(preset_fields()[j] == fields[j]);
    }
}

/// A shared preset carries every field of the exported parameter set (context and batches, the
/// five sampling parameters with their switches, flash attention, the speculative, cache and
/// GPU settings, reasoning, the chat template and the multimodal settings), and no more keys
/// than the set has fields.
pub proof fn param_fields_complete()
    ensures
        shared_param_fields().len() == 48,
        ({
            let fields = seq![
                "context"@,
                "batch_size"@,
                "ubatch_size"@,
                "temperature"@,
                "top_p"@,
                "top_k"@,
                "repeat_penalty"@,
                "presence_penalty"@,
                "enable_temperature"@,
                "enable_top_p"@,
                "enable_top_k"@,
                "enable_repeat_penalty"@,
                "enable_presence_penalty"@,
                "flash_attn"@,
                "spec_type"@,
                "spec_draft_n_max"@,
                "spec_draft_n_min"@,
                "spec_draft_p_min"@,
                "spec_draft_p_split"@,
                "kv_offload"@,
                "cache_type_k"@,
                "cache_type_v"@,
                "kv_mlock"@,
                "kv_mmap"@,
                "kv_unified"@,
                "swa_full"@,
                "gpu_layers_mode"@,
                "split_mode"@,
                "tensor_split"@,
                "cpu_moe"@,
                "n_cpu_moe"@,
                "reasoning"@,
                "reasoning_format"@,
                "reasoning_effort"@,
                "reasoning_budget"@,
                "reasoning_preserve"@,
                "jinja_enabled"@,
                "chat_template"@,
                "chat_template_file"@,
                "mmproj_auto"@,
                "mmproj_offload"@,
                "mmproj_device"@,
                "image_min_tokens"@,
                "image_max_tokens"@,
                "mtmd_batch_max_tokens"@,
                "video_fps"@,
                "video_timestamp_interval"@,
                "video_ffmpeg_dir"@,
            ];
            forall|j: int| 0 <= j < fields.len() ==> shared_param_fields().contains(#[trigger] fields[j])
        }),
{
    let fields: Seq<Seq<char>> = seq![
        "context"@,
        "batch_size"@,
        "ubatch_size"@,
        "temperature"@,
        "top_p"@,
        "top_k"@,
        "repeat_penalty"@,
        "presence_penalty"@,
        "enable_temperature"@,
        "enable_top_p"@,
        "enable_top_k"@,
        "enable_repeat_penalty"@,
        "enable_presence_penalty"@,
        "flash_attn"@,
        "spec_type"@,
        "spec_draft_n_max"@,
        "spec_draft_n_min"@,
        "spec_draft_p_min"@,
        "spec_draft_p_split"@,
        "kv_offload"@,
        "cache_type_k"@,
        "cache_type_v"@,
        "kv_mlock"@,
        "kv_mmap"@,
        "kv_unified"@,
        "swa_full"@,
        "gpu_layers_mode"@,
        "split_mode"@,
        "tensor_split"@,
        "cpu_moe"@,
        "n_cpu_moe"@,
        "reasoning"@,
        "reasoning_format"@,
        "reasoning_effort"@,
        "reasoning_budget"@,
        "reasoning_preserve"@,
        "jinja_enabled"@,
        "chat_template"@,
        "chat_template_file"@,
        "mmproj_auto"@,
        "mmproj_offload"@,
        "mmproj_device"@,
        "image_min_tokens"@,
        "image_max_tokens"@,
        "mtmd_batch_max_tokens"@,
        "video_fps"@,
        "video_timestamp_interval"@,
        "video_ffmpeg_dir"@,
    ];
    assert(shared_param_fields() =~= fields);
    assert forall|j: int| 0 <= j < fields.len() implies shared_param_fields().contains(#[trigger] fields[j]) by {
        assert(shared_param_fields()[j] == fields[j]);
    }
}

// ───────────── distinct keys ─────────────

/// Strict text order, character by character.
spec fn before(a: Seq<char>, b: Seq<char>) -> bool
    decreases a.len(),
{
    if b.len() == 0 {
        false
    } else if a.len() == 0 {
        true
    } else if (a[0] as u32) != (b[0] as u32) {
        (a[0] as u32) < (b[0] as u32)
    } else {
        before(a.drop_first(), b.drop_first())
    }
}

proof fn lemma_before_irreflexive(a: Seq<char>)
    ensures
        !before(a, a),
    decreases a.len(),
{
    if a.len() > 0 {
        lemma_before_irreflexive(a.drop_first());
    }
}

proof fn lemma_before_transitive(a: Seq<char>, b: Seq<char>, c: Seq<char>)
    requires
        before(a, b),
        before(b, c),
    ensures
        before(a, c),
    decreases a.len(),
{
    if a.len() > 0 && (a[0] as u32) == (b[0] as u32) && (b[0] as u32) == (c[0] as u32) {
        lemma_before_transitive(a.drop_first(), b.drop_first(), c.drop_first());
    }
}

/// Each entry comes strictly before every later one.
spec fn ascending(s: Seq<Seq<char>>) -> bool {
    forall|i: int, j: int| 0 <= i < j < s.len() ==> before(#[trigger] s[i], #[trigger] s[j])
}

proof fn lemma_ascending_push(s: Seq<Seq<char>>, x: Seq<char>)
    requires
        ascending(s),
        s.len() > 0 ==> before(s.last(), x),
    ensures
        ascending(s.push(x)),
{
    let t = s.push(x);
    assert forall|i: int, j: int| 0 <= i < j < t.len() implies before(#[trigger] t[i], #[trigger] t[j]) by {
        if j == s.len() && i < s.len() - 1 {
            lemma_before_transitive(s[i], s.last(), x);
        }
    }
}

proof fn lemma_ascending_distinct(s: Seq<Seq<char>>)
    requires
        ascending(s),
    ensures
        s.no_duplicates(),
{
    assert forall|i: int, j: int| 0 <= i < s.len() && 0 <= j < s.len() && i != j implies s[i] != s[j] by {
        lemma_before_irreflexive(s[i]);
    }
}


/// A list with the same keys as an ascending list of the same length lists
/// none twice.
proof fn lemma_same_keys_distinct(s: Seq<Seq<char>>, t: Seq<Seq<char>>)
    requires
        ascending(s),
        s.to_set() == t.to_set(),
        s.len() == t.len(),
    ensures
        t.no_duplicates(),
{
    lemma_ascending_distinct(s);
    s.unique_seq_to_set();
    t.lemma_no_dup_set_cardinality();
}

/// The preset's keys in text order.
spec fn preset_fields_sorted() -> Seq<Seq<char>> {
    seq![
        "api_key"@,
        "api_prefix"@,
        "batch_size"@,
        "cache_prompt"@,
        "cache_reuse"@,
        "cache_type_k"@,
        "cache_type_v"@,
        "chat_template"@,
        "chat_template_file"@,
        "checkpoint_min_step"@,
        "context"@,
        "context_shift"@,
        "cors_origins"@,
        "cpu_moe"@,
        "ctx_checkpoints"@,
        "dynatemp_exp"@,
        "dynatemp_range"@,
        "enable_dynatemp"@,
        "enable_min_p"@,
        "enable_mirostat"@,
        "enable_presence_penalty"@,
        "enable_repeat_penalty"@,
        "enable_temperature"@,
        "enable_top_k"@,
        "enable_top_n_sigma"@,
        "enable_top_p"@,
        "enable_typical_p"@,
        "enable_xtc"@,
        "flash_attn"@,
        "gpu_layers_mode"@,
        "grammar"@,
        "host"@,
        "jinja_enabled"@,
        "json_schema"@,
        "keep"@,
        "kv_cache_ratio"@,
        "kv_mlock"@,
        "kv_mmap"@,
        "kv_offload"@,
        "kv_unified"@,
        "load_mode"@,
        "log_timestamps"@,
        "log_verbosity"@,
        "main_gpu"@,
        "min_p"@,
        "mirostat"@,
        "mirostat_ent"@,
        "mirostat_lr"@,
        "n_cpu_moe"@,
        "n_predict"@,
        "numa"@,
        "offline_mode"@,
        "override_tensor"@,
        "parallel_slots"@,
        "port"@,
        "presence_penalty"@,
        "reasoning"@,
        "reasoning_budget"@,
        "reasoning_effort"@,
        "reasoning_format"@,
        "reasoning_preserve"@,
        "repeat_penalty"@,
        "reuse_port"@,
        "rpc_endpoints"@,
        "rpc_mode"@,
        "sampler_seq"@,
        "seed"@,
        "session_timeout"@,
        "spec_draft_n_max"@,
        "spec_draft_n_min"@,
        "spec_draft_p_min"@,
        "spec_draft_p_split"@,
        "spec_type"@,
        "split_mode"@,
        "ssl_cert_file"@,
        "ssl_key_file"@,
        "swa_full"@,
        "temperature"@,
        "tensor_split"@,
        "threads"@,
        "threads_batch"@,
        "top_k"@,
        "top_n_sigma"@,
        "top_p"@,
        "typical_p"@,
        "ubatch_size"@,
        "verbose"@,
        "web_ui_enabled"@,
        "xtc_probability"@,
        "xtc_threshold"@,
    ]
}

#[verifier::rlimit(100)]
proof fn lemma_preset_fields_sorted_ascending()
    ensures
        ascending(preset_fields_sorted()),
{
    let mut sorted: Seq<Seq<char>> = seq!["api_key"@];
    assert(before("api_key"@, "api_prefix"@)) by {
        reveal_strlit("api_key");
        reveal_strlit("api_prefix");
        reveal_with_fuel(before, 6);
    }
    lemma_ascending_push(sorted, "api_prefix"@);
    sorted = sorted.push("api_prefix"@);
    assert(before("api_prefix"@, "batch_size"@)) by {
        reveal_strlit("api_prefix");
        reveal_strlit("batch_size");
        reveal_with_fuel(before, 2);
    }
    lemma_ascending_push(sorted, "batch_size"@);
    sorted = sorted.push("batch_size"@);
    assert(before("batch_size"@, "cache_prompt"@)) by {
        reveal_strlit("batch_size");
        reveal_strlit("cache_prompt");
        reveal_with_fuel(before, 2);
    }
    lemma_ascending_push(sorted, "cache_prompt"@);
    sorted = sorted.push("cache_prompt"@);
    assert(before("cache_prompt"@, "cache_reuse"@)) by {
        reveal_strlit("cache_prompt");
        reveal_strlit("cache_reuse");
        reveal_with_fuel(before, 8);
    }
    lemma_ascending_push(sorted, "cache_reuse"@);
    sorted = sorted.push("cache_reuse"@);
    assert(before("cache_reuse"@, "cache_type_k"@)) by {
        reveal_strlit("cache_reuse");
        reveal_strlit("cache_type_k");
        reveal_with_fuel(before, 8);
    }
    lemma_ascending_push(sorted, "cache_type_k"@);
    sorted = sorted.push("cache_type_k"@);
    assert(before("cache_type_k"@, "cache_type_v"@)) by {
        reveal_strlit("cache_type_k");
        reveal_strlit("cache_type_v");
        reveal_with_fuel(before, 13);
    }
    lemma_ascending_push(sorted, "cache_type_v"@);
    sorted = sorted.push("cache_type_v"@);
    assert(before("cache_type_v"@, "chat_template"@)) by {
        reveal_strlit("cache_type_v");
        reveal_strlit("chat_template");
        reveal_with_fuel(before, 3);
    }
    lemma_ascending_push(sorted, "chat_template"@);
    sorted = sorted.push("chat_template"@);
    assert(before("chat_template"@, "chat_template_file"@)) by {
        reveal_strlit("chat_template");
        reveal_strlit("chat_template_file");
        reveal_with_fuel(before, 15);
    }
    lemma_ascending_push(sorted, "chat_template_file"@);
    sorted = sorted.push("chat_template_file"@);
    assert(before("chat_template_file"@, "checkpoint_min_step"@)) by {
        reveal_strlit("chat_template_file");
        reveal_strlit("checkpoint_min_step");
        reveal_with_fuel(before, 4);
    }
    lemma_ascending_push(sorted, "checkpoint_min_step"@);
    sorted = sorted.push("checkpoint_min_step"@);
    assert(before("checkpoint_min_step"@, "context"@)) by {
        reveal_strlit("checkpoint_min_step");
        reveal_strlit("context");
        reveal_with_fuel(before, 3);
    }
    lemma_ascending_push(sorted, "context"@);
    sorted = sorted.push("context"@);
    assert(before("context"@, "context_shift"@)) by {
        reveal_strlit("context");
        reveal_strlit("context_shift");
        reveal_with_fuel(before, 9);
    }
    lemma_ascending_push(sorted, "context_shift"@);
    sorted = sorted.push("context_shift"@);
    assert(before("context_shift"@, "cors_origins"@)) by {
        reveal_strlit("context_shift");
        reveal_strlit("cors_origins");
        reveal_with_fuel(before, 4);
    }
    lemma_ascending_push(sorted, "cors_origins"@);
    sorted = sorted.push("cors_origins"@);
    assert(before("cors_origins"@, "cpu_moe"@)) by {
        reveal_strlit("cors_origins");
        reveal_strlit("cpu_moe");
        reveal_with_fuel(before, 3);
    }
    lemma_ascending_push(sorted, "cpu_moe"@);
    sorted = sorted.push("cpu_moe"@);
    assert(before("cpu_moe"@, "ctx_checkpoints"@)) by {
        reveal_strlit("cpu_moe");
        reveal_strlit("ctx_checkpoints");
        reveal_with_fuel(before, 3);
    }
    lemma_ascending_push(sorted, "ctx_checkpoints"@);
    sorted = sorted.push("ctx_checkpoints"@);
    assert(before("ctx_checkpoints"@, "dynatemp_exp"@)) by {
        reveal_strlit("ctx_checkpoints");
        reveal_strlit("dynatemp_exp");
        reveal_with_fuel(before, 2);
    }
    lemma_ascending_push(sorted, "dynatemp_exp"@);
    sorted = sorted.push("dynatemp_exp"@);
    assert(before("dynatemp_exp"@, "dynatemp_range"@)) by {
        reveal_strlit("dynatemp_exp");
        reveal_strlit("dynatemp_range");
        reveal_with_fuel(before, 11);
    }
    lemma_ascending_push(sorted, "dynatemp_range"@);
    sorted = sorted.push("dynatemp_range"@);
    assert(before("dynatemp_range"@, "enable_dynatemp"@)) by {
        reveal_strlit("dynatemp_range");
        reveal_strlit("enable_dynatemp");
        reveal_with_fuel(before, 2);
    }
    lemma_ascending_push(sorted, "enable_dynatemp"@);
    sorted = sorted.push("enable_dynatemp"@);
    assert(before("enable_dynatemp"@, "enable_min_p"@)) by {
        reveal_strlit("enable_dynatemp");
        reveal_strlit("enable_min_p");
        reveal_with_fuel(before, 9);
    }
    lemma_ascending_push(sorted, "enable_min_p"@);
    sorted = sorted.push("enable_min_p"@);
    assert(before("enable_min_p"@, "enable_mirostat"@)) by {
        reveal_strlit("enable_min_p");
        reveal_strlit("enable_mirostat");
        reveal_with_fuel(before, 11);
    }
    lemma_ascending_push(sorted, "enable_mirostat"@);
    sorted = sorted.push("enable_mirostat"@);
    assert(before("enable_mirostat"@, "enable_presence_penalty"@)) by {
        reveal_strlit("enable_mirostat");
        reveal_strlit("enable_presence_penalty");
        reveal_with_fuel(before, 9);
    }
    lemma_ascending_push(sorted, "enable_presence_penalty"@);
    sorted = sorted.push("enable_presence_penalty"@);
    assert(before("enable_presence_penalty"@, "enable_repeat_penalty"@)) by {
        reveal_strlit("enable_presence_penalty");
        reveal_strlit("enable_repeat_penalty");
        reveal_with_fuel(before, 9);
    }
    lemma_ascending_push(sorted, "enable_repeat_penalty"@);
    sorted = sorted.push("enable_repeat_penalty"@);
    assert(before("enable_repeat_penalty"@, "enable_temperature"@)) by {
        reveal_strlit("enable_repeat_penalty");
        reveal_strlit("enable_temperature");
        reveal_with_fuel(before, 9);
    }
    lemma_ascending_push(sorted, "enable_temperature"@);
    sorted = sorted.push("enable_temperature"@);
    assert(before("enable_temperature"@, "enable_top_k"@)) by {
        reveal_strlit("enable_temperature");
        reveal_strlit("enable_top_k");
        reveal_with_fuel(before, 10);
    }
    lemma_ascending_push(sorted, "enable_top_k"@);
    sorted = sorted.push("enable_top_k"@);
    assert(before("enable_top_k"@, "enable_top_n_sigma"@)) by {
        reveal_strlit("enable_top_k");
        reveal_strlit("enable_top_n_sigma");
        reveal_with_fuel(before, 13);
    }
    lemma_ascending_push(sorted, "enable_top_n_sigma"@);
    sorted = sorted.push("enable_top_n_sigma"@);
    assert(before("enable_top_n_sigma"@, "enable_top_p"@)) by {
        reveal_strlit("enable_top_n_sigma");
        reveal_strlit("enable_top_p");
        reveal_with_fuel(before, 13);
    }
    lemma_ascending_push(sorted, "enable_top_p"@);
    sorted = sorted.push("enable_top_p"@);
    assert(before("enable_top_p"@, "enable_typical_p"@)) by {
        reveal_strlit("enable_top_p");
        reveal_strlit("enable_typical_p");
        reveal_with_fuel(before, 10);
    }
    lemma_ascending_push(sorted, "enable_typical_p"@);
    sorted = sorted.push("enable_typical_p"@);
    assert(before("enable_typical_p"@, "enable_xtc"@)) by {
        reveal_strlit("enable_typical_p");
        reveal_strlit("enable_xtc");
        reveal_with_fuel(before, 9);
    }
    lemma_ascending_push(sorted, "enable_xtc"@);
    sorted = sorted.push("enable_xtc"@);
    assert(before("enable_xtc"@, "flash_attn"@)) by {
        reveal_strlit("enable_xtc");
        reveal_strlit("flash_attn");
        reveal_with_fuel(before, 2);
    }
    lemma_ascending_push(sorted, "flash_attn"@);
    sorted = sorted.push("flash_attn"@);
    assert(before("flash_attn"@, "gpu_layers_mode"@)) by {
        reveal_strlit("flash_attn");
        reveal_strlit("gpu_layers_mode");
        reveal_with_fuel(before, 2);
    }
    lemma_ascending_push(sorted, "gpu_layers_mode"@);
    sorted = sorted.push("gpu_layers_mode"@);
    assert(before("gpu_layers_mode"@, "grammar"@)) by {
        reveal_strlit("gpu_layers_mode");
        reveal_strlit("grammar");
        reveal_with_fuel(before, 3);
    }
    lemma_ascending_push(sorted, "grammar"@);
    sorted = sorted.push("grammar"@);
    assert(before("grammar"@, "host"@)) by {
        reveal_strlit("grammar");
        reveal_strlit("host");
        reveal_with_fuel(before, 2);
    }
    lemma_ascending_push(sorted, "host"@);
    sorted = sorted.push("host"@);
    assert(before("host"@, "jinja_enabled"@)) by {
        reveal_strlit("host");
        reveal_strlit("jinja_enabled");
        reveal_with_fuel(before, 2);
    }
    lemma_ascending_push(sorted, "jinja_enabled"@);
    sorted = sorted.push("jinja_enabled"@);
    assert(before("jinja_enabled"@, "json_schema"@)) by {
        reveal_strlit("jinja_enabled");
        reveal_strlit("json_schema");
        reveal_with_fuel(before, 3);
    }
    lemma_ascending_push(sorted, "json_schema"@);
    sorted = sorted.push("json_schema"@);
    assert(before("json_schema"@, "keep"@)) by {
        reveal_strlit("json_schema");
        reveal_strlit("keep");
        reveal_with_fuel(before, 2);
    }
    lemma_ascending_push(sorted, "keep"@);
    sorted = sorted.push("keep"@);
    assert(before("keep"@, "kv_cache_ratio"@)) by {
        reveal_strlit("keep");
        reveal_strlit("kv_cache_ratio");
        reveal_with_fuel(before, 3);
    }
    lemma_ascending_push(sorted, "kv_cache_ratio"@);
    sorted = sorted.push("kv_cache_ratio"@);
    assert(before("kv_cache_ratio"@, "kv_mlock"@)) by {
        reveal_strlit("kv_cache_ratio");
        reveal_strlit("kv_mlock");
        reveal_with_fuel(before, 5);
    }
    lemma_ascending_push(sorted, "kv_mlock"@);
    sorted = sorted.push("kv_mlock"@);
    assert(before("kv_mlock"@, "kv_mmap"@)) by {
        reveal_strlit("kv_mlock");
        reveal_strlit("kv_mmap");
        reveal_with_fuel(before, 6);
    }
    lemma_ascending_push(sorted, "kv_mmap"@);
    sorted = sorted.push("kv_mmap"@);
    assert(before("kv_mmap"@, "kv_offload"@)) by {
        reveal_strlit("kv_mmap");
        reveal_strlit("kv_offload");
        reveal_with_fuel(before, 5);
    }
    lemma_ascending_push(sorted, "kv_offload"@);
    sorted = sorted.push("kv_offload"@);
    assert(before("kv_offload"@, "kv_unified"@)) by {
        reveal_strlit("kv_offload");
        reveal_strlit("kv_unified");
        reveal_with_fuel(before, 5);
    }
    lemma_ascending_push(sorted, "kv_unified"@);
    sorted = sorted.push("kv_unified"@);
    assert(before("kv_unified"@, "load_mode"@)) by {
        reveal_strlit("kv_unified");
        reveal_strlit("load_mode");
        reveal_with_fuel(before, 2);
    }
    lemma_ascending_push(sorted, "load_mode"@);
    sorted = sorted.push("load_mode"@);
    assert(before("load_mode"@, "log_timestamps"@)) by {
        reveal_strlit("load_mode");
        reveal_strlit("log_timestamps");
        reveal_with_fuel(before, 4);
    }
    lemma_ascending_push(sorted, "log_timestamps"@);
    sorted = sorted.push("log_timestamps"@);
    assert(before("log_timestamps"@, "log_verbosity"@)) by {
        reveal_strlit("log_timestamps");
        reveal_strlit("log_verbosity");
        reveal_with_fuel(before, 6);
    }
    lemma_ascending_push(sorted, "log_verbosity"@);
    sorted = sorted.push("log_verbosity"@);
    assert(before("log_verbosity"@, "main_gpu"@)) by {
        reveal_strlit("log_verbosity");
        reveal_strlit("main_gpu");
        reveal_with_fuel(before, 2);
    }
    lemma_ascending_push(sorted, "main_gpu"@);
    sorted = sorted.push("main_gpu"@);
    assert(before("main_gpu"@, "min_p"@)) by {
        reveal_strlit("main_gpu");
        reveal_strlit("min_p");
        reveal_with_fuel(before, 3);
    }
    lemma_ascending_push(sorted, "min_p"@);
    sorted = sorted.push("min_p"@);
    assert(before("min_p"@, "mirostat"@)) by {
        reveal_strlit("min_p");
        reveal_strlit("mirostat");
        reveal_with_fuel(before, 4);
    }
    lemma_ascending_push(sorted, "mirostat"@);
    sorted = sorted.push("mirostat"@);
    assert(before("mirostat"@, "mirostat_ent"@)) by {
        reveal_strlit("mirostat");
        reveal_strlit("mirostat_ent");
        reveal_with_fuel(before, 10);
    }
    lemma_ascending_push(sorted, "mirostat_ent"@);
    sorted = sorted.push("mirostat_ent"@);
    assert(before("mirostat_ent"@, "mirostat_lr"@)) by {
        reveal_strlit("mirostat_ent");
        reveal_strlit("mirostat_lr");
        reveal_with_fuel(before, 11);
    }
    lemma_ascending_push(sorted, "mirostat_lr"@);
    sorted = sorted.push("mirostat_lr"@);
    assert(before("mirostat_lr"@, "n_cpu_moe"@)) by {
        reveal_strlit("mirostat_lr");
        reveal_strlit("n_cpu_moe");
        reveal_with_fuel(before, 2);
    }
    lemma_ascending_push(sorted, "n_cpu_moe"@);
    sorted = sorted.push("n_cpu_moe"@);
    assert(before("n_cpu_moe"@, "n_predict"@)) by {
        reveal_strlit("n_cpu_moe");
        reveal_strlit("n_predict");
        reveal_with_fuel(before, 4);
    }
    lemma_ascending_push(sorted, "n_predict"@);
    sorted = sorted.push("n_predict"@);
    assert(before("n_predict"@, "numa"@)) by {
        reveal_strlit("n_predict");
        reveal_strlit("numa");
        reveal_with_fuel(before, 3);
    }
    lemma_ascending_push(sorted, "numa"@);
    sorted = sorted.push("numa"@);
    assert(before("numa"@, "offline_mode"@)) by {
        reveal_strlit("numa");
        reveal_strlit("offline_mode");
        reveal_with_fuel(before, 2);
    }
    lemma_ascending_push(sorted, "offline_mode"@);
    sorted = sorted.push("offline_mode"@);
    assert(before("offline_mode"@, "override_tensor"@)) by {
        reveal_strlit("offline_mode");
        reveal_strlit("override_tensor");
        reveal_with_fuel(before, 3);
    }
    lemma_ascending_push(sorted, "override_tensor"@);
    sorted = sorted.push("override_tensor"@);
    assert(before("override_tensor"@, "parallel_slots"@)) by {
        reveal_strlit("override_tensor");
        reveal_strlit("parallel_slots");
        reveal_with_fuel(before, 2);
    }
    lemma_ascending_push(sorted, "parallel_slots"@);
    sorted = sorted.push("parallel_slots"@);
    assert(before("parallel_slots"@, "port"@)) by {
        reveal_strlit("parallel_slots");
        reveal_strlit("port");
        reveal_with_fuel(before, 3);
    }
    lemma_ascending_push(sorted, "port"@);
    sorted = sorted.push("port"@);
    assert(before("port"@, "presence_penalty"@)) by {
        reveal_strlit("port");
        reveal_strlit("presence_penalty");
        reveal_with_fuel(before, 3);
    }
    lemma_ascending_push(sorted, "presence_penalty"@);
    sorted = sorted.push("presence_penalty"@);
    assert(before("presence_penalty"@, "reasoning"@)) by {
        reveal_strlit("presence_penalty");
        reveal_strlit("reasoning");
        reveal_with_fuel(before, 2);
    }
    lemma_ascending_push(sorted, "reasoning"@);
    sorted = sorted.push("reasoning"@);
    assert(before("reasoning"@, "reasoning_budget"@)) by {
        reveal_strlit("reasoning");
        reveal_strlit("reasoning_budget");
        reveal_with_fuel(before, 11);
    }
    lemma_ascending_push(sorted, "reasoning_budget"@);
    sorted = sorted.push("reasoning_budget"@);
    assert(before("reasoning_budget"@, "reasoning_effort"@)) by {
        reveal_strlit("reasoning_budget");
        reveal_strlit("reasoning_effort");
        reveal_with_fuel(before, 12);
    }
    lemma_ascending_push(sorted, "reasoning_effort"@);
    sorted = sorted.push("reasoning_effort"@);
    assert(before("reasoning_effort"@, "reasoning_format"@)) by {
        reveal_strlit("reasoning_effort");
        reveal_strlit("reasoning_format");
        reveal_with_fuel(before, 12);
    }
    lemma_ascending_push(sorted, "reasoning_format"@);
    sorted = sorted.push("reasoning_format"@);
    assert(before("reasoning_format"@, "reasoning_preserve"@)) by {
        reveal_strlit("reasoning_format");
        reveal_strlit("reasoning_preserve");
        reveal_with_fuel(before, 12);
    }
    lemma_ascending_push(sorted, "reasoning_preserve"@);
    sorted = sorted.push("reasoning_preserve"@);
    assert(before("reasoning_preserve"@, "repeat_penalty"@)) by {
        reveal_strlit("reasoning_preserve");
        reveal_strlit("repeat_penalty");
        reveal_with_fuel(before, 4);
    }
    lemma_ascending_push(sorted, "repeat_penalty"@);
    sorted = sorted.push("repeat_penalty"@);
    assert(before("repeat_penalty"@, "reuse_port"@)) by {
        reveal_strlit("repeat_penalty");
        reveal_strlit("reuse_port");
        reveal_with_fuel(before, 4);
    }
    lemma_ascending_push(sorted, "reuse_port"@);
    sorted = sorted.push("reuse_port"@);
    assert(before("reuse_port"@, "rpc_endpoints"@)) by {
        reveal_strlit("reuse_port");
        reveal_strlit("rpc_endpoints");
        reveal_with_fuel(before, 3);
    }
    lemma_ascending_push(sorted, "rpc_endpoints"@);
    sorted = sorted.push("rpc_endpoints"@);
    assert(before("rpc_endpoints"@, "rpc_mode"@)) by {
        reveal_strlit("rpc_endpoints");
        reveal_strlit("rpc_mode");
        reveal_with_fuel(before, 6);
    }
    lemma_ascending_push(sorted, "rpc_mode"@);
    sorted = sorted.push("rpc_mode"@);
    assert(before("rpc_mode"@, "sampler_seq"@)) by {
        reveal_strlit("rpc_mode");
        reveal_strlit("sampler_seq");
        reveal_with_fuel(before, 2);
    }
    lemma_ascending_push(sorted, "sampler_seq"@);
    sorted = sorted.push("sampler_seq"@);
    assert(before("sampler_seq"@, "seed"@)) by {
        reveal_strlit("sampler_seq");
        reveal_strlit("seed");
        reveal_with_fuel(before, 3);
    }
    lemma_ascending_push(sorted, "seed"@);
    sorted = sorted.push("seed"@);
    assert(before("seed"@, "session_timeout"@)) by {
        reveal_strlit("seed");
        reveal_strlit("session_timeout");
        reveal_with_fuel(before, 4);
    }
    lemma_ascending_push(sorted, "session_timeout"@);
    sorted = sorted.push("session_timeout"@);
    assert(before("session_timeout"@, "spec_draft_n_max"@)) by {
        reveal_strlit("session_timeout");
        reveal_strlit("spec_draft_n_max");
        reveal_with_fuel(before, 3);
    }
    lemma_ascending_push(sorted, "spec_draft_n_max"@);
    sorted = sorted.push("spec_draft_n_max"@);
    assert(before("spec_draft_n_max"@, "spec_draft_n_min"@)) by {
        reveal_strlit("spec_draft_n_max");
        reveal_strlit("spec_draft_n_min");
        reveal_with_fuel(before, 16);
    }
    lemma_ascending_push(sorted, "spec_draft_n_min"@);
    sorted = sorted.push("spec_draft_n_min"@);
    assert(before("spec_draft_n_min"@, "spec_draft_p_min"@)) by {
        reveal_strlit("spec_draft_n_min");
        reveal_strlit("spec_draft_p_min");
        reveal_with_fuel(before, 13);
    }
    lemma_ascending_push(sorted, "spec_draft_p_min"@);
    sorted = sorted.push("spec_draft_p_min"@);
    assert(before("spec_draft_p_min"@, "spec_draft_p_split"@)) by {
        reveal_strlit("spec_draft_p_min");
        reveal_strlit("spec_draft_p_split");
        reveal_with_fuel(before, 15);
    }
    lemma_ascending_push(sorted, "spec_draft_p_split"@);
    sorted = sorted.push("spec_draft_p_split"@);
    assert(before("spec_draft_p_split"@, "spec_type"@)) by {
        reveal_strlit("spec_draft_p_split");
        reveal_strlit("spec_type");
        reveal_with_fuel(before, 7);
    }
    lemma_ascending_push(sorted, "spec_type"@);
    sorted = sorted.push("spec_type"@);
    assert(before("spec_type"@, "split_mode"@)) by {
        reveal_strlit("spec_type");
        reveal_strlit("split_mode");
        reveal_with_fuel(before, 4);
    }
    lemma_ascending_push(sorted, "split_mode"@);
    sorted = sorted.push("split_mode"@);
    assert(before("split_mode"@, "ssl_cert_file"@)) by {
        reveal_strlit("split_mode");
        reveal_strlit("ssl_cert_file");
        reveal_with_fuel(before, 3);
    }
    lemma_ascending_push(sorted, "ssl_cert_file"@);
    sorted = sorted.push("ssl_cert_file"@);
    assert(before("ssl_cert_file"@, "ssl_key_file"@)) by {
        reveal_strlit("ssl_cert_file");
        reveal_strlit("ssl_key_file");
        reveal_with_fuel(before, 6);
    }
    lemma_ascending_push(sorted, "ssl_key_file"@);
    sorted = sorted.push("ssl_key_file"@);
    assert(before("ssl_key_file"@, "swa_full"@)) by {
        reveal_strlit("ssl_key_file");
        reveal_strlit("swa_full");
        reveal_with_fuel(before, 3);
    }
    lemma_ascending_push(sorted, "swa_full"@);
    sorted = sorted.push("swa_full"@);
    assert(before("swa_full"@, "temperature"@)) by {
        reveal_strlit("swa_full");
        reveal_strlit("temperature");
        reveal_with_fuel(before, 2);
    }
    lemma_ascending_push(sorted, "temperature"@);
    sorted = sorted.push("temperature"@);
    assert(before("temperature"@, "tensor_split"@)) by {
        reveal_strlit("temperature");
        reveal_strlit("tensor_split");
        reveal_with_fuel(before, 4);
    }
    lemma_ascending_push(sorted, "tensor_split"@);
    sorted = sorted.push("tensor_split"@);
    assert(before("tensor_split"@, "threads"@)) by {
        reveal_strlit("tensor_split");
        reveal_strlit("threads");
        reveal_with_fuel(before, 3);
    }
    lemma_ascending_push(sorted, "threads"@);
    sorted = sorted.push("threads"@);
    assert(before("threads"@, "threads_batch"@)) by {
        reveal_strlit("threads");
        reveal_strlit("threads_batch");
        reveal_with_fuel(before, 9);
    }
    lemma_ascending_push(sorted, "threads_batch"@);
    sorted = sorted.push("threads_batch"@);
    assert(before("threads_batch"@, "top_k"@)) by {
        reveal_strlit("threads_batch");
        reveal_strlit("top_k");
        reveal_with_fuel(before, 3);
    }
    lemma_ascending_push(sorted, "top_k"@);
    sorted = sorted.push("top_k"@);
    assert(before("top_k"@, "top_n_sigma"@)) by {
        reveal_strlit("top_k");
        reveal_strlit("top_n_sigma");
        reveal_with_fuel(before, 6);
    }
    lemma_ascending_push(sorted, "top_n_sigma"@);
    sorted = sorted.push("top_n_sigma"@);
    assert(before("top_n_sigma"@, "top_p"@)) by {
        reveal_strlit("top_n_sigma");
        reveal_strlit("top_p");
        reveal_with_fuel(before, 6);
    }
    lemma_ascending_push(sorted, "top_p"@);
    sorted = sorted.push("top_p"@);
    assert(before("top_p"@, "typical_p"@)) by {
        reveal_strlit("top_p");
        reveal_strlit("typical_p");
        reveal_with_fuel(before, 3);
    }
    lemma_ascending_push(sorted, "typical_p"@);
    sorted = sorted.push("typical_p"@);
    assert(before("typical_p"@, "ubatch_size"@)) by {
        reveal_strlit("typical_p");
        reveal_strlit("ubatch_size");
        reveal_with_fuel(before, 2);
    }
    lemma_ascending_push(sorted, "ubatch_size"@);
    sorted = sorted.push("ubatch_size"@);
    assert(before("ubatch_size"@, "verbose"@)) by {
        reveal_strlit("ubatch_size");
        reveal_strlit("verbose");
        reveal_with_fuel(before, 2);
    }
    lemma_ascending_push(sorted, "verbose"@);
    sorted = sorted.push("verbose"@);
    assert(before("verbose"@, "web_ui_enabled"@)) by {
        reveal_strlit("verbose");
        reveal_strlit("web_ui_enabled");
        reveal_with_fuel(before, 2);
    }
    lemma_ascending_push(sorted, "web_ui_enabled"@);
    sorted = sorted.push("web_ui_enabled"@);
    assert(before("web_ui_enabled"@, "xtc_probability"@)) by {
        reveal_strlit("web_ui_enabled");
        reveal_strlit("xtc_probability");
        reveal_with_fuel(before, 2);
    }
    lemma_ascending_push(sorted, "xtc_probability"@);
    sorted = sorted.push("xtc_probability"@);
    assert(before("xtc_probability"@, "xtc_threshold"@)) by {
        reveal_strlit("xtc_probability");
        reveal_strlit("xtc_threshold");
        reveal_with_fuel(before, 6);
    }
    lemma_ascending_push(sorted, "xtc_threshold"@);
    sorted = sorted.push("xtc_threshold"@);
    assert(sorted == preset_fields_sorted());
}

proof fn lemma_preset_fields_sorted_same()
    ensures
        preset_fields().to_set() == preset_fields_sorted().to_set(),
{
    broadcast use Seq::lemma_push_to_set_commute;

    assert(Seq::<Seq<char>>::empty().to_set() =~= Set::empty());
    assert(preset_fields().to_set() =~= preset_fields_sorted().to_set());
}

/// No key is listed twice among a preset's keys.
pub proof fn preset_keys_distinct()
    ensures
        preset_fields().no_duplicates(),
{
    lemma_preset_fields_sorted_ascending();
    lemma_preset_fields_sorted_same();
    assert(preset_fields_sorted().len() == preset_fields().len());
    lemma_same_keys_distinct(preset_fields_sorted(), preset_fields());
}




/// The exported parameter names in text order.
spec fn shared_param_fields_sorted() -> Seq<Seq<char>> {
    seq![
        "batch_size"@,
        "cache_type_k"@,
        "cache_type_v"@,
        "chat_template"@,
        "chat_template_file"@,
        "context"@,
        "cpu_moe"@,
        "enable_presence_penalty"@,
        "enable_repeat_penalty"@,
        "enable_temperature"@,
        "enable_top_k"@,
        "enable_top_p"@,
        "flash_attn"@,
        "gpu_layers_mode"@,
        "image_max_tokens"@,
        "image_min_tokens"@,
        "jinja_enabled"@,
        "kv_mlock"@,
        "kv_mmap"@,
        "kv_offload"@,
        "kv_unified"@,
        "mmproj_auto"@,
        "mmproj_device"@,
        "mmproj_offload"@,
        "mtmd_batch_max_tokens"@,
        "n_cpu_moe"@,
        "presence_penalty"@,
        "reasoning"@,
        "reasoning_budget"@,
        "reasoning_effort"@,
        "reasoning_format"@,
        "reasoning_preserve"@,
        "repeat_penalty"@,
        "spec_draft_n_max"@,
        "spec_draft_n_min"@,
        "spec_draft_p_min"@,
        "spec_draft_p_split"@,
        "spec_type"@,
        "split_mode"@,
        "swa_full"@,
        "temperature"@,
        "tensor_split"@,
        "top_k"@,
        "top_p"@,
        "ubatch_size"@,
        "video_ffmpeg_dir"@,
        "video_fps"@,
        "video_timestamp_interval"@,
    ]
}

#[verifier::rlimit(100)]
proof fn lemma_shared_param_fields_sorted_ascending()
    ensures
        ascending(shared_param_fields_sorted()),
{
    let mut sorted: Seq<Seq<char>> = seq!["batch_size"@];
    assert(before("batch_size"@, "cache_type_k"@)) by {
        reveal_strlit("batch_size");
        reveal_strlit("cache_type_k");
        reveal_with_fuel(before, 2);
    }
    lemma_ascending_push(sorted, "cache_type_k"@);
    sorted = sorted.push("cache_type_k"@);
    assert(before("cache_type_k"@, "cache_type_v"@)) by {
        reveal_strlit("cache_type_k");
        reveal_strlit("cache_type_v");
        reveal_with_fuel(before, 13);
    }
    lemma_ascending_push(sorted, "cache_type_v"@);
    sorted = sorted.push("cache_type_v"@);
    assert(before("cache_type_v"@, "chat_template"@)) by {
        reveal_strlit("cache_type_v");
        reveal_strlit("chat_template");
        reveal_with_fuel(before, 3);
    }
    lemma_ascending_push(sorted, "chat_template"@);
    sorted = sorted.push("chat_template"@);
    assert(before("chat_template"@, "chat_template_file"@)) by {
        reveal_strlit("chat_template");
        reveal_strlit("chat_template_file");
        reveal_with_fuel(before, 15);
    }
    lemma_ascending_push(sorted, "chat_template_file"@);
    sorted = sorted.push("chat_template_file"@);
    assert(before("chat_template_file"@, "context"@)) by {
        reveal_strlit("chat_template_file");
        reveal_strlit("context");
        reveal_with_fuel(before, 3);
    }
    lemma_ascending_push(sorted, "context"@);
    sorted = sorted.push("context"@);
    assert(before("context"@, "cpu_moe"@)) by {
        reveal_strlit("context");
        reveal_strlit("cpu_moe");
        reveal_with_fuel(before, 3);
    }
    lemma_ascending_push(sorted, "cpu_moe"@);
    sorted = sorted.push("cpu_moe"@);
    assert(before("cpu_moe"@, "enable_presence_penalty"@)) by {
        reveal_strlit("cpu_moe");
        reveal_strlit("enable_presence_penalty");
        reveal_with_fuel(before, 2);
    }
    lemma_ascending_push(sorted, "enable_presence_penalty"@);
    sorted = sorted.push("enable_presence_penalty"@);
    assert(before("enable_presence_penalty"@, "enable_repeat_penalty"@)) by {
        reveal_strlit("enable_presence_penalty");
        reveal_strlit("enable_repeat_penalty");
        reveal_with_fuel(before, 9);
    }
    lemma_ascending_push(sorted, "enable_repeat_penalty"@);
    sorted = sorted.push("enable_repeat_penalty"@);
    assert(before("enable_repeat_penalty"@, "enable_temperature"@)) by {
        reveal_strlit("enable_repeat_penalty");
        reveal_strlit("enable_temperature");
        reveal_with_fuel(before, 9);
    }
    lemma_ascending_push(sorted, "enable_temperature"@);
    sorted = sorted.push("enable_temperature"@);
    assert(before("enable_temperature"@, "enable_top_k"@)) by {
        reveal_strlit("enable_temperature");
        reveal_strlit("enable_top_k");
        reveal_with_fuel(before, 10);
    }
    lemma_ascending_push(sorted, "enable_top_k"@);
    sorted = sorted.push("enable_top_k"@);
    assert(before("enable_top_k"@, "enable_top_p"@)) by {
        reveal_strlit("enable_top_k");
        reveal_strlit("enable_top_p");
        reveal_with_fuel(before, 13);
    }
    lemma_ascending_push(sorted, "enable_top_p"@);
    sorted = sorted.push("enable_top_p"@);
    assert(before("enable_top_p"@, "flash_attn"@)) by {
        reveal_strlit("enable_top_p");
        reveal_strlit("flash_attn");
        reveal_with_fuel(before, 2);
    }
    lemma_ascending_push(sorted, "flash_attn"@);
    sorted = sorted.push("flash_attn"@);
    assert(before("flash_attn"@, "gpu_layers_mode"@)) by {
        reveal_strlit("flash_attn");
        reveal_strlit("gpu_layers_mode");
        reveal_with_fuel(before, 2);
    }
    lemma_ascending_push(sorted, "gpu_layers_mode"@);
    sorted = sorted.push("gpu_layers_mode"@);
    assert(before("gpu_layers_mode"@, "image_max_tokens"@)) by {
        reveal_strlit("gpu_layers_mode");
        reveal_strlit("image_max_tokens");
        reveal_with_fuel(before, 2);
    }
    lemma_ascending_push(sorted, "image_max_tokens"@);
    sorted = sorted.push("image_max_tokens"@);
    assert(before("image_max_tokens"@, "image_min_tokens"@)) by {
        reveal_strlit("image_max_tokens");
        reveal_strlit("image_min_tokens");
        reveal_with_fuel(before, 9);
    }
    lemma_ascending_push(sorted, "image_min_tokens"@);
    sorted = sorted.push("image_min_tokens"@);
    assert(before("image_min_tokens"@, "jinja_enabled"@)) by {
        reveal_strlit("image_min_tokens");
        reveal_strlit("jinja_enabled");
        reveal_with_fuel(before, 2);
    }
    lemma_ascending_push(sorted, "jinja_enabled"@);
    sorted = sorted.push("jinja_enabled"@);
    assert(before("jinja_enabled"@, "kv_mlock"@)) by {
        reveal_strlit("jinja_enabled");
        reveal_strlit("kv_mlock");
        reveal_with_fuel(before, 2);
    }
    lemma_ascending_push(sorted, "kv_mlock"@);
    sorted = sorted.push("kv_mlock"@);
    assert(before("kv_mlock"@, "kv_mmap"@)) by {
        reveal_strlit("kv_mlock");
        reveal_strlit("kv_mmap");
        reveal_with_fuel(before, 6);
    }
    lemma_ascending_push(sorted, "kv_mmap"@);
    sorted = sorted.push("kv_mmap"@);
    assert(before("kv_mmap"@, "kv_offload"@)) by {
        reveal_strlit("kv_mmap");
        reveal_strlit("kv_offload");
        reveal_with_fuel(before, 5);
    }
    lemma_ascending_push(sorted, "kv_offload"@);
    sorted = sorted.push("kv_offload"@);
    assert(before("kv_offload"@, "kv_unified"@)) by {
        reveal_strlit("kv_offload");
        reveal_strlit("kv_unified");
        reveal_with_fuel(before, 5);
    }
    lemma_ascending_push(sorted, "kv_unified"@);
    sorted = sorted.push("kv_unified"@);
    assert(before("kv_unified"@, "mmproj_auto"@)) by {
        reveal_strlit("kv_unified");
        reveal_strlit("mmproj_auto");
        reveal_with_fuel(before, 2);
    }
    lemma_ascending_push(sorted, "mmproj_auto"@);
    sorted = sorted.push("mmproj_auto"@);
    assert(before("mmproj_auto"@, "mmproj_device"@)) by {
        reveal_strlit("mmproj_auto");
        reveal_strlit("mmproj_device");
        reveal_with_fuel(before, 9);
    }
    lemma_ascending_push(sorted, "mmproj_device"@);
    sorted = sorted.push("mmproj_device"@);
    assert(before("mmproj_device"@, "mmproj_offload"@)) by {
        reveal_strlit("mmproj_device");
        reveal_strlit("mmproj_offload");
        reveal_with_fuel(before, 9);
    }
    lemma_ascending_push(sorted, "mmproj_offload"@);
    sorted = sorted.push("mmproj_offload"@);
    assert(before("mmproj_offload"@, "mtmd_batch_max_tokens"@)) by {
        reveal_strlit("mmproj_offload");
        reveal_strlit("mtmd_batch_max_tokens");
        reveal_with_fuel(before, 3);
    }
    lemma_ascending_push(sorted, "mtmd_batch_max_tokens"@);
    sorted = sorted.push("mtmd_batch_max_tokens"@);
    assert(before("mtmd_batch_max_tokens"@, "n_cpu_moe"@)) by {
        reveal_strlit("mtmd_batch_max_tokens");
        reveal_strlit("n_cpu_moe");
        reveal_with_fuel(before, 2);
    }
    lemma_ascending_push(sorted, "n_cpu_moe"@);
    sorted = sorted.push("n_cpu_moe"@);
    assert(before("n_cpu_moe"@, "presence_penalty"@)) by {
        reveal_strlit("n_cpu_moe");
        reveal_strlit("presence_penalty");
        reveal_with_fuel(before, 2);
    }
    lemma_ascending_push(sorted, "presence_penalty"@);
    sorted = sorted.push("presence_penalty"@);
    assert(before("presence_penalty"@, "reasoning"@)) by {
        reveal_strlit("presence_penalty");
        reveal_strlit("reasoning");
        reveal_with_fuel(before, 2);
    }
    lemma_ascending_push(sorted, "reasoning"@);
    sorted = sorted.push("reasoning"@);
    assert(before("reasoning"@, "reasoning_budget"@)) by {
        reveal_strlit("reasoning");
        reveal_strlit("reasoning_budget");
        reveal_with_fuel(before, 11);
    }
    lemma_ascending_push(sorted, "reasoning_budget"@);
    sorted = sorted.push("reasoning_budget"@);
    assert(before("reasoning_budget"@, "reasoning_effort"@)) by {
        reveal_strlit("reasoning_budget");
        reveal_strlit("reasoning_effort");
        reveal_with_fuel(before, 12);
    }
    lemma_ascending_push(sorted, "reasoning_effort"@);
    sorted = sorted.push("reasoning_effort"@);
    assert(before("reasoning_effort"@, "reasoning_format"@)) by {
        reveal_strlit("reasoning_effort");
        reveal_strlit("reasoning_format");
        reveal_with_fuel(before, 12);
    }
    lemma_ascending_push(sorted, "reasoning_format"@);
    sorted = sorted.push("reasoning_format"@);
    assert(before("reasoning_format"@, "reasoning_preserve"@)) by {
        reveal_strlit("reasoning_format");
        reveal_strlit("reasoning_preserve");
        reveal_with_fuel(before, 12);
    }
    lemma_ascending_push(sorted, "reasoning_preserve"@);
    sorted = sorted.push("reasoning_preserve"@);
    assert(before("reasoning_preserve"@, "repeat_penalty"@)) by {
        reveal_strlit("reasoning_preserve");
        reveal_strlit("repeat_penalty");
        reveal_with_fuel(before, 4);
    }
    lemma_ascending_push(sorted, "repeat_penalty"@);
    sorted = sorted.push("repeat_penalty"@);
    assert(before("repeat_penalty"@, "spec_draft_n_max"@)) by {
        reveal_strlit("repeat_penalty");
        reveal_strlit("spec_draft_n_max");
        reveal_with_fuel(before, 2);
    }
    lemma_ascending_push(sorted, "spec_draft_n_max"@);
    sorted = sorted.push("spec_draft_n_max"@);
    assert(before("spec_draft_n_max"@, "spec_draft_n_min"@)) by {
        reveal_strlit("spec_draft_n_max");
        reveal_strlit("spec_draft_n_min");
        reveal_with_fuel(before, 16);
    }
    lemma_ascending_push(sorted, "spec_draft_n_min"@);
    sorted = sorted.push("spec_draft_n_min"@);
    assert(before("spec_draft_n_min"@, "spec_draft_p_min"@)) by {
        reveal_strlit("spec_draft_n_min");
        reveal_strlit("spec_draft_p_min");
        reveal_with_fuel(before, 13);
    }
    lemma_ascending_push(sorted, "spec_draft_p_min"@);
    sorted = sorted.push("spec_draft_p_min"@);
    assert(before("spec_draft_p_min"@, "spec_draft_p_split"@)) by {
        reveal_strlit("spec_draft_p_min");
        reveal_strlit("spec_draft_p_split");
        reveal_with_fuel(before, 15);
    }
    lemma_ascending_push(sorted, "spec_draft_p_split"@);
    sorted = sorted.push("spec_draft_p_split"@);
    assert(before("spec_draft_p_split"@, "spec_type"@)) by {
        reveal_strlit("spec_draft_p_split");
        reveal_strlit("spec_type");
        reveal_with_fuel(before, 7);
    }
    lemma_ascending_push(sorted, "spec_type"@);
    sorted = sorted.push("spec_type"@);
    assert(before("spec_type"@, "split_mode"@)) by {
        reveal_strlit("spec_type");
        reveal_strlit("split_mode");
        reveal_with_fuel(before, 4);
    }
    lemma_ascending_push(sorted, "split_mode"@);
    sorted = sorted.push("split_mode"@);
    assert(before("split_mode"@, "swa_full"@)) by {
        reveal_strlit("split_mode");
        reveal_strlit("swa_full");
        reveal_with_fuel(before, 3);
    }
    lemma_ascending_push(sorted, "swa_full"@);
    sorted = sorted.push("swa_full"@);
    assert(before("swa_full"@, "temperature"@)) by {
        reveal_strlit("swa_full");
        reveal_strlit("temperature");
        reveal_with_fuel(before, 2);
    }
    lemma_ascending_push(sorted, "temperature"@);
    sorted = sorted.push("temperature"@);
    assert(before("temperature"@, "tensor_split"@)) by {
        reveal_strlit("temperature");
        reveal_strlit("tensor_split");
        reveal_with_fuel(before, 4);
    }
    lemma_ascending_push(sorted, "tensor_split"@);
    sorted = sorted.push("tensor_split"@);
    assert(before("tensor_split"@, "top_k"@)) by {
        reveal_strlit("tensor_split");
        reveal_strlit("top_k");
        reveal_with_fuel(before, 3);
    }
    lemma_ascending_push(sorted, "top_k"@);
    sorted = sorted.push("top_k"@);
    assert(before("top_k"@, "top_p"@)) by {
        reveal_strlit("top_k");
        reveal_strlit("top_p");
        reveal_with_fuel(before, 6);
    }
    lemma_ascending_push(sorted, "top_p"@);
    sorted = sorted.push("top_p"@);
    assert(before("top_p"@, "ubatch_size"@)) by {
        reveal_strlit("top_p");
        reveal_strlit("ubatch_size");
        reveal_with_fuel(before, 2);
    }
    lemma_ascending_push(sorted, "ubatch_size"@);
    sorted = sorted.push("ubatch_size"@);
    assert(before("ubatch_size"@, "video_ffmpeg_dir"@)) by {
        reveal_strlit("ubatch_size");
        reveal_strlit("video_ffmpeg_dir");
        reveal_with_fuel(before, 2);
    }
    lemma_ascending_push(sorted, "video_ffmpeg_dir"@);
    sorted = sorted.push("video_ffmpeg_dir"@);
    assert(before("video_ffmpeg_dir"@, "video_fps"@)) by {
        reveal_strlit("video_ffmpeg_dir");
        reveal_strlit("video_fps");
        reveal_with_fuel(before, 9);
    }
    lemma_ascending_push(sorted, "video_fps"@);
    sorted = sorted.push("video_fps"@);
    assert(before("video_fps"@, "video_timestamp_interval"@)) by {
        reveal_strlit("video_fps");
        reveal_strlit("video_timestamp_interval");
        reveal_with_fuel(before, 8);
    }
    lemma_ascending_push(sorted, "video_timestamp_interval"@);
    sorted = sorted.push("video_timestamp_interval"@);
    assert(sorted == shared_param_fields_sorted());
}

proof fn lemma_shared_param_fields_sorted_same()
    ensures
        shared_param_fields().to_set() == shared_param_fields_sorted().to_set(),
{
    broadcast use Seq::lemma_push_to_set_commute;

    assert(Seq::<Seq<char>>::empty().to_set() =~= Set::empty());
    assert(shared_param_fields().to_set() =~= shared_param_fields_sorted().to_set());
}

/// No name is listed twice among the exported parameters.
pub proof fn param_keys_distinct()
    ensures
        shared_param_fields().no_duplicates(),
{
    lemma_shared_param_fields_sorted_ascending();
    lemma_shared_param_fields_sorted_same();
    assert(shared_param_fields_sorted().len() == shared_param_fields().len());
    lemma_same_keys_distinct(shared_param_fields_sorted(), shared_param_fields());
}

} // verus!
