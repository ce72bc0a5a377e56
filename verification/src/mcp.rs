//! The configured MCP servers: reading them out of the `mcpServers`
//! configuration, what saving a new configuration does to their switches, and
//! how many are on.
use vstd::prelude::*;
use crate::json::{field, json_field, json_parse, parse_json, Json};
use crate::share_decl::{mcp_views, state_views, tool_enabled, ShareMcpDecl};
use crate::text::names_of;

verus! {

/// The switch stored for `name`: the first entry for it, none when there is
/// none.
pub open spec fn stored_state(states: Seq<(Seq<char>, bool)>, name: Seq<char>) -> Option<bool>
    decreases states.len(),
{
    if states.len() == 0 {
        None
    } else if states[0].0 == name {
        Some(states[0].1)
    } else {
        stored_state(states.drop_first(), name)
    }
}

/// The switches after a configuration is saved. `servers` lists the servers
/// of the new configuration as (name, usable), usable meaning an object entry
/// with a command. Each gets one switch, in the configuration's order: the
/// stored one, else on exactly when it is usable. Switches of servers that
/// are no longer configured are dropped.
pub open spec fn merged_states(
    servers: Seq<(Seq<char>, bool)>,
    states: Seq<(Seq<char>, bool)>,
) -> Seq<(Seq<char>, bool)> {
    servers.map_values(
        |s: (Seq<char>, bool)|
            (
                s.0,
                match stored_state(states, s.0) {
                    Some(b) => b,
                    None => s.1,
                },
            ),
    )
}

/// How many of the servers `names` are switched on.
pub open spec fn enabled_count(names: Seq<Seq<char>>, states: Seq<(Seq<char>, bool)>) -> nat
    decreases names.len(),
{
    if names.len() == 0 {
        0
    } else {
        enabled_count(names.drop_last(), states) + if tool_enabled(states, names.last()) {
            1nat
        } else {
            0nat
        }
    }
}

proof fn lemma_enabled_is_stored_on(states: Seq<(Seq<char>, bool)>, name: Seq<char>)
    ensures
        tool_enabled(states, name) == (stored_state(states, name) == Some(true)),
    decreases states.len(),
{
    if states.len() > 0 && states[0].0 != name {
        lemma_enabled_is_stored_on(states.drop_first(), name);
    }
}

fn find_state(states: &[(String, bool)], name: &String) -> (res: Option<bool>)
    ensures
        res == stored_state(state_views(states@), name@),
{
    let ghost sv = state_views(states@);
    let mut i: usize = 0;
    proof {
        assert(sv.skip(0) =~= sv);
    }
    while i < states.len()
        invariant
            i <= states@.len(),
            sv == state_views(states@),
            stored_state(sv, name@) == stored_state(sv.skip(i as int), name@),
        decreases states@.len() - i,
    {
        proof {
            let t = sv.skip(i as int);
            assert(t[0] == (states@[i as int].0@, states@[i as int].1));
            assert(t.drop_first() =~= sv.skip(i + 1));
        }
        if states[i].0 == *name {
            return Some(states[i].1);
        }
        i = i + 1;
    }
    None
}

/// The switches after saving a configuration (see `merged_states`).
pub fn merge_server_states(
    servers: &[(String, bool)],
    states: &[(String, bool)],
) -> (res: Vec<(String, bool)>)
    ensures
        state_views(res@) == merged_states(state_views(servers@), state_views(states@)),
{
    let ghost target = merged_states(state_views(servers@), state_views(states@));
    let mut out: Vec<(String, bool)> = Vec::new();
    let mut i: usize = 0;
    while i < servers.len()
        invariant
            i <= servers@.len(),
            target == merged_states(state_views(servers@), state_views(states@)),
            state_views(out@) == target.take(i as int),
        decreases servers@.len() - i,
    {
        let on = match find_state(states, &servers[i].0) {
            Some(b) => b,
            None => servers[i].1,
        };
        let ghost before = state_views(out@);
        out.push((servers[i].0.clone(), on));
        proof {
            assert(state_views(out@) =~= before.push((servers@[i as int].0@, on)));
            assert(target.take(i + 1) =~= target.take(i as int).push(target[i as int]));
        }
        i = i + 1;
    }
    proof {
        assert(target.take(servers@.len() as int) =~= target);
    }
    out
}

/// How many of the configured servers are switched on (see `enabled_count`).
pub fn count_enabled(names: &[String], states: &[(String, bool)]) -> (res: usize)
    ensures
        res == enabled_count(names_of(names@), state_views(states@)),
{
    let ghost nv = names_of(names@);
    let ghost sv = state_views(states@);
    let mut n: usize = 0;
    let mut i: usize = 0;
    while i < names.len()
        invariant
            i <= names@.len(),
            nv == names_of(names@),
            sv == state_views(states@),
            n == enabled_count(nv.take(i as int), sv),
            n <= i,
        decreases names@.len() - i,
    {
        let s = find_state(states, &names[i]);
        proof {
            lemma_enabled_is_stored_on(sv, nv[i as int]);
            assert(nv.take(i + 1).drop_last() =~= nv.take(i as int));
            assert(nv.take(i + 1).last() == names@[i as int]@);
        }
        match s {
            Some(true) => {
                n = n + 1;
            },
            _ => {},
        }
        i = i + 1;
    }
    proof {
        assert(nv.take(names@.len() as int) =~= nv);
    }
    n
}

/// The text of a string value; empty for anything else.
pub open spec fn text_of(j: Option<Json>) -> Seq<char> {
    match j {
        Some(Json::Str(t)) => t@,
        _ => Seq::empty(),
    }
}

/// The strings among `items`, in order.
pub open spec fn strings_in(items: Seq<Json>) -> Seq<Seq<char>>
    decreases items.len(),
{
    if items.len() == 0 {
        Seq::empty()
    } else {
        let rest = strings_in(items.drop_last());
        match items.last() {
            Json::Str(t) => rest.push(t@),
            _ => rest,
        }
    }
}

/// The strings of an array value; none for anything else.
pub open spec fn args_in(j: Option<Json>) -> Seq<Seq<char>> {
    match j {
        Some(Json::Array(a)) => strings_in(a@),
        _ => Seq::empty(),
    }
}

/// One entry of `mcpServers` as (name, `command` text, `args` strings).
pub open spec fn server_entry(e: (String, Json)) -> (Seq<char>, Seq<char>, Seq<Seq<char>>) {
    (e.0@, text_of(field(e.1, "command"@)), args_in(field(e.1, "args"@)))
}

/// The servers of a configuration document: each member of its `mcpServers`
/// object, in order; none when there is no such object.
pub open spec fn mcp_servers_in(doc: Json) -> Seq<(Seq<char>, Seq<char>, Seq<Seq<char>>)> {
    match field(doc, "mcpServers"@) {
        Some(Json::Object(m)) => m@.map_values(|e: (String, Json)| server_entry(e)),
        _ => Seq::empty(),
    }
}

spec fn deref_json(j: Option<&Json>) -> Option<Json> {
    match j {
        Some(r) => Some(*r),
        None => None,
    }
}

fn text_exec(j: Option<&Json>) -> (res: String)
    ensures
        res@ == text_of(deref_json(j)),
{
    match j {
        Some(Json::Str(t)) => t.clone(),
        _ => String::new(),
    }
}

fn args_exec(j: Option<&Json>) -> (res: Vec<String>)
    ensures
        names_of(res@) == args_in(deref_json(j)),
{
    let mut out: Vec<String> = Vec::new();
    match j {
        Some(Json::Array(a)) => {
            let mut k: usize = 0;
            proof {
                assert(a@.take(0) =~= Seq::<Json>::empty());
            }
            while k < a.len()
                invariant
                    k <= a@.len(),
                    names_of(out@) == strings_in(a@.take(k as int)),
                decreases a@.len() - k,
            {
                proof {
                    assert(a@.take(k + 1).drop_last() =~= a@.take(k as int));
                    assert(a@.take(k + 1).last() == a@[k as int]);
                }
                match &a[k] {
                    Json::Str(t) => {
                        let ghost before = names_of(out@);
                        out.push(t.clone());
                        proof {
                            assert(names_of(out@) =~= before.push(t@));
                        }
                    },
                    _ => {},
                }
                k = k + 1;
            }
            proof {
                assert(a@.take(a@.len() as int) =~= a@);
            }
            out
        },
        _ => out,
    }
}

/// The servers of a parsed configuration (see `mcp_servers_in`).
pub fn mcp_servers_of(doc: &Json) -> (res: Vec<ShareMcpDecl>)
    ensures
        mcp_views(res@) == mcp_servers_in(*doc),
{
    let mut out: Vec<ShareMcpDecl> = Vec::new();
    match json_field(doc, "mcpServers") {
        Some(Json::Object(m)) => {
            let ghost target = m@.map_values(|e: (String, Json)| server_entry(e));
            let mut i: usize = 0;
            while i < m.len()
                invariant
                    i <= m@.len(),
                    target == m@.map_values(|e: (String, Json)| server_entry(e)),
                    mcp_views(out@) == target.take(i as int),
                decreases m@.len() - i,
            {
                let cfg = &m[i].1;
                let command = text_exec(json_field(cfg, "command"));
                let args = args_exec(json_field(cfg, "args"));
                let ghost before = mcp_views(out@);
                out.push(ShareMcpDecl { name: m[i].0.clone(), command, args });
                proof {
                    assert(mcp_views(out@) =~= before.push(target[i as int]));
                    assert(target.take(i + 1) =~= target.take(i as int).push(target[i as int]));
                }
                i = i + 1;
            }
            proof {
                assert(target.take(m@.len() as int) =~= target);
            }
            out
        },
        _ => out,
    }
}

/// The servers of the `mcpServers` configuration text: none when it does not
/// parse.
pub fn parse_mcp_servers(config_json: &str) -> (res: Vec<ShareMcpDecl>)
    ensures
        mcp_views(res@) == match json_parse(config_json@) {
            Some(d) => mcp_servers_in(d),
            None => Seq::empty(),
        },
{
    match parse_json(config_json) {
        Some(d) => mcp_servers_of(&d),
        None => Vec::new(),
    }
}

/// A server's switch when it first appears: on exactly when its entry is an
/// object with a non-empty `command`.
pub open spec fn switch_default(e: (String, Json)) -> (Seq<char>, bool) {
    (e.0@, e.1 is Object && text_of(field(e.1, "command"@)).len() > 0)
}

/// The servers of a configuration document with their first switches (see
/// `switch_default`); none when the document has no `mcpServers` object.
pub fn mcp_switch_defaults(doc: &Json) -> (res: Option<Vec<(String, bool)>>)
    ensures
        match field(*doc, "mcpServers"@) {
            Some(Json::Object(m)) => res matches Some(v) && state_views(v@) == m@.map_values(
                |e: (String, Json)| switch_default(e),
            ),
            _ => res is None,
        },
{
    match json_field(doc, "mcpServers") {
        Some(Json::Object(m)) => {
            let ghost target = m@.map_values(|e: (String, Json)| switch_default(e));
            let mut out: Vec<(String, bool)> = Vec::new();
            let mut i: usize = 0;
            while i < m.len()
                invariant
                    i <= m@.len(),
                    target == m@.map_values(|e: (String, Json)| switch_default(e)),
                    state_views(out@) == target.take(i as int),
                decreases m@.len() - i,
            {
                let cfg = &m[i].1;
                let is_object = match cfg {
                    Json::Object(_) => true,
                    _ => false,
                };
                let command = text_exec(json_field(cfg, "command"));
                let cs = crate::text::chars_of(command.as_str());
                let usable = is_object && cs.len() > 0;
                let ghost before = state_views(out@);
                out.push((m[i].0.clone(), usable));
                proof {
                    assert(state_views(out@) =~= before.push(target[i as int]));
                    assert(target.take(i + 1) =~= target.take(i as int).push(target[i as int]));
                }
                i = i + 1;
            }
            proof {
                assert(target.take(m@.len() as int) =~= target);
            }
            Some(out)
        },
        _ => None,
    }
}

} // verus!
