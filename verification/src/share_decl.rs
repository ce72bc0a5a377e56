//! The declaration that travels with shared presets: what the receiver must set
//! up on their own machine for the presets to run.
use vstd::prelude::*;
use crate::text::names_of;
use crate::text::{chars_of, join, join_exec, push_str, string_from, trim, trim_vec, views};

verus! {

/// One MCP tool named in a declaration (or configured locally).
pub struct ShareMcpDecl {
    /// The tool's name.
    pub name: String,
    /// The sharer's command for it (for reference only).
    pub command: String,
    /// Its arguments.
    pub args: Vec<String>,
}

/// What the receiver of shared presets must provide.
pub struct ShareDecl {
    /// The MCP tools that the presets use.
    pub mcp: Vec<ShareMcpDecl>,
    /// The parameters hold a custom chat template.
    pub has_template: bool,
    /// The parameters hold a grammar.
    pub has_grammar: bool,
    /// The parameters hold a JSON schema.
    pub has_schema: bool,
    /// A local model file is needed.
    pub model_required: bool,
    /// A local llama-server is needed.
    pub server_required: bool,
}

/// A tool as (name, command, arguments).
pub open spec fn mcp_view(m: ShareMcpDecl) -> (Seq<char>, Seq<char>, Seq<Seq<char>>) {
    (m.name@, m.command@, names_of(m.args@))
}

/// Tools as (name, command, arguments).
pub open spec fn mcp_views(ms: Seq<ShareMcpDecl>) -> Seq<(Seq<char>, Seq<char>, Seq<Seq<char>>)> {
    ms.map_values(|m: ShareMcpDecl| mcp_view(m))
}

impl Default for ShareDecl {
    /// The declaration of a payload that carries none: nothing declared.
    fn default() -> (res: Self)
        ensures
            res.mcp@.len() == 0,
            !res.has_template,
            !res.has_grammar,
            !res.has_schema,
            !res.model_required,
            !res.server_required,
    {
        ShareDecl {
            mcp: Vec::new(),
            has_template: false,
            has_grammar: false,
            has_schema: false,
            model_required: false,
            server_required: false,
        }
    }
}

/// The switch of tool `name` among `states`: the first entry for that name,
/// off when there is none.
pub open spec fn tool_enabled(states: Seq<(Seq<char>, bool)>, name: Seq<char>) -> bool
    decreases states.len(),
{
    if states.len() == 0 {
        false
    } else if states[0].0 == name {
        states[0].1
    } else {
        tool_enabled(states.drop_first(), name)
    }
}

/// Switches as (name, on).
pub open spec fn state_views(v: Seq<(String, bool)>) -> Seq<(Seq<char>, bool)> {
    v.map_values(|p: (String, bool)| (p.0@, p.1))
}

/// The servers whose switch is on, in order.
pub open spec fn enabled_tools(
    servers: Seq<(Seq<char>, Seq<char>, Seq<Seq<char>>)>,
    states: Seq<(Seq<char>, bool)>,
) -> Seq<(Seq<char>, Seq<char>, Seq<Seq<char>>)>
    decreases servers.len(),
{
    if servers.len() == 0 {
        Seq::empty()
    } else {
        let rest = enabled_tools(servers.drop_last(), states);
        if tool_enabled(states, servers.last().0) {
            rest.push(servers.last())
        } else {
            rest
        }
    }
}

fn is_tool_enabled(states: &[(String, bool)], name: &String) -> (res: bool)
    ensures
        res == tool_enabled(state_views(states@), name@),
{
    let ghost sv = state_views(states@);
    let mut i: usize = 0;
    proof {
        assert(sv.skip(0) =~= sv);
    }
    while i < states.len()
        invariant
            i <= states@.len(),
            sv == state_views(states@),
            tool_enabled(sv, name@) == tool_enabled(sv.skip(i as int), name@),
        decreases states@.len() - i,
    {
        proof {
            let t = sv.skip(i as int);
            assert(t[0] == (states@[i as int].0@, states@[i as int].1));
            assert(t.drop_first() =~= sv.skip(i + 1));
        }
        if states[i].0 == *name {
            return states[i].1;
        }
        i = i + 1;
    }
    false
}

fn copy_strings(v: &Vec<String>) -> (res: Vec<String>)
    ensures
        names_of(res@) == names_of(v@),
{
    let mut out: Vec<String> = Vec::new();
    let mut i: usize = 0;
    while i < v.len()
        invariant
            i <= v@.len(),
            names_of(out@) == names_of(v@).take(i as int),
        decreases v@.len() - i,
    {
        let ghost before = names_of(out@);
        out.push(v[i].clone());
        proof {
            assert(names_of(out@) =~= before.push(v@[i as int]@));
            assert(names_of(v@).take(i + 1) =~= names_of(v@).take(i as int).push(v@[i as int]@));
        }
        i = i + 1;
    }
    proof {
        assert(names_of(v@).take(v@.len() as int) =~= names_of(v@));
    }
    out
}

/// The declaration for shared presets: the configured MCP tools whose switch
/// is on (none when MCP is off), whether the chat template, grammar and JSON
/// schema are more than white space, and always a model and a server.
pub fn build_decl(
    mcp_enabled: bool,
    servers: &[ShareMcpDecl],
    states: &[(String, bool)],
    chat_template: &str,
    grammar: &str,
    json_schema: &str,
) -> (res: ShareDecl)
    ensures
        mcp_views(res.mcp@) == if mcp_enabled {
            enabled_tools(mcp_views(servers@), state_views(states@))
        } else {
            Seq::empty()
        },
        res.has_template == (trim(chat_template@).len() > 0),
        res.has_grammar == (trim(grammar@).len() > 0),
        res.has_schema == (trim(json_schema@).len() > 0),
        res.model_required,
        res.server_required,
{
    let mut mcp: Vec<ShareMcpDecl> = Vec::new();
    if mcp_enabled {
        let ghost all = mcp_views(servers@);
        let ghost sv = state_views(states@);
        let mut i: usize = 0;
        proof {
            assert(all.take(0) =~= Seq::<(Seq<char>, Seq<char>, Seq<Seq<char>>)>::empty());
        }
        while i < servers.len()
            invariant
                i <= servers@.len(),
                all == mcp_views(servers@),
                sv == state_views(states@),
                mcp_views(mcp@) == enabled_tools(all.take(i as int), sv),
            decreases servers@.len() - i,
        {
            let ghost before = mcp_views(mcp@);
            proof {
                assert(all.take(i + 1).drop_last() =~= all.take(i as int));
                assert(all.take(i + 1).last() == mcp_view(servers@[i as int]));
            }
            let s = &servers[i];
            if is_tool_enabled(states, &s.name) {
                let m = ShareMcpDecl {
                    name: s.name.clone(),
                    command: s.command.clone(),
                    args: copy_strings(&s.args),
                };
                mcp.push(m);
                proof {
                    assert(mcp_views(mcp@) =~= before.push(mcp_view(servers@[i as int])));
                }
            }
            i = i + 1;
        }
        proof {
            assert(all.take(servers@.len() as int) =~= all);
        }
    } else {
        proof {
            assert(mcp_views(mcp@) =~= Seq::<(Seq<char>, Seq<char>, Seq<Seq<char>>)>::empty());
        }
    }
    let has_template = trim_vec(chars_of(chat_template).as_slice()).len() > 0;
    let has_grammar = trim_vec(chars_of(grammar).as_slice()).len() > 0;
    let has_schema = trim_vec(chars_of(json_schema).as_slice()).len() > 0;
    ShareDecl {
        mcp,
        has_template,
        has_grammar,
        has_schema,
        model_required: true,
        server_required: true,
    }
}

/// Some local tool has the declared name and a command that is not empty.
pub open spec fn tool_configured(
    existing: Seq<(Seq<char>, Seq<char>, Seq<Seq<char>>)>,
    name: Seq<char>,
) -> bool {
    exists|k: int| 0 <= k < existing.len() && existing[k].0 == name && existing[k].1.len() > 0
}

/// Something the declaration asks for is not set up: no model file is chosen,
/// or a declared tool has no local counterpart with a command.
pub open spec fn missing_setup(
    decl: Seq<(Seq<char>, Seq<char>, Seq<Seq<char>>)>,
    model_path: Seq<char>,
    existing: Seq<(Seq<char>, Seq<char>, Seq<Seq<char>>)>,
) -> bool {
    model_path.len() == 0 || exists|d: int|
        0 <= d < decl.len() && !tool_configured(existing, #[trigger] decl[d].0)
}

fn is_configured(existing: &[ShareMcpDecl], name: &String) -> (res: bool)
    ensures
        res == tool_configured(mcp_views(existing@), name@),
{
    let ghost ev = mcp_views(existing@);
    let mut i: usize = 0;
    while i < existing.len()
        invariant
            i <= existing@.len(),
            ev == mcp_views(existing@),
            forall|k: int| 0 <= k < i ==> !(ev[k].0 == name@ && ev[k].1.len() > 0),
        decreases existing@.len() - i,
    {
        if existing[i].name == *name && !existing[i].command.as_str().is_empty() {
            proof {
                assert(ev[i as int].0 == name@ && ev[i as int].1.len() > 0);
            }
            return true;
        }
        proof {
            assert(!(ev[i as int].0 == name@ && ev[i as int].1.len() > 0));
        }
        i = i + 1;
    }
    false
}

/// Whether the declaration still asks for something: a model path, or a local
/// command for each declared tool (see `missing_setup`).
pub fn collect_missing(decl: &ShareDecl, model_path: &str, existing: &[ShareMcpDecl]) -> (res: bool)
    ensures
        res == missing_setup(mcp_views(decl.mcp@), model_path@, mcp_views(existing@)),
{
    if model_path.is_empty() {
        return true;
    }
    let ghost dv = mcp_views(decl.mcp@);
    let mut d: usize = 0;
    while d < decl.mcp.len()
        invariant
            d <= decl.mcp@.len(),
            dv == mcp_views(decl.mcp@),
            forall|k: int| 0 <= k < d ==> tool_configured(mcp_views(existing@), #[trigger] dv[k].0),
        decreases decl.mcp@.len() - d,
    {
        if !is_configured(existing, &decl.mcp[d].name) {
            proof {
                assert(!tool_configured(mcp_views(existing@), dv[d as int].0));
            }
            return true;
        }
        d = d + 1;
    }
    false
}

/// The labels of the declaration text, in the reader's language.
pub struct DeclLabels {
    pub model: String,
    pub model_hint: String,
    pub server: String,
    pub server_hint: String,
    pub mcp_title: String,
    pub mcp_hint: String,
    pub template: String,
    pub template_hint: String,
    pub grammar: String,
    pub grammar_hint: String,
    pub schema: String,
    pub schema_hint: String,
}

/// One titled entry: `◆ title`, the hint indented, a blank line.
pub open spec fn section(title: Seq<char>, hint: Seq<char>) -> Seq<char> {
    "◆ "@ + title + "\n   "@ + hint + "\n\n"@
}

/// The line of one tool: `   • name — command`, then its arguments.
pub open spec fn tool_line(m: (Seq<char>, Seq<char>, Seq<Seq<char>>)) -> Seq<char> {
    "   • "@ + m.0 + " — "@ + m.1 + (if m.2.len() == 0 {
        Seq::empty()
    } else {
        " "@ + join(m.2, " "@)
    }) + "\n"@
}

/// The lines of the tools, in order.
pub open spec fn tool_lines(ms: Seq<(Seq<char>, Seq<char>, Seq<Seq<char>>)>) -> Seq<char>
    decreases ms.len(),
{
    if ms.len() == 0 {
        Seq::empty()
    } else {
        tool_lines(ms.drop_last()) + tool_line(ms.last())
    }
}

/// The tool entry of a declaration: nothing when it names no tool.
pub open spec fn tools_block(decl: ShareDecl, l: DeclLabels) -> Seq<char> {
    let tools = mcp_views(decl.mcp@);
    if tools.len() == 0 {
        Seq::empty()
    } else {
        "◆ "@ + l.mcp_title@ + "\n"@ + tool_lines(tools) + "   "@ + l.mcp_hint@ + "\n\n"@
    }
}

/// The entry of a titled item when it applies.
pub open spec fn section_if(on: bool, title: Seq<char>, hint: Seq<char>) -> Seq<char> {
    if on {
        section(title, hint)
    } else {
        Seq::empty()
    }
}

/// The text of a declaration: model and server always, then the tools when
/// there are any, then the template, grammar and schema entries that apply.
pub open spec fn decl_text(decl: ShareDecl, l: DeclLabels) -> Seq<char> {
    section(l.model@, l.model_hint@) + section(l.server@, l.server_hint@) + tools_block(decl, l)
        + section_if(decl.has_template, l.template@, l.template_hint@) + section_if(
        decl.has_grammar,
        l.grammar@,
        l.grammar_hint@,
    ) + section_if(decl.has_schema, l.schema@, l.schema_hint@)
}

fn push_section(out: &mut String, title: &String, hint: &String)
    ensures
        final(out)@ == old(out)@ + section(title@, hint@),
{
    push_str(out, "◆ ");
    push_str(out, title.as_str());
    push_str(out, "\n   ");
    push_str(out, hint.as_str());
    push_str(out, "\n\n");
    proof {
        assert(out@ =~= old(out)@ + section(title@, hint@));
    }
}

fn push_tool_line(out: &mut String, m: &ShareMcpDecl)
    ensures
        final(out)@ == old(out)@ + tool_line(mcp_view(*m)),
{
    push_str(out, "   • ");
    push_str(out, m.name.as_str());
    push_str(out, " — ");
    push_str(out, m.command.as_str());
    let ghost mid = out@;
    if m.args.len() > 0 {
        let mut parts: Vec<Vec<char>> = Vec::new();
        let mut i: usize = 0;
        while i < m.args.len()
            invariant
                i <= m.args@.len(),
                views(parts@) == names_of(m.args@).take(i as int),
            decreases m.args@.len() - i,
        {
            let ghost before = views(parts@);
            parts.push(chars_of(m.args[i].as_str()));
            proof {
                assert(views(parts@) =~= before.push(m.args@[i as int]@));
                assert(names_of(m.args@).take(i + 1) =~= names_of(m.args@).take(i as int).push(
                    m.args@[i as int]@,
                ));
            }
            i = i + 1;
        }
        proof {
            assert(names_of(m.args@).take(m.args@.len() as int) =~= names_of(m.args@));
        }
        let joined = join_exec(&parts, " ");
        push_str(out, " ");
        push_str(out, joined.as_str());
    }
    push_str(out, "\n");
    proof {
        assert(out@ =~= old(out)@ + tool_line(mcp_view(*m)));
    }
}

fn push_tools(out: &mut String, decl: &ShareDecl, labels: &DeclLabels)
    ensures
        final(out)@ == old(out)@ + tools_block(*decl, *labels),
{
    let ghost tools = mcp_views(decl.mcp@);
    if decl.mcp.len() > 0 {
        push_str(out, "◆ ");
        push_str(out, labels.mcp_title.as_str());
        push_str(out, "\n");
        let ghost start = out@;
        let mut i: usize = 0;
        proof {
            assert(tools.take(0) =~= Seq::<(Seq<char>, Seq<char>, Seq<Seq<char>>)>::empty());
            assert(start + tool_lines(tools.take(0)) =~= start);
        }
        while i < decl.mcp.len()
            invariant
                i <= decl.mcp@.len(),
                tools == mcp_views(decl.mcp@),
                out@ == start + tool_lines(tools.take(i as int)),
            decreases decl.mcp@.len() - i,
        {
            push_tool_line(out, &decl.mcp[i]);
            proof {
                assert(tools.take(i + 1).drop_last() =~= tools.take(i as int));
                assert(tools.take(i + 1).last() == mcp_view(decl.mcp@[i as int]));
                assert(out@ =~= start + tool_lines(tools.take(i + 1)));
            }
            i = i + 1;
        }
        proof {
            assert(tools.take(decl.mcp@.len() as int) =~= tools);
        }
        push_str(out, "   ");
        push_str(out, labels.mcp_hint.as_str());
        push_str(out, "\n\n");
        proof {
            assert(out@ =~= old(out)@ + tools_block(*decl, *labels));
        }
    } else {
        proof {
            assert(old(out)@ + tools_block(*decl, *labels) =~= old(out)@);
        }
    }
}

fn push_section_if(out: &mut String, on: bool, title: &String, hint: &String)
    ensures
        final(out)@ == old(out)@ + section_if(on, title@, hint@),
{
    if on {
        push_section(out, title, hint);
    } else {
        proof {
            assert(old(out)@ + section_if(on, title@, hint@) =~= old(out)@);
        }
    }
}

/// The text that shows a declaration to its reader (see `decl_text`).
pub fn format_decl_text(decl: &ShareDecl, labels: &DeclLabels) -> (res: String)
    ensures
        res@ == decl_text(*decl, *labels),
{
    let mut out = String::new();
    push_section(&mut out, &labels.model, &labels.model_hint);
    push_section(&mut out, &labels.server, &labels.server_hint);
    push_tools(&mut out, decl, labels);
    push_section_if(&mut out, decl.has_template, &labels.template, &labels.template_hint);
    push_section_if(&mut out, decl.has_grammar, &labels.grammar, &labels.grammar_hint);
    push_section_if(&mut out, decl.has_schema, &labels.schema, &labels.schema_hint);
    proof {
        assert(Seq::<char>::empty() + section(labels.model@, labels.model_hint@) =~= section(
            labels.model@,
            labels.model_hint@,
        ));
    }
    out
}

} // verus!
