use vstd::prelude::*;

use crate::ai::{FunctionDefinition, Tool, ToolCall};
use crate::error::{GatewayError, GatewayErrorKind};

verus! {

/// Status of a provider group.
pub enum McpServerStatus {
    Active,
    Inactive,
    Error(String),
}

/// A tool of a provider group; `schema` is JSON schema text, `server` the owning group.
pub struct McpTool {
    pub name: String,
    pub description: String,
    pub schema: String,
    pub server: String,
}

/// A provider group and the tools it contributes.
pub struct McpServer {
    pub name: String,
    pub description: String,
    pub version: String,
    pub tools: Vec<McpTool>,
    pub status: McpServerStatus,
}

/// Registry of provider groups and of the tools they contribute, indexed by name.
/// A tool registered under a name already taken replaces the earlier one in place.
pub struct McpRegistry {
    servers: Vec<McpServer>,
    tools: Vec<McpTool>,
}

/// Position of the first tool named `name`, or the length when there is none.
pub open spec fn tool_pos(ts: Seq<McpTool>, name: Seq<char>) -> int
    decreases ts.len(),
{
    if ts.len() == 0 {
        0
    } else if ts[0].name@ == name {
        0
    } else {
        1 + tool_pos(ts.drop_first(), name)
    }
}

/// Position of the first group named `name`, or the length when there is none.
pub open spec fn server_pos(ss: Seq<McpServer>, name: Seq<char>) -> int
    decreases ss.len(),
{
    if ss.len() == 0 {
        0
    } else if ss[0].name@ == name {
        0
    } else {
        1 + server_pos(ss.drop_first(), name)
    }
}

/// Index after registering `t`: replaces the tool of the same name, else appends.
pub open spec fn insert_tool(ts: Seq<McpTool>, t: McpTool) -> Seq<McpTool> {
    let k = tool_pos(ts, t.name@);
    if k < ts.len() { ts.update(k, t) } else { ts.push(t) }
}

/// Index after removing the tool named `name`, if any.
pub open spec fn remove_tool(ts: Seq<McpTool>, name: Seq<char>) -> Seq<McpTool> {
    let k = tool_pos(ts, name);
    if k < ts.len() { ts.remove(k) } else { ts }
}

/// Index after registering each of `new`, in order.
pub open spec fn insert_tools(ts: Seq<McpTool>, new: Seq<McpTool>) -> Seq<McpTool>
    decreases new.len(),
{
    if new.len() == 0 {
        ts
    } else {
        insert_tools(insert_tool(ts, new[0]), new.drop_first())
    }
}

/// Index after removing the names of each of `gone`, in order.
pub open spec fn remove_tools(ts: Seq<McpTool>, gone: Seq<McpTool>) -> Seq<McpTool>
    decreases gone.len(),
{
    if gone.len() == 0 {
        ts
    } else {
        remove_tools(remove_tool(ts, gone[0].name@), gone.drop_first())
    }
}

/// Groups after registering `s`: replaces the group of the same name, else appends.
pub open spec fn insert_server(ss: Seq<McpServer>, s: McpServer) -> Seq<McpServer> {
    let k = server_pos(ss, s.name@);
    if k < ss.len() { ss.update(k, s) } else { ss.push(s) }
}

/// `d` is the OpenAI-shaped schema of tool `t`.
pub open spec fn describes(d: Tool, t: McpTool) -> bool {
    &&& d.kind@ == "function"@
    &&& d.function.name@ == t.name@
    &&& d.function.description@ == t.description@
    &&& d.function.parameters@ == t.schema@
}

/// Text returned by the mock execution of a call to tool `t`.
pub open spec fn execution_text(t: McpTool, arguments: Seq<char>) -> Seq<char> {
    "Tool '"@ + t.name@ + "' executed with arguments: "@ + arguments
        + ". (Mock result from MCP server '"@ + t.server@ + "')"@
}

/// `k` satisfies what `tool_pos(ts, name)` is.
proof fn lemma_tool_pos(ts: Seq<McpTool>, name: Seq<char>, k: int)
    requires
        0 <= k <= ts.len(),
        forall|j: int| 0 <= j < k ==> #[trigger] ts[j].name@ != name,
        k < ts.len() ==> ts[k].name@ == name,
    ensures
        tool_pos(ts, name) == k,
    decreases ts.len(),
{
    if ts.len() > 0 && k > 0 {
        assert(ts[0].name@ != name);
        let rest = ts.drop_first();
        assert forall|j: int| 0 <= j < k - 1 implies #[trigger] rest[j].name@ != name by {
            assert(rest[j] == ts[j + 1]);
        }
        lemma_tool_pos(rest, name, k - 1);
    }
}

/// `k` satisfies what `server_pos(ss, name)` is.
proof fn lemma_server_pos(ss: Seq<McpServer>, name: Seq<char>, k: int)
    requires
        0 <= k <= ss.len(),
        forall|j: int| 0 <= j < k ==> #[trigger] ss[j].name@ != name,
        k < ss.len() ==> ss[k].name@ == name,
    ensures
        server_pos(ss, name) == k,
    decreases ss.len(),
{
    if ss.len() > 0 && k > 0 {
        assert(ss[0].name@ != name);
        let rest = ss.drop_first();
        assert forall|j: int| 0 <= j < k - 1 implies #[trigger] rest[j].name@ != name by {
            assert(rest[j] == ss[j + 1]);
        }
        lemma_server_pos(rest, name, k - 1);
    }
}

/// No two tools of `ts` share a name.
pub open spec fn unique_tools(ts: Seq<McpTool>) -> bool {
    forall|i: int, j: int| 0 <= i < j < ts.len() ==> #[trigger] ts[i].name@ != #[trigger] ts[j].name@
}

/// No two groups of `ss` share a name.
pub open spec fn unique_servers(ss: Seq<McpServer>) -> bool {
    forall|i: int, j: int| 0 <= i < j < ss.len() ==> #[trigger] ss[i].name@ != #[trigger] ss[j].name@
}

proof fn lemma_tool_pos_miss(ts: Seq<McpTool>, name: Seq<char>)
    requires
        tool_pos(ts, name) == ts.len(),
    ensures
        forall|j: int| 0 <= j < ts.len() ==> #[trigger] ts[j].name@ != name,
    decreases ts.len(),
{
    if ts.len() > 0 {
        let rest = ts.drop_first();
        lemma_tool_pos_miss(rest, name);
        assert forall|j: int| 0 <= j < ts.len() implies #[trigger] ts[j].name@ != name by {
            if j > 0 {
                assert(ts[j] == rest[j - 1]);
            }
        }
    }
}

proof fn lemma_server_pos_facts(ss: Seq<McpServer>, name: Seq<char>)
    ensures
        0 <= server_pos(ss, name) <= ss.len(),
        server_pos(ss, name) < ss.len() ==> ss[server_pos(ss, name)].name@ == name,
        server_pos(ss, name) == ss.len() ==> forall|j: int| 0 <= j < ss.len() ==> #[trigger] ss[j].name@ != name,
    decreases ss.len(),
{
    if ss.len() > 0 && ss[0].name@ != name {
        let rest = ss.drop_first();
        lemma_server_pos_facts(rest, name);
        if server_pos(ss, name) == ss.len() {
            assert forall|j: int| 0 <= j < ss.len() implies #[trigger] ss[j].name@ != name by {
                if j > 0 {
                    assert(ss[j] == rest[j - 1]);
                }
            }
        }
    }
}

proof fn lemma_insert_tool_unique(ts: Seq<McpTool>, t: McpTool)
    requires
        unique_tools(ts),
    ensures
        unique_tools(insert_tool(ts, t)),
{
    lemma_tool_pos_hit(ts, t.name@);
    let k = tool_pos(ts, t.name@);
    if k == ts.len() {
        lemma_tool_pos_miss(ts, t.name@);
    }
    let r = insert_tool(ts, t);
    assert forall|i: int, j: int| 0 <= i < j < r.len() implies #[trigger] r[i].name@ != #[trigger] r[j].name@ by {
        if k < ts.len() {
            if i == k {
                assert(ts[k].name@ != ts[j].name@);
            } else if j == k {
                assert(ts[i].name@ != ts[k].name@);
            }
        } else if j == ts.len() {
            assert(r[j] == t);
            assert(r[i] == ts[i]);
        }
    }
}

proof fn lemma_insert_tools_unique(ts: Seq<McpTool>, new: Seq<McpTool>)
    requires
        unique_tools(ts),
    ensures
        unique_tools(insert_tools(ts, new)),
    decreases new.len(),
{
    if new.len() > 0 {
        lemma_insert_tool_unique(ts, new[0]);
        lemma_insert_tools_unique(insert_tool(ts, new[0]), new.drop_first());
    }
}

proof fn lemma_remove_tools_unique(ts: Seq<McpTool>, gone: Seq<McpTool>)
    requires
        unique_tools(ts),
    ensures
        unique_tools(remove_tools(ts, gone)),
    decreases gone.len(),
{
    if gone.len() > 0 {
        let k = tool_pos(ts, gone[0].name@);
        lemma_tool_pos_hit(ts, gone[0].name@);
        let r = remove_tool(ts, gone[0].name@);
        if k < ts.len() {
            assert forall|i: int, j: int| 0 <= i < j < r.len() implies #[trigger] r[i].name@
                != #[trigger] r[j].name@ by {
                let i0 = if i < k { i } else { i + 1 };
                let j0 = if j < k { j } else { j + 1 };
                assert(r[i] == ts[i0] && r[j] == ts[j0]);
            }
        }
        lemma_remove_tools_unique(r, gone.drop_first());
    }
}

/// No tool of `ts` is named `name`.
pub open spec fn lacks_tool(ts: Seq<McpTool>, name: Seq<char>) -> bool {
    forall|i: int| 0 <= i < ts.len() ==> #[trigger] ts[i].name@ != name
}

proof fn lemma_remove_tool_keeps_lack(ts: Seq<McpTool>, gone: Seq<char>, name: Seq<char>)
    requires
        lacks_tool(ts, name),
    ensures
        lacks_tool(remove_tool(ts, gone), name),
{
    let k = tool_pos(ts, gone);
    lemma_tool_pos_hit(ts, gone);
    let r = remove_tool(ts, gone);
    if k < ts.len() {
        assert forall|i: int| 0 <= i < r.len() implies #[trigger] r[i].name@ != name by {
            let i0 = if i < k { i } else { i + 1 };
            assert(r[i] == ts[i0]);
        }
    }
}

proof fn lemma_remove_tools_keeps_lack(ts: Seq<McpTool>, gone: Seq<McpTool>, name: Seq<char>)
    requires
        lacks_tool(ts, name),
    ensures
        lacks_tool(remove_tools(ts, gone), name),
    decreases gone.len(),
{
    if gone.len() > 0 {
        lemma_remove_tool_keeps_lack(ts, gone[0].name@, name);
        lemma_remove_tools_keeps_lack(remove_tool(ts, gone[0].name@), gone.drop_first(), name);
    }
}

proof fn lemma_remove_tool_gone(ts: Seq<McpTool>, name: Seq<char>)
    requires
        unique_tools(ts),
    ensures
        lacks_tool(remove_tool(ts, name), name),
{
    let k = tool_pos(ts, name);
    lemma_tool_pos_hit(ts, name);
    let r = remove_tool(ts, name);
    if k < ts.len() {
        assert forall|i: int| 0 <= i < r.len() implies #[trigger] r[i].name@ != name by {
            let i0 = if i < k { i } else { i + 1 };
            assert(r[i] == ts[i0]);
            assert(ts[k].name@ == name);
        }
    } else {
        lemma_tool_pos_miss(ts, name);
    }
}

/// After removing the names of `gone` from a registry index with unique names,
/// none of those names is left.
proof fn lemma_remove_tools_gone(ts: Seq<McpTool>, gone: Seq<McpTool>)
    requires
        unique_tools(ts),
    ensures
        forall|j: int| 0 <= j < gone.len() ==> lacks_tool(remove_tools(ts, gone), #[trigger] gone[j].name@),
    decreases gone.len(),
{
    if gone.len() > 0 {
        let r = remove_tool(ts, gone[0].name@);
        let rest = gone.drop_first();
        lemma_remove_tools_unique(ts, seq![gone[0]]);
        assert(seq![gone[0]].drop_first() =~= Seq::<McpTool>::empty());
        assert(remove_tools(ts, seq![gone[0]]) == remove_tools(r, Seq::<McpTool>::empty()));
        lemma_remove_tools_gone(r, rest);
        lemma_remove_tool_gone(ts, gone[0].name@);
        lemma_remove_tools_keeps_lack(r, rest, gone[0].name@);
        assert forall|j: int| 0 <= j < gone.len() implies lacks_tool(remove_tools(ts, gone), #[trigger] gone[j].name@) by {
            if j > 0 {
                assert(gone[j] == rest[j - 1]);
            }
        }
    }
}

proof fn lemma_insert_server_unique(ss: Seq<McpServer>, s: McpServer)
    requires
        unique_servers(ss),
    ensures
        unique_servers(insert_server(ss, s)),
{
    lemma_server_pos_facts(ss, s.name@);
    let k = server_pos(ss, s.name@);
    let r = insert_server(ss, s);
    assert forall|i: int, j: int| 0 <= i < j < r.len() implies #[trigger] r[i].name@ != #[trigger] r[j].name@ by {
        if k < ss.len() {
            if i == k {
                assert(ss[k].name@ != ss[j].name@);
            } else if j == k {
                assert(ss[i].name@ != ss[k].name@);
            }
        } else if j == ss.len() {
            assert(r[j] == s);
            assert(r[i] == ss[i]);
        }
    }
}

proof fn lemma_remove_server_unique(ss: Seq<McpServer>, k: int)
    requires
        unique_servers(ss),
        0 <= k < ss.len(),
    ensures
        unique_servers(ss.remove(k)),
{
    let r = ss.remove(k);
    assert forall|i: int, j: int| 0 <= i < j < r.len() implies #[trigger] r[i].name@ != #[trigger] r[j].name@ by {
        let i0 = if i < k { i } else { i + 1 };
        let j0 = if j < k { j } else { j + 1 };
        assert(r[i] == ss[i0] && r[j] == ss[j0]);
    }
}

/// Some tool of `g` is named `name`.
pub open spec fn listed(g: Seq<McpTool>, name: Seq<char>) -> bool {
    exists|j: int| 0 <= j < g.len() && #[trigger] g[j].name@ == name
}

proof fn lemma_pos_concat(a: Seq<McpTool>, b: Seq<McpTool>, name: Seq<char>)
    requires
        forall|i: int| 0 <= i < a.len() ==> #[trigger] a[i].name@ != name,
    ensures
        tool_pos(a + b, name) == a.len() + tool_pos(b, name),
    decreases a.len(),
{
    if a.len() == 0 {
        assert(a + b =~= b);
    } else {
        let a1 = a.drop_first();
        assert((a + b)[0] == a[0]);
        assert((a + b).drop_first() =~= a1 + b);
        assert forall|i: int| 0 <= i < a1.len() implies #[trigger] a1[i].name@ != name by {
            assert(a1[i] == a[i + 1]);
        }
        lemma_pos_concat(a1, b, name);
    }
}

proof fn lemma_insert_concat(a: Seq<McpTool>, b: Seq<McpTool>, t: McpTool)
    requires
        forall|i: int| 0 <= i < a.len() ==> #[trigger] a[i].name@ != t.name@,
    ensures
        insert_tool(a + b, t) == a + insert_tool(b, t),
{
    lemma_pos_concat(a, b, t.name@);
    lemma_tool_pos_hit(b, t.name@);
    let k = tool_pos(b, t.name@);
    if k < b.len() {
        assert((a + b).update(a.len() + k, t) =~= a + b.update(k, t));
    } else {
        assert((a + b).push(t) =~= a + b.push(t));
    }
}

proof fn lemma_remove_concat(a: Seq<McpTool>, b: Seq<McpTool>, name: Seq<char>)
    requires
        forall|i: int| 0 <= i < a.len() ==> #[trigger] a[i].name@ != name,
    ensures
        remove_tool(a + b, name) == a + remove_tool(b, name),
{
    lemma_pos_concat(a, b, name);
    lemma_tool_pos_hit(b, name);
    let k = tool_pos(b, name);
    if k < b.len() {
        assert((a + b).remove(a.len() + k) =~= a + b.remove(k));
    }
}

proof fn lemma_inserts_concat(a: Seq<McpTool>, b: Seq<McpTool>, g: Seq<McpTool>)
    requires
        forall|j: int| 0 <= j < g.len() ==> lacks_tool(a, #[trigger] g[j].name@),
    ensures
        insert_tools(a + b, g) == a + insert_tools(b, g),
    decreases g.len(),
{
    if g.len() > 0 {
        assert(lacks_tool(a, g[0].name@));
        lemma_insert_concat(a, b, g[0]);
        let rest = g.drop_first();
        assert forall|j: int| 0 <= j < rest.len() implies lacks_tool(a, #[trigger] rest[j].name@) by {
            assert(rest[j] == g[j + 1]);
            assert(lacks_tool(a, g[j + 1].name@));
        }
        lemma_inserts_concat(a, insert_tool(b, g[0]), rest);
    }
}

proof fn lemma_removes_concat(a: Seq<McpTool>, b: Seq<McpTool>, g: Seq<McpTool>)
    requires
        forall|j: int| 0 <= j < g.len() ==> lacks_tool(a, #[trigger] g[j].name@),
    ensures
        remove_tools(a + b, g) == a + remove_tools(b, g),
    decreases g.len(),
{
    if g.len() > 0 {
        assert(lacks_tool(a, g[0].name@));
        lemma_remove_concat(a, b, g[0].name@);
        let rest = g.drop_first();
        assert forall|j: int| 0 <= j < rest.len() implies lacks_tool(a, #[trigger] rest[j].name@) by {
            assert(rest[j] == g[j + 1]);
            assert(lacks_tool(a, g[j + 1].name@));
        }
        lemma_removes_concat(a, remove_tool(b, g[0].name@), rest);
    }
}

proof fn lemma_inserts_listed(e: Seq<McpTool>, g: Seq<McpTool>, all: Seq<McpTool>)
    requires
        forall|i: int| 0 <= i < e.len() ==> listed(all, #[trigger] e[i].name@),
        forall|j: int| 0 <= j < g.len() ==> listed(all, #[trigger] g[j].name@),
    ensures
        forall|i: int| 0 <= i < insert_tools(e, g).len() ==> listed(all, #[trigger] insert_tools(e, g)[i].name@),
    decreases g.len(),
{
    if g.len() > 0 {
        let e1 = insert_tool(e, g[0]);
        lemma_tool_pos_hit(e, g[0].name@);
        assert(listed(all, g[0].name@));
        assert forall|i: int| 0 <= i < e1.len() implies listed(all, #[trigger] e1[i].name@) by {
            if i < e.len() && e1[i] == e[i] {
            } else {
                assert(e1[i] == g[0]);
            }
        }
        let rest = g.drop_first();
        assert forall|j: int| 0 <= j < rest.len() implies listed(all, #[trigger] rest[j].name@) by {
            assert(rest[j] == g[j + 1]);
        }
        assert(insert_tools(e, g) == insert_tools(e1, rest));
        lemma_inserts_listed(e1, rest, all);
    } else {
        assert(insert_tools(e, g) == e);
    }
}

proof fn lemma_removes_all(e: Seq<McpTool>, gone: Seq<McpTool>)
    requires
        unique_tools(e),
        forall|i: int| 0 <= i < e.len() ==> listed(gone, #[trigger] e[i].name@),
    ensures
        remove_tools(e, gone) == Seq::<McpTool>::empty(),
    decreases gone.len(),
{
    if gone.len() == 0 {
        if e.len() > 0 {
            assert(listed(gone, e[0].name@));
        }
        assert(e =~= Seq::<McpTool>::empty());
    } else {
        let n = gone[0].name@;
        let r = remove_tool(e, n);
        let rest = gone.drop_first();
        let k = tool_pos(e, n);
        lemma_tool_pos_hit(e, n);
        lemma_remove_tool_gone(e, n);
        lemma_remove_tools_unique(e, seq![gone[0]]);
        assert(seq![gone[0]].drop_first() =~= Seq::<McpTool>::empty());
        assert(remove_tools(e, seq![gone[0]]) == remove_tools(r, Seq::<McpTool>::empty()));
        assert forall|i: int| 0 <= i < r.len() implies listed(rest, #[trigger] r[i].name@) by {
            let i0 = if k < e.len() && i >= k { i + 1 } else { i };
            assert(r[i] == e[i0]);
            assert(listed(gone, e[i0].name@));
            let j = choose|j: int| 0 <= j < gone.len() && #[trigger] gone[j].name@ == e[i0].name@;
            assert(r[i].name@ != n);
            assert(j != 0);
            assert(rest[j - 1] == gone[j]);
        }
        lemma_removes_all(r, rest);
    }
}

proof fn lemma_server_pos_before(ss: Seq<McpServer>, name: Seq<char>, j: int)
    requires
        0 <= j < server_pos(ss, name),
        j < ss.len(),
    ensures
        ss[j].name@ != name,
    decreases ss.len(),
{
    if j > 0 {
        assert(ss[0].name@ != name);
        assert(ss.drop_first()[j - 1] == ss[j]);
        lemma_server_pos_before(ss.drop_first(), name, j - 1);
    }
}

/// Registering a group none of whose tool names is indexed yet, then
/// unregistering it by name, leaves the tool index as it was before; when no
/// group of that name was registered either, the groups are as before too.
pub proof fn lemma_register_unregister(servers: Seq<McpServer>, tools: Seq<McpTool>, g: McpServer)
    requires
        forall|j: int| 0 <= j < g.tools@.len() ==> lacks_tool(tools, #[trigger] g.tools@[j].name@),
    ensures
        ({
            let s2 = insert_server(servers, g);
            let k = server_pos(s2, g.name@);
            &&& k < s2.len()
            &&& s2[k] == g
            &&& remove_tools(insert_tools(tools, g.tools@), s2[k].tools@) == tools
            &&& (forall|i: int| 0 <= i < servers.len() ==> #[trigger] servers[i].name@ != g.name@)
                ==> s2.remove(k) == servers
        }),
{
    let gt = g.tools@;
    let s2 = insert_server(servers, g);
    lemma_server_pos_facts(servers, g.name@);
    let k0 = server_pos(servers, g.name@);
    if k0 < servers.len() {
        assert forall|j: int| 0 <= j < k0 implies #[trigger] s2[j].name@ != g.name@ by {
            assert(s2[j] == servers[j]);
            lemma_server_pos_before(servers, g.name@, j);
        }
        lemma_server_pos(s2, g.name@, k0);
    } else {
        assert forall|j: int| 0 <= j < servers.len() implies #[trigger] s2[j].name@ != g.name@ by {
            assert(s2[j] == servers[j]);
        }
        lemma_server_pos(s2, g.name@, servers.len() as int);
        assert(s2.remove(servers.len() as int) =~= servers);
    }
    let empty = Seq::<McpTool>::empty();
    assert(tools + empty =~= tools);
    lemma_inserts_concat(tools, empty, gt);
    let e = insert_tools(empty, gt);
    lemma_insert_tools_unique(empty, gt);
    assert forall|j: int| 0 <= j < gt.len() implies listed(gt, #[trigger] gt[j].name@) by {}
    lemma_inserts_listed(empty, gt, gt);
    lemma_removes_concat(tools, e, gt);
    lemma_removes_all(e, gt);
}

/// The texts a tool carries.
pub open spec fn tool_text(t: McpTool) -> (Seq<char>, Seq<char>, Seq<char>, Seq<char>) {
    (t.name@, t.description@, t.schema@, t.server@)
}

/// The texts of each tool of `ts`, in order.
pub open spec fn tool_texts(ts: Seq<McpTool>) -> Seq<(Seq<char>, Seq<char>, Seq<char>, Seq<char>)> {
    ts.map_values(|t: McpTool| tool_text(t))
}

/// A status as a tag (active, inactive, error) and the error's message.
pub open spec fn status_text(s: McpServerStatus) -> (nat, Seq<char>) {
    match s {
        McpServerStatus::Active => (0, Seq::empty()),
        McpServerStatus::Inactive => (1, Seq::empty()),
        McpServerStatus::Error(m) => (2, m@),
    }
}

/// The texts a group carries, its tools' included.
pub open spec fn server_text(s: McpServer) -> (
    Seq<char>,
    Seq<char>,
    Seq<char>,
    (nat, Seq<char>),
    Seq<(Seq<char>, Seq<char>, Seq<char>, Seq<char>)>,
) {
    (s.name@, s.description@, s.version@, status_text(s.status), tool_texts(s.tools@))
}

/// The texts of each group of `ss`, in order.
pub open spec fn server_texts(ss: Seq<McpServer>) -> Seq<(
    Seq<char>,
    Seq<char>,
    Seq<char>,
    (nat, Seq<char>),
    Seq<(Seq<char>, Seq<char>, Seq<char>, Seq<char>)>,
)> {
    ss.map_values(|s: McpServer| server_text(s))
}

/// Group `s` is registered in `ss` and each of its tools is indexed in `ts`,
/// with the same texts.
pub open spec fn registered_as(ss: Seq<McpServer>, ts: Seq<McpTool>, s: McpServer) -> bool {
    &&& 0 <= server_pos(ss, s.name@) < ss.len()
    &&& server_text(ss[server_pos(ss, s.name@)]) == server_text(s)
    &&& forall|j: int| 0 <= j < s.tools@.len() ==> 0 <= tool_pos(ts, #[trigger] s.tools@[j].name@) < ts.len()
        && tool_text(ts[tool_pos(ts, s.tools@[j].name@)]) == tool_text(s.tools@[j])
}

proof fn lemma_tool_pos_texts(a: Seq<McpTool>, b: Seq<McpTool>, name: Seq<char>)
    requires
        tool_texts(a) == tool_texts(b),
    ensures
        tool_pos(a, name) == tool_pos(b, name),
    decreases a.len(),
{
    assert(a.len() == tool_texts(a).len());
    assert(b.len() == tool_texts(b).len());
    if a.len() > 0 {
        assert(tool_texts(a)[0] == tool_text(a[0]));
        assert(tool_texts(b)[0] == tool_text(b[0]));
        assert(tool_texts(a.drop_first()) =~= tool_texts(a).drop_first());
        assert(tool_texts(b.drop_first()) =~= tool_texts(b).drop_first());
        lemma_tool_pos_texts(a.drop_first(), b.drop_first(), name);
    }
}

proof fn lemma_insert_same_text(ts: Seq<McpTool>, t: McpTool)
    requires
        0 <= tool_pos(ts, t.name@) < ts.len(),
        tool_text(ts[tool_pos(ts, t.name@)]) == tool_text(t),
    ensures
        tool_texts(insert_tool(ts, t)) == tool_texts(ts),
{
    lemma_tool_pos_hit(ts, t.name@);
    assert(tool_texts(insert_tool(ts, t)) =~= tool_texts(ts));
}

proof fn lemma_inserts_same_text(ts: Seq<McpTool>, g: Seq<McpTool>)
    requires
        forall|j: int| 0 <= j < g.len() ==> 0 <= tool_pos(ts, #[trigger] g[j].name@) < ts.len()
            && tool_text(ts[tool_pos(ts, g[j].name@)]) == tool_text(g[j]),
    ensures
        tool_texts(insert_tools(ts, g)) == tool_texts(ts),
    decreases g.len(),
{
    if g.len() > 0 {
        assert(tool_pos(ts, g[0].name@) < ts.len());
        lemma_insert_same_text(ts, g[0]);
        let ts1 = insert_tool(ts, g[0]);
        let rest = g.drop_first();
        assert forall|j: int| 0 <= j < rest.len() implies 0 <= tool_pos(ts1, #[trigger] rest[j].name@) < ts1.len()
            && tool_text(ts1[tool_pos(ts1, rest[j].name@)]) == tool_text(rest[j]) by {
            assert(rest[j] == g[j + 1]);
            assert(tool_pos(ts, g[j + 1].name@) < ts.len());
            lemma_tool_pos_texts(ts1, ts, rest[j].name@);
            lemma_tool_pos_hit(ts, rest[j].name@);
            let p = tool_pos(ts, rest[j].name@);
            assert(ts1.len() == tool_texts(ts1).len());
            assert(ts.len() == tool_texts(ts).len());
            assert(tool_texts(ts1)[p] == tool_text(ts1[p]));
            assert(tool_texts(ts)[p] == tool_text(ts[p]));
        }
        lemma_inserts_same_text(ts1, rest);
        assert(insert_tools(ts, g) == insert_tools(ts1, rest));
    } else {
        assert(insert_tools(ts, g) == ts);
    }
}

proof fn lemma_insert_server_same_text(ss: Seq<McpServer>, s: McpServer)
    requires
        0 <= server_pos(ss, s.name@) < ss.len(),
        server_text(ss[server_pos(ss, s.name@)]) == server_text(s),
    ensures
        server_texts(insert_server(ss, s)) == server_texts(ss),
{
    lemma_server_pos_facts(ss, s.name@);
    assert(server_texts(insert_server(ss, s)) =~= server_texts(ss));
}

proof fn lemma_server_pos_texts(a: Seq<McpServer>, b: Seq<McpServer>, name: Seq<char>)
    requires
        server_texts(a) == server_texts(b),
    ensures
        server_pos(a, name) == server_pos(b, name),
    decreases a.len(),
{
    assert(a.len() == server_texts(a).len());
    assert(b.len() == server_texts(b).len());
    if a.len() > 0 {
        assert(server_texts(a)[0] == server_text(a[0]));
        assert(server_texts(b)[0] == server_text(b[0]));
        assert(server_texts(a.drop_first()) =~= server_texts(a).drop_first());
        assert(server_texts(b.drop_first()) =~= server_texts(b).drop_first());
        lemma_server_pos_texts(a.drop_first(), b.drop_first(), name);
    }
}

proof fn lemma_tool_pos_before(ts: Seq<McpTool>, name: Seq<char>, j: int)
    requires
        0 <= j < tool_pos(ts, name),
        j < ts.len(),
    ensures
        ts[j].name@ != name,
    decreases ts.len(),
{
    if j > 0 {
        assert(ts[0].name@ != name);
        assert(ts.drop_first()[j - 1] == ts[j]);
        lemma_tool_pos_before(ts.drop_first(), name, j - 1);
    }
}

proof fn lemma_insert_found(ts: Seq<McpTool>, t: McpTool)
    ensures
        tool_pos(insert_tool(ts, t), t.name@) < insert_tool(ts, t).len(),
        insert_tool(ts, t)[tool_pos(insert_tool(ts, t), t.name@)] == t,
{
    let k = tool_pos(ts, t.name@);
    lemma_tool_pos_hit(ts, t.name@);
    let r = insert_tool(ts, t);
    if k < ts.len() {
        assert forall|j: int| 0 <= j < k implies #[trigger] r[j].name@ != t.name@ by {
            lemma_tool_pos_before(ts, t.name@, j);
        }
        lemma_tool_pos(r, t.name@, k);
    } else {
        lemma_tool_pos_miss(ts, t.name@);
        assert forall|j: int| 0 <= j < ts.len() implies #[trigger] r[j].name@ != t.name@ by {
            assert(r[j] == ts[j]);
        }
        lemma_tool_pos(r, t.name@, ts.len() as int);
    }
}

proof fn lemma_insert_other(ts: Seq<McpTool>, t: McpTool, name: Seq<char>)
    requires
        name != t.name@,
        tool_pos(ts, name) < ts.len(),
    ensures
        insert_tool(ts, t).len() >= ts.len(),
        tool_pos(insert_tool(ts, t), name) == tool_pos(ts, name),
        insert_tool(ts, t)[tool_pos(ts, name)] == ts[tool_pos(ts, name)],
{
    let p = tool_pos(ts, name);
    let k = tool_pos(ts, t.name@);
    lemma_tool_pos_hit(ts, t.name@);
    lemma_tool_pos_hit(ts, name);
    let r = insert_tool(ts, t);
    assert(r[p] == ts[p]);
    assert forall|j: int| 0 <= j < p implies #[trigger] r[j].name@ != name by {
        lemma_tool_pos_before(ts, name, j);
        if k < ts.len() && j == k {
            assert(r[j] == t);
        } else {
            assert(r[j] == ts[j]);
        }
    }
    lemma_tool_pos(r, name, p);
}

proof fn lemma_insert_server_found(ss: Seq<McpServer>, s: McpServer)
    ensures
        server_pos(insert_server(ss, s), s.name@) < insert_server(ss, s).len(),
        insert_server(ss, s)[server_pos(insert_server(ss, s), s.name@)] == s,
{
    let k = server_pos(ss, s.name@);
    lemma_server_pos_facts(ss, s.name@);
    let r = insert_server(ss, s);
    if k < ss.len() {
        assert forall|j: int| 0 <= j < k implies #[trigger] r[j].name@ != s.name@ by {
            lemma_server_pos_before(ss, s.name@, j);
        }
        lemma_server_pos(r, s.name@, k);
    } else {
        assert forall|j: int| 0 <= j < ss.len() implies #[trigger] r[j].name@ != s.name@ by {
            assert(r[j] == ss[j]);
        }
        lemma_server_pos(r, s.name@, ss.len() as int);
    }
}

proof fn lemma_insert_server_other(ss: Seq<McpServer>, s: McpServer, name: Seq<char>)
    requires
        name != s.name@,
        server_pos(ss, name) < ss.len(),
    ensures
        insert_server(ss, s).len() >= ss.len(),
        server_pos(insert_server(ss, s), name) == server_pos(ss, name),
        insert_server(ss, s)[server_pos(ss, name)] == ss[server_pos(ss, name)],
{
    let p = server_pos(ss, name);
    let k = server_pos(ss, s.name@);
    lemma_server_pos_facts(ss, s.name@);
    lemma_server_pos_facts(ss, name);
    let r = insert_server(ss, s);
    assert(r[p] == ss[p]);
    assert forall|j: int| 0 <= j < p implies #[trigger] r[j].name@ != name by {
        lemma_server_pos_before(ss, name, j);
        if k < ss.len() && j == k {
            assert(r[j] == s);
        } else {
            assert(r[j] == ss[j]);
        }
    }
    lemma_server_pos(r, name, p);
}

fn find_tool(ts: &Vec<McpTool>, name: &String) -> (r: usize)
    ensures
        r as int == tool_pos(ts@, name@),
        r <= ts@.len(),
        r < ts@.len() ==> ts@[r as int].name@ == name@,
{
    let mut i: usize = 0;
    while i < ts.len()
        invariant
            i <= ts@.len(),
            forall|j: int| 0 <= j < i ==> #[trigger] ts@[j].name@ != name@,
        decreases ts@.len() - i,
    {
        if ts[i].name == *name {
            proof { lemma_tool_pos(ts@, name@, i as int); }
            return i;
        }
        i = i + 1;
    }
    proof { lemma_tool_pos(ts@, name@, i as int); }
    i
}

fn find_server(ss: &Vec<McpServer>, name: &String) -> (r: usize)
    ensures
        r as int == server_pos(ss@, name@),
        r <= ss@.len(),
        r < ss@.len() ==> ss@[r as int].name@ == name@,
{
    let mut i: usize = 0;
    while i < ss.len()
        invariant
            i <= ss@.len(),
            forall|j: int| 0 <= j < i ==> #[trigger] ss@[j].name@ != name@,
        decreases ss@.len() - i,
    {
        if ss[i].name == *name {
            proof { lemma_server_pos(ss@, name@, i as int); }
            return i;
        }
        i = i + 1;
    }
    proof { lemma_server_pos(ss@, name@, i as int); }
    i
}

impl McpTool {
    /// A field-by-field copy.
    pub fn duplicate(&self) -> (r: McpTool)
        ensures
            r == *self,
    {
        McpTool {
            name: self.name.clone(),
            description: self.description.clone(),
            schema: self.schema.clone(),
            server: self.server.clone(),
        }
    }
}

impl McpRegistry {
    /// The tool index, in registration order.
    pub closed spec fn tools_view(&self) -> Seq<McpTool> {
        self.tools@
    }

    /// The registered groups, in registration order.
    pub closed spec fn servers_view(&self) -> Seq<McpServer> {
        self.servers@
    }

    /// Tool names are unique across the registry, and so are group names.
    pub open spec fn wf(&self) -> bool {
        unique_tools(self.tools_view()) && unique_servers(self.servers_view())
    }

    pub fn new() -> (r: McpRegistry)
        ensures
            r.wf(),
            r.tools_view() == Seq::<McpTool>::empty(),
            r.servers_view() == Seq::<McpServer>::empty(),
    {
        McpRegistry { servers: Vec::new(), tools: Vec::new() }
    }

    fn index_tool(&mut self, tool: McpTool)
        ensures
            final(self).tools@ == insert_tool(old(self).tools@, tool),
            final(self).servers@ == old(self).servers@,
    {
        let k = find_tool(&self.tools, &tool.name);
        if k < self.tools.len() {
            self.tools.set(k, tool);
        } else {
            self.tools.push(tool);
        }
    }

    /// Registers `server`, replacing a group of the same name, and indexes each
    /// of its tools; a tool name already indexed is taken over by the new tool.
    pub fn register_server(&mut self, server: McpServer)
        requires
            old(self).wf(),
        ensures
            final(self).wf(),
            final(self).tools_view() == insert_tools(old(self).tools_view(), server.tools@),
            final(self).servers_view() == insert_server(old(self).servers_view(), server),
    {
        let n = server.tools.len();
        let mut i: usize = 0;
        assert(server.tools@.subrange(0, n as int) =~= server.tools@);
        while i < n
            invariant
                n == server.tools@.len(),
                i <= n,
                self.servers@ == old(self).servers@,
                insert_tools(self.tools@, server.tools@.subrange(i as int, n as int))
                    == insert_tools(old(self).tools@, server.tools@),
            decreases n - i,
        {
            proof {
                let rest = server.tools@.subrange(i as int, n as int);
                assert(rest.drop_first() =~= server.tools@.subrange(i + 1, n as int));
            }
            let t = server.tools[i].duplicate();
            self.index_tool(t);
            i = i + 1;
        }
        assert(server.tools@.subrange(n as int, n as int) =~= Seq::<McpTool>::empty());
        proof {
            lemma_insert_tools_unique(old(self).tools@, server.tools@);
            lemma_insert_server_unique(old(self).servers@, server);
        }
        let k = find_server(&self.servers, &server.name);
        if k < self.servers.len() {
            self.servers.set(k, server);
        } else {
            self.servers.push(server);
        }
    }

    /// All indexed tools in OpenAI shape, in index order.
    pub fn get_available_tools(&self) -> (r: Vec<Tool>)
        ensures
            self.wf() ==> forall|i: int, j: int| 0 <= i < j < r@.len() ==> #[trigger] r@[i].function.name@
                != #[trigger] r@[j].function.name@,
            r@.len() == self.tools_view().len(),
            forall|i: int| 0 <= i < r@.len() ==> describes(#[trigger] r@[i], self.tools_view()[i]),
    {
        let mut out: Vec<Tool> = Vec::new();
        let mut i: usize = 0;
        while i < self.tools.len()
            invariant
                i <= self.tools@.len(),
                out@.len() == i,
                forall|j: int| 0 <= j < i ==> describes(#[trigger] out@[j], self.tools@[j]),
            decreases self.tools@.len() - i,
        {
            let t = &self.tools[i];
            out.push(Tool {
                kind: String::from_str("function"),
                function: FunctionDefinition {
                    name: t.name.clone(),
                    description: t.description.clone(),
                    parameters: t.schema.clone(),
                },
            });
            i = i + 1;
        }
        out
    }

    /// Runs `tool_call` through the group that owns the named tool. Fails with
    /// `ToolNotFound` when no tool of that name is indexed.
    pub fn execute_tool_call(&self, tool_call: &ToolCall) -> (r: Result<String, GatewayError>)
        ensures
            ({
                let k = tool_pos(self.tools_view(), tool_call.function.name@);
                match r {
                    Ok(text) => k < self.tools_view().len() && text@ == execution_text(
                        self.tools_view()[k],
                        tool_call.function.arguments@,
                    ),
                    Err(e) => k == self.tools_view().len() && e.kind == GatewayErrorKind::ToolNotFound
                        && e.detail@ == "Tool '"@ + tool_call.function.name@ + "' not found in MCP registry"@,
                }
            }),
    {
        let name = &tool_call.function.name;
        let k = find_tool(&self.tools, name);
        if k < self.tools.len() {
            let t = &self.tools[k];
            let mut text = String::from_str("Tool '");
            text.append(name.as_str());
            text.append("' executed with arguments: ");
            text.append(tool_call.function.arguments.as_str());
            text.append(". (Mock result from MCP server '");
            text.append(t.server.as_str());
            text.append("')");
            assert(text@ =~= execution_text(self.tools@[k as int], tool_call.function.arguments@));
            Ok(text)
        } else {
            let mut detail = String::from_str("Tool '");
            detail.append(name.as_str());
            detail.append("' not found in MCP registry");
            Err(GatewayError { kind: GatewayErrorKind::ToolNotFound, detail })
        }
    }

    /// The registered groups.
    pub fn get_servers(&self) -> (r: Vec<&McpServer>)
        ensures
            r@.len() == self.servers_view().len(),
            forall|i: int| 0 <= i < r@.len() ==> *#[trigger] r@[i] == self.servers_view()[i],
    {
        let mut out: Vec<&McpServer> = Vec::new();
        let mut i: usize = 0;
        while i < self.servers.len()
            invariant
                i <= self.servers@.len(),
                out@.len() == i,
                forall|j: int| 0 <= j < i ==> *#[trigger] out@[j] == self.servers@[j],
            decreases self.servers@.len() - i,
        {
            out.push(&self.servers[i]);
            i = i + 1;
        }
        out
    }

    /// Removes the group named `server_name` and every tool name it contributed;
    /// does nothing when no such group is registered.
    pub fn unregister_server(&mut self, server_name: &str)
        requires
            old(self).wf(),
        ensures
            final(self).wf(),
            ({
                let k = server_pos(old(self).servers_view(), server_name@);
                &&& forall|i: int| 0 <= i < final(self).servers_view().len()
                    ==> #[trigger] final(self).servers_view()[i].name@ != server_name@
                &&& k < old(self).servers_view().len() ==> forall|j: int| 0 <= j < old(self).servers_view()[k].tools@.len()
                    ==> lacks_tool(final(self).tools_view(), #[trigger] old(self).servers_view()[k].tools@[j].name@)
            }),
            ({
                let k = server_pos(old(self).servers_view(), server_name@);
                if k < old(self).servers_view().len() {
                    &&& final(self).servers_view() == old(self).servers_view().remove(k)
                    &&& final(self).tools_view() == remove_tools(
                        old(self).tools_view(),
                        old(self).servers_view()[k].tools@,
                    )
                } else {
                    &&& final(self).servers_view() == old(self).servers_view()
                    &&& final(self).tools_view() == old(self).tools_view()
                }
            }),
    {
        let name = String::from_str(server_name);
        let k = find_server(&self.servers, &name);
        if k < self.servers.len() {
            let server = self.servers.remove(k);
            let n = server.tools.len();
            let mut i: usize = 0;
            assert(server.tools@.subrange(0, n as int) =~= server.tools@);
            while i < n
                invariant
                    k < old(self).servers@.len(),
                    n == server.tools@.len(),
                    i <= n,
                    server == old(self).servers@[k as int],
                    self.servers@ == old(self).servers@.remove(k as int),
                    remove_tools(self.tools@, server.tools@.subrange(i as int, n as int))
                        == remove_tools(old(self).tools@, server.tools@),
                decreases n - i,
            {
                proof {
                    let rest = server.tools@.subrange(i as int, n as int);
                    assert(rest.drop_first() =~= server.tools@.subrange(i + 1, n as int));
                }
                let j = find_tool(&self.tools, &server.tools[i].name);
                if j < self.tools.len() {
                    self.tools.remove(j);
                }
                i = i + 1;
            }
            assert(server.tools@.subrange(n as int, n as int) =~= Seq::<McpTool>::empty());
            proof {
                lemma_remove_tools_unique(old(self).tools@, server.tools@);
                lemma_remove_server_unique(old(self).servers@, k as int);
                lemma_remove_tools_gone(old(self).tools@, server.tools@);
                let ss = old(self).servers@;
                assert forall|i: int| 0 <= i < self.servers@.len() implies #[trigger] self.servers@[i].name@
                    != server_name@ by {
                    let i0 = if i < k { i } else { i + 1 };
                    assert(self.servers@[i] == ss[i0]);
                    assert(ss[k as int].name@ == name@);
                }
            }
        } else {
            proof {
                lemma_server_pos_facts(self.servers@, name@);
            }
        }
    }
}


/// A tool of a default group.
fn default_tool(name: &str, description: &str, server: &str, schema: &str) -> (r: McpTool)
    ensures
        r.name@ == name@,
        r.description@ == description@,
        r.server@ == server@,
        r.schema@ == schema@,
{
    McpTool {
        name: String::from_str(name),
        description: String::from_str(description),
        schema: String::from_str(schema),
        server: String::from_str(server),
    }
}

/// Whether some tool of `ts` is named `name` and owned by group `server`.
pub open spec fn has_tool(ts: Seq<McpTool>, name: Seq<char>, server: Seq<char>) -> bool {
    exists|i: int| 0 <= i < ts.len() && #[trigger] ts[i].name@ == name && ts[i].server@ == server
}

/// JSON schema of the default `read_file` tool.
pub const READ_FILE_SCHEMA: &'static str = "{\"properties\":{\"path\":{\"description\":\"Path to the file to read\",\"type\":\"string\"}},\"required\":[\"path\"],\"type\":\"object\"}";

/// JSON schema of the default `write_file` tool.
pub const WRITE_FILE_SCHEMA: &'static str = "{\"properties\":{\"content\":{\"description\":\"Content to write to the file\",\"type\":\"string\"},\"path\":{\"description\":\"Path to the file to write\",\"type\":\"string\"}},\"required\":[\"path\",\"content\"],\"type\":\"object\"}";

/// JSON schema of the default `search_web` tool.
pub const SEARCH_WEB_SCHEMA: &'static str = "{\"properties\":{\"max_results\":{\"default\":5,\"description\":\"Maximum number of results to return\",\"type\":\"integer\"},\"query\":{\"description\":\"Search query\",\"type\":\"string\"}},\"required\":[\"query\"],\"type\":\"object\"}";

/// `t` carries exactly these texts.
pub open spec fn tool_is(t: McpTool, name: Seq<char>, description: Seq<char>, server: Seq<char>, schema: Seq<char>) -> bool {
    t.name@ == name && t.description@ == description && t.server@ == server && t.schema@ == schema
}

/// `s` is the default `filesystem` group: active, with `read_file` and `write_file`.
pub open spec fn is_filesystem_group(s: McpServer) -> bool {
    &&& s.name@ == "filesystem"@
    &&& s.description@ == "File system operations"@
    &&& s.version@ == "1.0.0"@
    &&& s.status is Active
    &&& s.tools@.len() == 2
    &&& tool_is(s.tools@[0], "read_file"@, "Read contents of a file"@, "filesystem"@, READ_FILE_SCHEMA@)
    &&& tool_is(s.tools@[1], "write_file"@, "Write content to a file"@, "filesystem"@, WRITE_FILE_SCHEMA@)
}

/// `s` is the default `web_search` group: active, with `search_web`.
pub open spec fn is_web_search_group(s: McpServer) -> bool {
    &&& s.name@ == "web_search"@
    &&& s.description@ == "Web search capabilities"@
    &&& s.version@ == "1.0.0"@
    &&& s.status is Active
    &&& s.tools@.len() == 1
    &&& tool_is(s.tools@[0], "search_web"@, "Search the web for information"@, "web_search"@, SEARCH_WEB_SCHEMA@)
}

/// Both default groups are registered in `ss`, with their tools indexed in `ts`.
pub open spec fn defaults_registered(ss: Seq<McpServer>, ts: Seq<McpTool>) -> bool {
    forall|s: McpServer| (is_filesystem_group(s) || is_web_search_group(s)) ==> #[trigger] registered_as(ss, ts, s)
}

proof fn lemma_registered_transfer(ss: Seq<McpServer>, ts: Seq<McpTool>, a: McpServer, b: McpServer)
    requires
        registered_as(ss, ts, a),
        a.name@ == b.name@,
        server_text(a) == server_text(b),
        a.tools@.len() == b.tools@.len(),
        forall|j: int| 0 <= j < a.tools@.len() ==> tool_text(#[trigger] a.tools@[j]) == tool_text(b.tools@[j]),
    ensures
        registered_as(ss, ts, b),
{
    assert forall|j: int| 0 <= j < b.tools@.len() implies 0 <= tool_pos(ts, #[trigger] b.tools@[j].name@) < ts.len()
        && tool_text(ts[tool_pos(ts, b.tools@[j].name@)]) == tool_text(b.tools@[j]) by {
        assert(tool_text(a.tools@[j]) == tool_text(b.tools@[j]));
        assert(0 <= tool_pos(ts, a.tools@[j].name@) < ts.len());
    }
}

proof fn lemma_same_default(a: McpServer, b: McpServer)
    requires
        (is_filesystem_group(a) && is_filesystem_group(b)) || (is_web_search_group(a) && is_web_search_group(b)),
    ensures
        a.name@ == b.name@,
        server_text(a) == server_text(b),
        a.tools@.len() == b.tools@.len(),
        forall|j: int| 0 <= j < a.tools@.len() ==> tool_text(#[trigger] a.tools@[j]) == tool_text(b.tools@[j]),
{
    assert(tool_texts(a.tools@) =~= tool_texts(b.tools@));
}

/// Registers the two default groups, `filesystem` (tools `read_file` and
/// `write_file`) and then `web_search` (tool `search_web`), all active.
pub fn initialize_default_mcp_servers(registry: &mut McpRegistry)
    requires
        old(registry).wf(),
    ensures
        final(registry).wf(),
        exists|fs: McpServer, web: McpServer|
            #![trigger is_filesystem_group(fs), is_web_search_group(web)]
            is_filesystem_group(fs) && is_web_search_group(web)
                && final(registry).servers_view() == insert_server(insert_server(old(registry).servers_view(), fs), web)
                && final(registry).tools_view() == insert_tools(insert_tools(old(registry).tools_view(), fs.tools@), web.tools@),
        defaults_registered(final(registry).servers_view(), final(registry).tools_view()),
        defaults_registered(old(registry).servers_view(), old(registry).tools_view()) ==> {
            &&& server_texts(final(registry).servers_view()) == server_texts(old(registry).servers_view())
            &&& tool_texts(final(registry).tools_view()) == tool_texts(old(registry).tools_view())
        },
        has_tool(final(registry).tools_view(), "read_file"@, "filesystem"@),
        has_tool(final(registry).tools_view(), "write_file"@, "filesystem"@),
        has_tool(final(registry).tools_view(), "search_web"@, "web_search"@),
{
    let fs_tools = vec![
        default_tool("read_file", "Read contents of a file", "filesystem", READ_FILE_SCHEMA),
        default_tool("write_file", "Write content to a file", "filesystem", WRITE_FILE_SCHEMA),
    ];
    let web_tools = vec![
        default_tool("search_web", "Search the web for information", "web_search", SEARCH_WEB_SCHEMA),
    ];
    let ghost t0 = registry.tools_view();
    let ghost s0 = registry.servers_view();
    let ghost fs = fs_tools@;
    let ghost web = web_tools@;
    let fs_server = McpServer {
        name: String::from_str("filesystem"),
        description: String::from_str("File system operations"),
        version: String::from_str("1.0.0"),
        tools: fs_tools,
        status: McpServerStatus::Active,
    };
    let web_server = McpServer {
        name: String::from_str("web_search"),
        description: String::from_str("Web search capabilities"),
        version: String::from_str("1.0.0"),
        tools: web_tools,
        status: McpServerStatus::Active,
    };
    let ghost fs_g = fs_server;
    let ghost web_g = web_server;
    assert(is_filesystem_group(fs_g));
    assert(is_web_search_group(web_g));
    registry.register_server(fs_server);
    registry.register_server(web_server);
    proof {
        reveal_strlit("read_file");
        reveal_strlit("write_file");
        reveal_strlit("search_web");
        assert("read_file"@[0] != "write_file"@[0]);
        assert("read_file"@[0] != "search_web"@[0]);
        assert("write_file"@[0] != "search_web"@[0]);
        let t1 = insert_tool(t0, fs[0]);
        let t2 = insert_tool(t1, fs[1]);
        let t3 = insert_tool(t2, web[0]);
        assert(fs.drop_first().drop_first() =~= Seq::<McpTool>::empty());
        assert(insert_tools(t0, fs) == insert_tools(t1, fs.drop_first()));
        assert(insert_tools(t1, fs.drop_first()) == insert_tools(t2, fs.drop_first().drop_first()));
        assert(web.drop_first() =~= Seq::<McpTool>::empty());
        assert(insert_tools(t2, web) == insert_tools(t3, web.drop_first()));
        lemma_insert_has(t0, fs[0]);
        lemma_insert_keeps(t1, fs[1], fs[0].name@, fs[0].server@);
        lemma_insert_has(t1, fs[1]);
        lemma_insert_keeps(t2, web[0], fs[0].name@, fs[0].server@);
        lemma_insert_keeps(t2, web[0], fs[1].name@, fs[1].server@);
        lemma_insert_has(t2, web[0]);

        // The defaults are registered afterwards.
        let s1 = insert_server(s0, fs_g);
        let s2 = insert_server(s1, web_g);
        reveal_strlit("filesystem");
        reveal_strlit("web_search");
        assert("filesystem"@[0] != "web_search"@[0]);
        lemma_insert_server_found(s0, fs_g);
        lemma_insert_server_other(s1, web_g, fs_g.name@);
        lemma_insert_server_found(s1, web_g);
        lemma_insert_found(t0, fs[0]);
        lemma_insert_other(t1, fs[1], fs[0].name@);
        lemma_insert_found(t1, fs[1]);
        lemma_insert_other(t2, web[0], fs[0].name@);
        lemma_insert_other(t2, web[0], fs[1].name@);
        lemma_insert_found(t2, web[0]);
        lemma_tool_pos_hit(t3, fs[0].name@);
        lemma_tool_pos_hit(t3, fs[1].name@);
        lemma_tool_pos_hit(t3, web[0].name@);
        lemma_server_pos_facts(s2, fs_g.name@);
        lemma_server_pos_facts(s2, web_g.name@);
        assert(registered_as(s2, t3, fs_g));
        assert(registered_as(s2, t3, web_g));
        assert forall|s: McpServer| (is_filesystem_group(s) || is_web_search_group(s)) implies #[trigger] registered_as(
            s2,
            t3,
            s,
        ) by {
            if is_filesystem_group(s) {
                lemma_same_default(fs_g, s);
                lemma_registered_transfer(s2, t3, fs_g, s);
            } else {
                lemma_same_default(web_g, s);
                lemma_registered_transfer(s2, t3, web_g, s);
            }
        }

        // Registering them again changes no text.
        if defaults_registered(s0, t0) {
            assert(registered_as(s0, t0, fs_g));
            assert(registered_as(s0, t0, web_g));
            lemma_inserts_same_text(t0, fs);
            let u = insert_tools(t0, fs);
            assert forall|j: int| 0 <= j < web.len() implies 0 <= tool_pos(u, #[trigger] web[j].name@) < u.len()
                && tool_text(u[tool_pos(u, web[j].name@)]) == tool_text(web[j]) by {
                lemma_tool_pos_texts(u, t0, web[j].name@);
                let p = tool_pos(t0, web[j].name@);
                assert(u.len() == tool_texts(u).len());
                assert(t0.len() == tool_texts(t0).len());
                assert(tool_texts(u)[p] == tool_text(u[p]));
                assert(tool_texts(t0)[p] == tool_text(t0[p]));
            }
            lemma_inserts_same_text(u, web);
            lemma_insert_server_same_text(s0, fs_g);
            lemma_server_pos_texts(s1, s0, web_g.name@);
            let p = server_pos(s0, web_g.name@);
            assert(s1.len() == server_texts(s1).len());
            assert(s0.len() == server_texts(s0).len());
            assert(server_texts(s1)[p] == server_text(s1[p]));
            assert(server_texts(s0)[p] == server_text(s0[p]));
            lemma_insert_server_same_text(s1, web_g);
        }
    }
}

proof fn lemma_tool_pos_hit(ts: Seq<McpTool>, name: Seq<char>)
    ensures
        0 <= tool_pos(ts, name) <= ts.len(),
        tool_pos(ts, name) < ts.len() ==> ts[tool_pos(ts, name)].name@ == name,
    decreases ts.len(),
{
    if ts.len() > 0 && ts[0].name@ != name {
        lemma_tool_pos_hit(ts.drop_first(), name);
    }
}

proof fn lemma_insert_has(ts: Seq<McpTool>, t: McpTool)
    ensures
        has_tool(insert_tool(ts, t), t.name@, t.server@),
{
    lemma_tool_pos_hit(ts, t.name@);
    let k = tool_pos(ts, t.name@);
    let r = insert_tool(ts, t);
    if k < ts.len() {
        assert(r[k] == t);
    } else {
        assert(r[ts.len() as int] == t);
    }
}

proof fn lemma_insert_keeps(ts: Seq<McpTool>, t: McpTool, name: Seq<char>, server: Seq<char>)
    requires
        has_tool(ts, name, server),
        name != t.name@,
    ensures
        has_tool(insert_tool(ts, t), name, server),
{
    lemma_tool_pos_hit(ts, t.name@);
    let i = choose|i: int| 0 <= i < ts.len() && #[trigger] ts[i].name@ == name && ts[i].server@ == server;
    let r = insert_tool(ts, t);
    assert(r[i] == ts[i]);
}

} // verus!
