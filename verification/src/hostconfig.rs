//! The configuration by which a host starts this endpoint.
use serde_json::Value;
use vstd::prelude::*;

use crate::pathlock::{before, comes_before};
use crate::settings::{set_to, setting, shown};
use crate::text::{chars_of, is_white, join, joined, mentions, own, quoted, quoted_text, same, views, white};

verus! {

/// The name under which a host knows the endpoint.
pub const SERVER_NAME: &'static str = "chaperone";

/// What stands for an address that is not set.
pub const COORD_URL_PLACEHOLDER: &'static str = "http://coord-host:8787";

/// What stands for a root that is not set.
pub const ROOT_PLACEHOLDER: &'static str = "\\\\FILESRV\\AICollab";

/// What a host has to be told.
pub struct Settings {
    /// The program.
    pub command: String,
    /// The coordinator's address.
    pub coord_url: String,
    /// The coordinated root.
    pub root: String,
    /// Other variables.
    pub extra: Vec<(String, String)>,
    /// The variables that are not set, for which something stands in.
    pub placeholders: Vec<String>,
    /// The command of the client that registers servers from its command line,
    /// where there is one.
    pub client: Option<String>,
}

/// A configuration, and what to say along with it.
#[derive(Debug)]
pub struct Rendered {
    /// The configuration.
    pub config: String,
    /// Remarks for whoever reads it.
    pub notes: Vec<String>,
}

/// The texts of some pairs.
pub open spec fn pair_texts(pairs: Seq<(String, String)>) -> Seq<(Seq<char>, Seq<char>)> {
    pairs.map_values(|p: (String, String)| (p.0@, p.1@))
}

/// Pairs in the order of their names, with one put in: in place of one of the
/// same name, or where it belongs.
pub open spec fn put(pairs: Seq<(Seq<char>, Seq<char>)>, name: Seq<char>, value: Seq<char>) -> Seq<(Seq<char>, Seq<char>)>
    decreases pairs.len(),
{
    if pairs.len() == 0 || before(name, pairs[0].0) {
        seq![(name, value)] + pairs
    } else if pairs[0].0 == name {
        seq![(name, value)] + pairs.drop_first()
    } else {
        seq![pairs[0]] + put(pairs.drop_first(), name, value)
    }
}

/// Pairs with others put in one after another, so that the last of a name
/// stands.
pub open spec fn put_all(pairs: Seq<(Seq<char>, Seq<char>)>, more: Seq<(Seq<char>, Seq<char>)>) -> Seq<(Seq<char>, Seq<char>)>
    decreases more.len(),
{
    if more.len() == 0 {
        pairs
    } else {
        put(put_all(pairs, more.drop_last()), more.last().0, more.last().1)
    }
}

/// What a name stands for among some pairs.
pub open spec fn value_of(pairs: Seq<(Seq<char>, Seq<char>)>, name: Seq<char>) -> Option<Seq<char>>
    decreases pairs.len(),
{
    if pairs.len() == 0 {
        None
    } else if pairs[0].0 == name {
        Some(pairs[0].1)
    } else {
        value_of(pairs.drop_first(), name)
    }
}

/// A pair that is put in is found, and no other is changed by it.
pub proof fn put_is_found(pairs: Seq<(Seq<char>, Seq<char>)>, name: Seq<char>, value: Seq<char>, other: Seq<char>)
    ensures
        value_of(put(pairs, name, value), other) == if other == name {
            Some(value)
        } else {
            value_of(pairs, other)
        },
    decreases pairs.len(),
{
    let p = put(pairs, name, value);
    if pairs.len() == 0 || before(name, pairs[0].0) {
        assert(p.drop_first() =~= pairs);
    } else if pairs[0].0 == name {
        assert(p.drop_first() =~= pairs.drop_first());
    } else {
        assert(p.drop_first() =~= put(pairs.drop_first(), name, value));
        put_is_found(pairs.drop_first(), name, value, other);
    }
}

/// Whether pairs stand in the order of their names, each name once.
pub open spec fn in_name_order(pairs: Seq<(Seq<char>, Seq<char>)>) -> bool {
    forall|i: int, j: int| 0 <= i < j < pairs.len() ==> before((#[trigger] pairs[i]).0, (#[trigger] pairs[j]).0)
}

/// Putting a pair in keeps the order of the names, and each name once.
pub proof fn put_keeps_order(pairs: Seq<(Seq<char>, Seq<char>)>, name: Seq<char>, value: Seq<char>)
    requires
        in_name_order(pairs),
    ensures
        in_name_order(put(pairs, name, value)),
        put(pairs, name, value).len() > 0,
        put(pairs, name, value)[0].0 == name || (pairs.len() > 0 && put(pairs, name, value)[0] == pairs[0] && before(pairs[0].0, name)),
    decreases pairs.len(),
{
    let p = put(pairs, name, value);
    if pairs.len() == 0 || before(name, pairs[0].0) {
        assert forall|i: int, j: int| 0 <= i < j < p.len() implies before((#[trigger] p[i]).0, (#[trigger] p[j]).0) by {
            assert(p[j] == pairs[j - 1]);
            if i == 0 {
                if j > 1 {
                    crate::pathlock::before_transitive(name, pairs[0].0, pairs[j - 1].0);
                }
            } else {
                assert(p[i] == pairs[i - 1]);
            }
        }
    } else if pairs[0].0 == name {
        assert forall|i: int, j: int| 0 <= i < j < p.len() implies before((#[trigger] p[i]).0, (#[trigger] p[j]).0) by {
            assert(p[j] == pairs[j]);
            assert(p[i].0 == pairs[i].0);
            assert(before(pairs[i].0, pairs[j].0));
        }
    } else {
        let rest = pairs.drop_first();
        assert(in_name_order(rest)) by {
            assert forall|i: int, j: int| 0 <= i < j < rest.len() implies before((#[trigger] rest[i]).0, (#[trigger] rest[j]).0) by {
                assert(rest[i] == pairs[i + 1] && rest[j] == pairs[j + 1]);
            }
        }
        put_keeps_order(rest, name, value);
        crate::pathlock::before_total(name, pairs[0].0);
        let q = put(rest, name, value);
        assert forall|i: int, j: int| 0 <= i < j < p.len() implies before((#[trigger] p[i]).0, (#[trigger] p[j]).0) by {
            assert(p[j] == q[j - 1]);
            if i > 0 {
                assert(p[i] == q[i - 1]);
            } else {
                assert(before(pairs[0].0, q[0].0)) by {
                    if q[0].0 != name {
                        assert(rest[0] == pairs[1]);
                        assert(before(pairs[0].0, pairs[1].0));
                    }
                }
                if j > 1 {
                    assert(before(q[0].0, q[j - 1].0));
                    crate::pathlock::before_transitive(pairs[0].0, q[0].0, q[j - 1].0);
                }
            }
        }
    }
}

/// Putting pairs in one after another keeps the order of the names, and each
/// name once.
pub proof fn put_all_keeps_order(pairs: Seq<(Seq<char>, Seq<char>)>, more: Seq<(Seq<char>, Seq<char>)>)
    requires
        in_name_order(pairs),
    ensures
        in_name_order(put_all(pairs, more)),
    decreases more.len(),
{
    if more.len() > 0 {
        put_all_keeps_order(pairs, more.drop_last());
        put_keeps_order(put_all(pairs, more.drop_last()), more.last().0, more.last().1);
    }
}

/// The variables that a host sets stand in the order of their names, each once.
pub proof fn env_is_in_order(s: Settings)
    ensures
        in_name_order(s.env_pairs()),
{
    put_keeps_order(Seq::empty(), "CHAPR_COORD_URL"@, s.coord_url@);
    put_keeps_order(put(Seq::empty(), "CHAPR_COORD_URL"@, s.coord_url@), "CHAPR_ROOT"@, s.root@);
    put_all_keeps_order(
        put(put(Seq::empty(), "CHAPR_COORD_URL"@, s.coord_url@), "CHAPR_ROOT"@, s.root@),
        pair_texts(s.extra@),
    );
}

proof fn put_behind(pairs: Seq<(Seq<char>, Seq<char>)>, name: Seq<char>, value: Seq<char>, i: int)
    requires
        0 <= i <= pairs.len(),
        forall|k: int| 0 <= k < i ==> !before(name, (#[trigger] pairs[k]).0) && pairs[k].0 != name,
    ensures
        put(pairs, name, value) == pairs.take(i) + put(pairs.skip(i), name, value),
    decreases i,
{
    if i == 0 {
        assert(pairs.skip(0) =~= pairs);
        assert(pairs.take(0) + put(pairs.skip(0), name, value) =~= put(pairs, name, value));
    } else {
        let rest = pairs.drop_first();
        assert forall|k: int| 0 <= k < i - 1 implies !before(name, (#[trigger] rest[k]).0) && rest[k].0 != name by {
            assert(rest[k] == pairs[k + 1]);
        }
        assert(!before(name, pairs[0].0) && pairs[0].0 != name);
        put_behind(rest, name, value, i - 1);
        assert(rest.skip(i - 1) =~= pairs.skip(i));
        assert(seq![pairs[0]] + rest.take(i - 1) =~= pairs.take(i));
        assert(put(pairs, name, value) =~= pairs.take(i) + put(pairs.skip(i), name, value));
    }
}

fn put_in(pairs: &mut Vec<(String, String)>, name: &str, value: &str)
    ensures
        pair_texts(final(pairs)@) == put(pair_texts(old(pairs)@), name@, value@),
{
    let ghost start = pair_texts(pairs@);
    let text = chars_of(name);
    let mut i: usize = 0;
    while i < pairs.len() && !comes_before(&text, &chars_of(pairs[i].0.as_str())) && !same(pairs[i].0.as_str(), name)
        invariant
            text@ == name@,
            pair_texts(pairs@) == start,
            i <= pairs@.len(),
            forall|k: int| 0 <= k < i ==> !before(name@, (#[trigger] start[k]).0) && start[k].0 != name@,
        decreases pairs@.len() - i,
    {
        assert(start[i as int] == (pairs@[i as int].0@, pairs@[i as int].1@));
        i = i + 1;
    }
    proof {
        put_behind(start, name@, value@, i as int);
        if i < pairs@.len() {
            assert(start[i as int] == (pairs@[i as int].0@, pairs@[i as int].1@));
            assert(start.skip(i as int)[0] == start[i as int]);
        }
    }
    let ghost before_it = pairs@;
    if i < pairs.len() && same(pairs[i].0.as_str(), name) {
        pairs.set(i, (own(name), own(value)));
        proof {
            crate::pathlock::before_irreflexive(name@);
            assert(pair_texts(pairs@) =~= start.take(i as int) + (seq![(name@, value@)] + start.skip(i as int).drop_first()));
        }
    } else {
        pairs.insert(i, (own(name), own(value)));
        proof {
            assert(pairs@ =~= before_it.insert(i as int, pairs@[i as int]));
            assert(pair_texts(pairs@) =~= start.take(i as int) + (seq![(name@, value@)] + start.skip(i as int)));
        }
    }
}

impl Settings {
    /// The variables that a host sets for the endpoint, in the order of their
    /// names.
    pub open spec fn env_pairs(&self) -> Seq<(Seq<char>, Seq<char>)> {
        put_all(
            put(put(Seq::empty(), "CHAPR_COORD_URL"@, self.coord_url@), "CHAPR_ROOT"@, self.root@),
            pair_texts(self.extra@),
        )
    }

    /// The variables that a host sets for the endpoint.
    pub fn env(&self) -> (r: Vec<(String, String)>)
        ensures
            pair_texts(r@) == self.env_pairs(),
    {
        let mut r: Vec<(String, String)> = Vec::new();
        assert(pair_texts(r@) =~= Seq::empty());
        put_in(&mut r, "CHAPR_COORD_URL", self.coord_url.as_str());
        put_in(&mut r, "CHAPR_ROOT", self.root.as_str());
        let ghost base = pair_texts(r@);
        let mut i: usize = 0;
        assert(pair_texts(self.extra@.take(0)) =~= Seq::empty());
        while i < self.extra.len()
            invariant
                i <= self.extra@.len(),
                pair_texts(r@) == put_all(base, pair_texts(self.extra@.take(i as int))),
            decreases self.extra@.len() - i,
        {
            proof {
                let more = pair_texts(self.extra@.take(i + 1));
                assert(more.drop_last() =~= pair_texts(self.extra@.take(i as int)));
                assert(more.last() == (self.extra@[i as int].0@, self.extra@[i as int].1@));
            }
            put_in(&mut r, self.extra[i].0.as_str(), self.extra[i].1.as_str());
            i = i + 1;
        }
        assert(self.extra@.take(self.extra@.len() as int) =~= self.extra@);
        r
    }
}

/// A text with its double quotes escaped.
pub open spec fn escaped(s: Seq<char>) -> Seq<char>
    decreases s.len(),
{
    if s.len() == 0 {
        s
    } else if s.last() == '"' {
        escaped(s.drop_last()) + seq!['\\', '"']
    } else {
        escaped(s.drop_last()).push(s.last())
    }
}

/// Whether a shell takes a text as one word as it stands.
pub open spec fn is_word(s: Seq<char>) -> bool {
    s.len() > 0 && forall|i: int| 0 <= i < s.len() ==> !is_white(#[trigger] s[i]) && s[i] != '"' && s[i] != '\''
}

/// A text as a shell takes it for one word.
pub open spec fn word(s: Seq<char>) -> Seq<char> {
    if is_word(s) {
        s
    } else {
        seq!['"'] + escaped(s) + seq!['"']
    }
}

/// The text as a shell takes it for one word.
pub fn shell_quote(s: &str) -> (r: String)
    ensures
        r@ == word(s@),
{
    let v = chars_of(s);
    let mut plain = v.len() > 0;
    let mut q = String::new();
    q.push('"');
    let mut i: usize = 0;
    assert(v@.take(0) =~= Seq::<char>::empty());
    while i < v.len()
        invariant
            v@ == s@,
            i <= v@.len(),
            plain == (v@.len() > 0 && forall|k: int| 0 <= k < i ==> !is_white(#[trigger] v@[k]) && v@[k] != '"' && v@[k] != '\''),
            q@ == seq!['"'] + escaped(v@.take(i as int)),
        decreases v@.len() - i,
    {
        let c = v[i];
        assert(v@.take(i + 1).drop_last() =~= v@.take(i as int));
        let ghost was = escaped(v@.take(i as int));
        if white(c) || c == '"' || c == '\'' {
            plain = false;
        }
        if c == '"' {
            q.push('\\');
            q.push('"');
            assert(q@ =~= seq!['"'] + (was + seq!['\\', '"']));
        } else {
            q.push(c);
            assert(q@ =~= seq!['"'] + was.push(c));
        }
        i = i + 1;
    }
    assert(v@.take(v@.len() as int) =~= v@);
    if plain {
        own(s)
    } else {
        q.push('"');
        assert(q@ =~= seq!['"'] + escaped(s@) + seq!['"']);
        q
    }
}

/// What stands under a name in the entry of a server.
pub enum Field {
    /// A text.
    Text(String),
    /// Texts by their names.
    Table(Vec<(String, String)>),
}

/// What stands under a name in the entry of a server.
pub enum FieldView {
    /// A text.
    Text(Seq<char>),
    /// Texts by their names.
    Table(Seq<(Seq<char>, Seq<char>)>),
}

impl View for Field {
    type V = FieldView;

    open spec fn view(&self) -> FieldView {
        match self {
            Field::Text(t) => FieldView::Text(t@),
            Field::Table(pairs) => FieldView::Table(pair_texts(pairs@)),
        }
    }
}

/// The entry of one server: its fields by their names.
pub type Entry = Vec<(String, Field)>;

/// The fields of an entry.
pub open spec fn entry_view(entry: Seq<(String, Field)>) -> Seq<(Seq<char>, FieldView)> {
    entry.map_values(|f: (String, Field)| (f.0@, f.1@))
}

/// The entries of some servers by their names.
pub open spec fn servers_view(servers: Seq<(String, Entry)>) -> Seq<(Seq<char>, Seq<(Seq<char>, FieldView)>)> {
    servers.map_values(|e: (String, Entry)| (e.0@, entry_view(e.1@)))
}

/// What `serde_json::to_string_pretty` prints for an object that holds, under the
/// name `outer`, an object of servers by their names.
pub uninterp spec fn pretty_text(outer: Seq<char>, servers: Seq<(Seq<char>, Seq<(Seq<char>, FieldView)>)>) -> Seq<char>;

/// `serde_json::to_string_pretty` of an object of servers under the name `outer`:
/// an entry is an object of its fields, a text a string, and texts by their names
/// an object of strings. What it prints depends on the names and texts alone;
/// printing an object of texts does not fail.
#[verifier::external_body]
fn pretty_json(outer: &str, servers: &Vec<(String, Entry)>) -> (r: String)
    ensures
        r@ == pretty_text(outer@, servers_view(servers@)),
{
    let field = |f: &Field| match f {
        Field::Text(t) => Value::from(t.as_str()),
        Field::Table(pairs) => Value::from_iter(pairs.iter().map(|(k, v)| (k.as_str(), v.as_str()))),
    };
    let entry = |e: &Entry| Value::from_iter(e.iter().map(|(k, f)| (k.as_str(), field(f))));
    let object = Value::from_iter(servers.iter().map(|(k, e)| (k.as_str(), entry(e))));
    let doc = Value::from_iter([(outer, object)]);
    serde_json::to_string_pretty(&doc).unwrap_or_default()
}

/// The servers of a configuration: this one, by its command and the variables that
/// it is started with. There is no word on the transport: an entry without one is
/// taken for what this is.
pub open spec fn generic_servers(s: Settings) -> Seq<(Seq<char>, Seq<(Seq<char>, FieldView)>)> {
    seq![
        (
            SERVER_NAME@,
            seq![("command"@, FieldView::Text(s.command@)), ("env"@, FieldView::Table(s.env_pairs()))],
        ),
    ]
}

/// The `mcpServers` block that most hosts take.
pub open spec fn generic_config(s: Settings) -> Seq<char> {
    pretty_text("mcpServers"@, generic_servers(s)).push('\n')
}

/// The servers of a configuration.
pub fn servers_for(s: &Settings) -> (r: Vec<(String, Entry)>)
    ensures
        servers_view(r@) == generic_servers(*s),
{
    let mut entry: Entry = Vec::new();
    entry.push((own("command"), Field::Text(s.command.clone())));
    entry.push((own("env"), Field::Table(s.env())));
    assert(entry_view(entry@) =~= seq![
        ("command"@, FieldView::Text(s.command@)),
        ("env"@, FieldView::Table(s.env_pairs())),
    ]);
    let mut servers: Vec<(String, Entry)> = Vec::new();
    servers.push((own(SERVER_NAME), entry));
    assert(servers_view(servers@) =~= generic_servers(*s));
    servers
}

fn render_generic(s: &Settings) -> (r: String)
    ensures
        r@ == generic_config(*s),
{
    let mut out = pretty_json("mcpServers", &servers_for(s));
    out.push('\n');
    out
}

/// The words that set some variables.
pub open spec fn env_words(pairs: Seq<(Seq<char>, Seq<char>)>) -> Seq<Seq<char>>
    decreases pairs.len(),
{
    if pairs.len() == 0 {
        Seq::empty()
    } else {
        env_words(pairs.drop_last()) + seq!["--env"@, word(pairs.last().0 + "="@ + pairs.last().1)]
    }
}

/// The host whose command line registers a server: the client, under the name it
/// has as a host.
pub open spec fn client_host(client: Seq<char>) -> Seq<char> {
    client + "-code"@
}

/// Whether a host is the one that the client of these settings is.
pub open spec fn is_client(host: Seq<char>, s: Settings) -> bool {
    s.client matches Some(client) && host == client_host(client@)
}

/// The hosts that a configuration can be printed for: any that reads an
/// `mcpServers` block, and the client, where there is one.
pub open spec fn host_names(s: Settings) -> Seq<Seq<char>> {
    match s.client {
        Some(client) => seq!["generic"@, client_host(client@)],
        None => seq!["generic"@],
    }
}

fn client_name(client: &String) -> (r: String)
    ensures
        r@ == client_host(client@),
{
    let mut r = client.clone();
    r.append("-code");
    r
}

/// The client of these settings, where it is the host that is asked for.
fn client_for<'a>(host: &str, s: &'a Settings) -> (r: Option<&'a String>)
    ensures
        r is Some <==> is_client(host@, *s),
        r matches Some(c) ==> s.client == Some(*c),
{
    match &s.client {
        Some(client) => if same(host, client_name(client).as_str()) {
            Some(client)
        } else {
            None
        },
        None => None,
    }
}

/// The hosts that a configuration can be printed for.
pub fn hosts(s: &Settings) -> (r: Vec<String>)
    ensures
        views(r@) == host_names(*s),
{
    let mut r: Vec<String> = Vec::new();
    r.push(own("generic"));
    if let Some(client) = &s.client {
        r.push(client_name(client));
    }
    assert(views(r@) =~= host_names(*s));
    r
}

/// The command line that registers the endpoint with a client: its own options,
/// the name, and behind `--` the command.
pub open spec fn client_words(client: Seq<char>, s: Settings) -> Seq<Seq<char>> {
    seq![word(client), "mcp"@, "add"@, "--transport"@, "stdio"@] + env_words(s.env_pairs()) + seq![
        SERVER_NAME@,
        "--"@,
        word(s.command@),
    ]
}

fn render_client(client: &str, s: &Settings) -> (r: String)
    ensures
        r@ == joined(client_words(client@, *s), " "@).push('\n'),
{
    let mut parts: Vec<String> = Vec::new();
    parts.push(shell_quote(client));
    parts.push(own("mcp"));
    parts.push(own("add"));
    parts.push(own("--transport"));
    parts.push(own("stdio"));
    let ghost head = seq![word(client@), "mcp"@, "add"@, "--transport"@, "stdio"@];
    let env = s.env();
    let mut i: usize = 0;
    assert(pair_texts(env@.take(0)) =~= Seq::empty());
    assert(views(parts@) =~= head + env_words(Seq::empty()));
    while i < env.len()
        invariant
            i <= env@.len(),
            pair_texts(env@) == s.env_pairs(),
            views(parts@) == head + env_words(pair_texts(env@.take(i as int))),
        decreases env@.len() - i,
    {
        let ghost was = views(parts@);
        proof {
            let more = pair_texts(env@.take(i + 1));
            assert(more.drop_last() =~= pair_texts(env@.take(i as int)));
            assert(more.last() == (env@[i as int].0@, env@[i as int].1@));
        }
        let mut pair = env[i].0.clone();
        pair.append("=");
        pair.append(env[i].1.as_str());
        parts.push(own("--env"));
        parts.push(shell_quote(pair.as_str()));
        assert(views(parts@) =~= was + seq!["--env"@, word(env@[i as int].0@ + "="@ + env@[i as int].1@)]);
        i = i + 1;
        assert(views(parts@) =~= head + env_words(pair_texts(env@.take(i as int))));
    }
    assert(env@.take(env@.len() as int) =~= env@);
    parts.push(own(SERVER_NAME));
    parts.push(own("--"));
    parts.push(shell_quote(s.command.as_str()));
    assert(views(parts@) =~= client_words(client@, *s));
    let mut line = join(parts.as_slice(), " ");
    line.push('\n');
    line
}

pub const PLACEHOLDER_NOTE: &'static str = " not set in this environment — the output contains a placeholder. Replace it before use.";

pub const ROOT_NOTE: &'static str = "CHAPR_ROOT is the coordinated location. It confines the endpoint and is announced to the model; leaving it unset starts an unconfined endpoint.";

pub const GENERIC_NOTE: &'static str = "Merge this into your host's MCP config: a desktop client's configuration file, .mcp.json at a project root for a command-line client, or the equivalent for any other MCP client.";

pub const CLIENT_NOTE: &'static str = "Add --scope project to share it with a repository, or see `print-config generic` for the .mcp.json form.";

/// Whether a text is among some.
pub open spec fn lists(texts: Seq<String>, t: Seq<char>) -> bool {
    exists|i: int| 0 <= i < texts.len() && (#[trigger] texts[i])@ == t
}

/// The remarks that go with a configuration.
pub open spec fn notes_text(host: Seq<char>, s: Settings) -> Seq<Seq<char>> {
    (if s.placeholders@.len() > 0 {
        seq![joined(views(s.placeholders@), " and "@) + PLACEHOLDER_NOTE@]
    } else {
        Seq::empty()
    }) + (if lists(s.placeholders@, "CHAPR_ROOT"@) {
        seq![ROOT_NOTE@]
    } else {
        Seq::empty()
    }) + (if host == "generic"@ {
        seq![GENERIC_NOTE@]
    } else if is_client(host, s) {
        seq![CLIENT_NOTE@]
    } else {
        Seq::empty()
    })
}

/// The remarks that go with a configuration.
pub fn notes_for(host: &str, s: &Settings) -> (r: Vec<String>)
    ensures
        views(r@) == notes_text(host@, *s),
{
    let mut notes: Vec<String> = Vec::new();
    if s.placeholders.len() > 0 {
        let mut n = join(s.placeholders.as_slice(), " and ");
        n.append(PLACEHOLDER_NOTE);
        notes.push(n);
    }
    let mut root = false;
    let mut i: usize = 0;
    while i < s.placeholders.len()
        invariant
            i <= s.placeholders@.len(),
            root == exists|k: int| 0 <= k < i && (#[trigger] s.placeholders@[k])@ == "CHAPR_ROOT"@,
        decreases s.placeholders@.len() - i,
    {
        if same(s.placeholders[i].as_str(), "CHAPR_ROOT") {
            root = true;
        }
        i = i + 1;
    }
    if root {
        notes.push(own(ROOT_NOTE));
    }
    if same(host, "generic") {
        notes.push(own(GENERIC_NOTE));
    } else if client_for(host, s).is_some() {
        notes.push(own(CLIENT_NOTE));
    }
    assert(views(notes@) =~= notes_text(host@, *s));
    notes
}

/// The refusal of a host that is not known, with the ones that are.
pub open spec fn unknown_host(host: Seq<char>, s: Settings) -> Seq<char> {
    "unknown host "@ + quoted_text(host) + ". Valid hosts: "@ + joined(host_names(s), ", "@)
}

/// The configuration for a host, or none where the host is not one of those that
/// there are.
pub open spec fn config_for(host: Seq<char>, s: Settings) -> Option<Seq<char>> {
    if host == "generic"@ {
        Some(generic_config(s))
    } else {
        match s.client {
            Some(client) if host == client_host(client@) => Some(
                joined(client_words(client@, s), " "@).push('\n'),
            ),
            _ => None,
        }
    }
}

/// The configuration for a host. One that is not known is refused, and told which
/// are.
pub fn render(host: &str, s: &Settings) -> (r: Result<Rendered, String>)
    ensures
        match config_for(host@, *s) {
            Some(config) => r matches Ok(c) && c.config@ == config && views(c.notes@) == notes_text(host@, *s),
            None => r matches Err(e) && e@ == unknown_host(host@, *s),
        },
{
    let config = if same(host, "generic") {
        render_generic(s)
    } else {
        match client_for(host, s) {
            Some(client) => render_client(client.as_str(), s),
            None => {
                let mut e = own("unknown host ");
                e.append(quoted(host).as_str());
                e.append(". Valid hosts: ");
                e.append(join(hosts(s).as_slice(), ", ").as_str());
                return Err(e);
            },
        }
    };
    Ok(Rendered { config, notes: notes_for(host, s) })
}

/// A configuration is there for exactly the hosts that are listed.
pub proof fn listed_hosts_render(host: Seq<char>, s: Settings)
    ensures
        config_for(host, s) is Some <==> host_names(s).contains(host),
{
    assert(host_names(s)[0] == "generic"@);
    if let Some(client) = s.client {
        assert(host_names(s)[1] == client_host(client@));
    }
}

/// Whether `s` is what the environment says, with placeholders for what it does
/// not say.
pub open spec fn settings_of(exe: Option<String>, windows: bool, vars: Seq<(String, String)>, s: Settings) -> bool {
    let url = set_to(vars, "CHAPR_COORD_URL"@);
    let root = set_to(vars, "CHAPR_ROOT"@);
    &&& s.command@ == match exe {
        Some(path) => path@,
        None => if windows {
            "chapr-endpoint.exe"@
        } else {
            "chapr-endpoint"@
        },
    }
    &&& s.coord_url@ == match url {
        Some(u) => u,
        None => COORD_URL_PLACEHOLDER@,
    }
    &&& s.root@ == match root {
        Some(p) => p,
        None => ROOT_PLACEHOLDER@,
    }
    &&& views(s.placeholders@) == (if url is None {
        seq!["CHAPR_COORD_URL"@]
    } else {
        Seq::empty()
    }) + (if root is None {
        seq!["CHAPR_ROOT"@]
    } else {
        Seq::empty()
    })
    &&& pair_texts(s.extra@) == extra_of(vars, extra_names(), 6)
    &&& shown(s.client) == set_to(vars, "CHAPR_CLIENT"@)
}

/// The variables that are handed on where they are set.
pub open spec fn extra_names() -> Seq<Seq<char>> {
    seq![
        "CHAPR_BACKEND"@,
        "CHAPR_COORD_TOKEN"@,
        "CHAPR_DIAG_LOG"@,
        "CHAPR_MAX_INLINE_BYTES"@,
        "CHAPR_PRINCIPAL"@,
        "RUST_LOG"@,
    ]
}

/// The first `n` of some variables, where they are set.
pub open spec fn extra_of(vars: Seq<(String, String)>, names: Seq<Seq<char>>, n: nat) -> Seq<(Seq<char>, Seq<char>)>
    decreases n,
{
    if n == 0 {
        Seq::empty()
    } else {
        let rest = extra_of(vars, names, (n - 1) as nat);
        match set_to(vars, names[n - 1]) {
            Some(v) => rest.push((names[n - 1], v)),
            None => rest,
        }
    }
}

fn hand_on(vars: &Vec<(String, String)>, extra: &mut Vec<(String, String)>, name: &str)
    ensures
        pair_texts(final(extra)@) == match set_to(vars@, name@) {
            Some(v) => pair_texts(old(extra)@).push((name@, v)),
            None => pair_texts(old(extra)@),
        },
{
    let ghost was = pair_texts(extra@);
    if let Some(v) = setting(vars, name) {
        let ghost text = v@;
        extra.push((own(name), v));
        assert(pair_texts(extra@) =~= was.push((name@, text)));
    }
}

/// What the environment says, with placeholders for what it does not say. `exe`
/// is the path of this program, where the system knows it.
pub fn settings_from_env(exe: Option<String>, windows: bool, vars: &Vec<(String, String)>) -> (r: Settings)
    ensures
        settings_of(exe, windows, vars@, r),
{
    let command = match exe {
        Some(path) => path,
        None => if windows {
            own("chapr-endpoint.exe")
        } else {
            own("chapr-endpoint")
        },
    };
    let mut placeholders: Vec<String> = Vec::new();
    let coord_url = match setting(vars, "CHAPR_COORD_URL") {
        Some(u) => u,
        None => {
            placeholders.push(own("CHAPR_COORD_URL"));
            own(COORD_URL_PLACEHOLDER)
        },
    };
    let root = match setting(vars, "CHAPR_ROOT") {
        Some(p) => p,
        None => {
            placeholders.push(own("CHAPR_ROOT"));
            own(ROOT_PLACEHOLDER)
        },
    };
    assert(views(placeholders@) =~= (if set_to(vars@, "CHAPR_COORD_URL"@) is None {
        seq!["CHAPR_COORD_URL"@]
    } else {
        Seq::empty()
    }) + (if set_to(vars@, "CHAPR_ROOT"@) is None {
        seq!["CHAPR_ROOT"@]
    } else {
        Seq::empty()
    }));
    let mut extra: Vec<(String, String)> = Vec::new();
    assert(pair_texts(extra@) =~= Seq::empty());
    hand_on(vars, &mut extra, "CHAPR_BACKEND");
    hand_on(vars, &mut extra, "CHAPR_COORD_TOKEN");
    hand_on(vars, &mut extra, "CHAPR_DIAG_LOG");
    hand_on(vars, &mut extra, "CHAPR_MAX_INLINE_BYTES");
    hand_on(vars, &mut extra, "CHAPR_PRINCIPAL");
    hand_on(vars, &mut extra, "RUST_LOG");
    proof {
        reveal_with_fuel(extra_of, 7);
    }
    Settings { command, coord_url, root, extra, placeholders, client: setting(vars, "CHAPR_CLIENT") }
}

/// What printing a configuration comes to.
pub struct Printed {
    /// What goes to the output.
    pub out: String,
    /// The lines that go beside it.
    pub err: Vec<String>,
    /// The exit code.
    pub code: u8,
}

/// The texts with `note: ` before each.
pub open spec fn as_notes(notes: Seq<Seq<char>>) -> Seq<Seq<char>> {
    notes.map_values(|n: Seq<char>| "note: "@ + n)
}

/// What is said of the command to somebody who names no host.
pub open spec fn usage_text(s: Settings) -> Seq<Seq<char>> {
    seq![
        "Usage: chapr-endpoint print-config <"@ + joined(host_names(s), "|"@) + ">"@,
        ""@,
        "Chaperone's endpoint is a standard MCP server over stdio, so any MCP"@,
        "host can drive it. `generic` prints the portable mcpServers block."@,
        ""@,
        "  command: "@ + s.command@,
    ]
}

/// Prints the configuration for a host, or tells which hosts there are. The
/// configuration alone goes to the output, so that it can be redirected.
pub fn run(host: Option<&str>, settings: &Settings) -> (r: Printed)
    ensures
        match host {
            None => r.code == 0 && r.out@.len() == 0 && views(r.err@) == usage_text(*settings),
            Some(h) => match config_for(h@, *settings) {
                Some(config) => r.code == 0 && r.out@ == config && views(r.err@) == as_notes(notes_text(h@, *settings)),
                None => r.code == 2 && r.out@.len() == 0 && views(r.err@) == seq!["error: "@ + unknown_host(h@, *settings)],
            },
        },
{
    let mut err: Vec<String> = Vec::new();
    match host {
        None => {
            let mut usage = own("Usage: chapr-endpoint print-config <");
            usage.append(join(hosts(settings).as_slice(), "|").as_str());
            usage.append(">");
            err.push(usage);
            err.push(own(""));
            err.push(own("Chaperone's endpoint is a standard MCP server over stdio, so any MCP"));
            err.push(own("host can drive it. `generic` prints the portable mcpServers block."));
            err.push(own(""));
            let mut line = own("  command: ");
            line.append(settings.command.as_str());
            err.push(line);
            assert(views(err@) =~= usage_text(*settings));
            Printed { out: String::new(), err, code: 0 }
        },
        Some(h) => match render(h, settings) {
            Ok(c) => {
                let mut i: usize = 0;
                while i < c.notes.len()
                    invariant
                        i <= c.notes@.len(),
                        err@.len() == i,
                        forall|k: int| 0 <= k < i ==> (#[trigger] err@[k])@ == "note: "@ + c.notes@[k]@,
                    decreases c.notes@.len() - i,
                {
                    let mut line = own("note: ");
                    line.append(c.notes[i].as_str());
                    err.push(line);
                    i = i + 1;
                }
                assert(views(err@) =~= as_notes(views(c.notes@)));
                Printed { out: c.config, err, code: 0 }
            },
            Err(e) => {
                let mut line = own("error: ");
                line.append(e.as_str());
                err.push(line);
                assert(views(err@) =~= seq!["error: "@ + unknown_host(h@, *settings)]);
                Printed { out: String::new(), err, code: 2 }
            },
        },
    }
}

/// Quotes are escaped one by one, and nothing else in a text is touched.
pub proof fn quotes_alone_are_escaped(a: Seq<char>, b: Seq<char>, c: char)
    ensures
        escaped(a + b) == escaped(a) + escaped(b),
        c == '"' ==> escaped(seq![c]) == seq!['\\', '"'],
        c != '"' ==> escaped(seq![c]) == seq![c],
    decreases b.len(),
{
    let one = seq![c];
    assert(one.drop_last() =~= Seq::<char>::empty());
    assert(escaped(one.drop_last()) =~= Seq::<char>::empty());
    assert(Seq::<char>::empty() + seq!['\\', '"'] =~= seq!['\\', '"']);
    assert(Seq::<char>::empty().push(c) =~= seq![c]);
    if b.len() == 0 {
        assert(a + b =~= a);
        assert(escaped(a) + escaped(b) =~= escaped(a));
    } else {
        quotes_alone_are_escaped(a, b.drop_last(), c);
        assert((a + b).drop_last() =~= a + b.drop_last());
        assert((a + b).last() == b.last());
        let e = escaped(b.drop_last());
        assert(escaped(a) + e + seq!['\\', '"'] =~= escaped(a) + (e + seq!['\\', '"']));
        assert((escaped(a) + e).push(b.last()) =~= escaped(a) + e.push(b.last()));
    }
}

/// A text without white space and quotes is a word as it stands; any other stands between
/// double quotes, so that it is one word to a shell.
pub proof fn a_word_is_one_word(s: Seq<char>)
    ensures
        s.len() > 0 && (forall|i: int| 0 <= i < s.len() ==> !is_white(#[trigger] s[i]) && s[i] != '"' && s[i] != '\'') ==> word(s) == s,
        s.len() == 0 || (exists|i: int| 0 <= i < s.len() && (is_white(#[trigger] s[i]) || s[i] == '"' || s[i] == '\'')) ==> word(s)
            == seq!['"'] + escaped(s) + seq!['"'],
{
}

/// The line that registers the endpoint names the client first, its own options next, and
/// last the server, two dashes, and the command as one word.
pub proof fn the_command_goes_last(client: Seq<char>, s: Settings)
    ensures
        ({
            let words = client_words(client, s);
            let n = words.len() as int;
            &&& n == 8 + 2 * s.env_pairs().len()
            &&& words[0] == word(client)
            &&& words[1] == "mcp"@
            &&& words[2] == "add"@
            &&& words[n - 3] == SERVER_NAME@
            &&& words[n - 2] == "--"@
            &&& words[n - 1] == word(s.command@)
        }),
{
    env_words_are_pairs(s.env_pairs(), 0);
}

proof fn env_words_are_pairs(pairs: Seq<(Seq<char>, Seq<char>)>, i: int)
    ensures
        env_words(pairs).len() == 2 * pairs.len(),
        0 <= i < pairs.len() ==> env_words(pairs)[2 * i] == "--env"@ && env_words(pairs)[2 * i + 1] == word(
            pairs[i].0 + "="@ + pairs[i].1,
        ),
    decreases pairs.len(),
{
    if pairs.len() > 0 {
        env_words_are_pairs(pairs.drop_last(), i);
    }
}

/// Every variable that a host is to set stands in the line behind `--env`, as one word.
pub proof fn every_variable_is_in_the_line(client: Seq<char>, s: Settings, i: int)
    requires
        0 <= i < s.env_pairs().len(),
    ensures
        client_words(client, s)[5 + 2 * i] == "--env"@,
        client_words(client, s)[6 + 2 * i] == word(s.env_pairs()[i].0 + "="@ + s.env_pairs()[i].1),
{
    env_words_are_pairs(s.env_pairs(), i);
}

proof fn others_stay(pairs: Seq<(Seq<char>, Seq<char>)>, more: Seq<(Seq<char>, Seq<char>)>, name: Seq<char>)
    requires
        in_name_order(pairs),
        forall|i: int| 0 <= i < more.len() ==> (#[trigger] more[i]).0 != name,
    ensures
        value_of(put_all(pairs, more), name) == value_of(pairs, name),
    decreases more.len(),
{
    if more.len() > 0 {
        let d = more.drop_last();
        assert forall|i: int| 0 <= i < d.len() implies (#[trigger] d[i]).0 != name by {
            assert(d[i] == more[i]);
        }
        others_stay(pairs, d, name);
        put_all_keeps_order(pairs, d);
        assert(more[more.len() - 1].0 != name);
        put_is_found(put_all(pairs, d), more.last().0, more.last().1, name);
    }
}

/// What a host sets for the endpoint says where the coordinator is and which location is
/// coordinated, as the settings have it.
pub proof fn the_address_and_the_root_are_set(s: Settings)
    requires
        forall|i: int| 0 <= i < pair_texts(s.extra@).len() ==> (#[trigger] pair_texts(s.extra@)[i]).0 != "CHAPR_COORD_URL"@ && pair_texts(
            s.extra@,
        )[i].0 != "CHAPR_ROOT"@,
    ensures
        value_of(s.env_pairs(), "CHAPR_COORD_URL"@) == Some(s.coord_url@),
        value_of(s.env_pairs(), "CHAPR_ROOT"@) == Some(s.root@),
{
    let none = Seq::<(Seq<char>, Seq<char>)>::empty();
    let url = put(none, "CHAPR_COORD_URL"@, s.coord_url@);
    let both = put(url, "CHAPR_ROOT"@, s.root@);
    put_keeps_order(none, "CHAPR_COORD_URL"@, s.coord_url@);
    put_keeps_order(url, "CHAPR_ROOT"@, s.root@);
    reveal_strlit("CHAPR_COORD_URL");
    reveal_strlit("CHAPR_ROOT");
    assert("CHAPR_COORD_URL"@.len() != "CHAPR_ROOT"@.len());
    put_is_found(none, "CHAPR_COORD_URL"@, s.coord_url@, "CHAPR_COORD_URL"@);
    put_is_found(url, "CHAPR_ROOT"@, s.root@, "CHAPR_ROOT"@);
    put_is_found(url, "CHAPR_ROOT"@, s.root@, "CHAPR_COORD_URL"@);
    others_stay(both, pair_texts(s.extra@), "CHAPR_COORD_URL"@);
    others_stay(both, pair_texts(s.extra@), "CHAPR_ROOT"@);
}

proof fn handed_on(vars: Seq<(String, String)>, names: Seq<Seq<char>>, n: nat, k: int)
    requires
        0 <= k < n <= names.len(),
    ensures
        set_to(vars, names[k]) matches Some(v) ==> extra_of(vars, names, n).contains((names[k], v)),
    decreases n,
{
    let rest = extra_of(vars, names, (n - 1) as nat);
    let all = extra_of(vars, names, n);
    if k < n - 1 {
        handed_on(vars, names, (n - 1) as nat, k);
        if let Some(v) = set_to(vars, names[k]) {
            let i = choose|i: int| 0 <= i < rest.len() && rest[i] == (names[k], v);
            assert(all[i] == (names[k], v));
        }
    } else if let Some(v) = set_to(vars, names[k]) {
        assert(all[all.len() - 1] == (names[k], v));
    }
}

proof fn only_set_ones_are_handed_on(vars: Seq<(String, String)>, names: Seq<Seq<char>>, n: nat, i: int)
    requires
        n <= names.len(),
        0 <= i < extra_of(vars, names, n).len(),
    ensures
        set_to(vars, extra_of(vars, names, n)[i].0) == Some(extra_of(vars, names, n)[i].1),
    decreases n,
{
    if n > 0 {
        let rest = extra_of(vars, names, (n - 1) as nat);
        if i < rest.len() {
            only_set_ones_are_handed_on(vars, names, (n - 1) as nat, i);
        }
    }
}

/// A configuration printed on a configured machine reproduces that machine: the secret, the
/// person, the kind of fileserver and the rest are handed on where they are set, with the
/// values that they have, and nothing is handed on that is not.
pub proof fn set_variables_are_handed_on(exe: Option<String>, windows: bool, vars: Seq<(String, String)>, s: Settings, name: Seq<char>, i: int)
    requires
        settings_of(exe, windows, vars, s),
        name == "CHAPR_BACKEND"@ || name == "CHAPR_COORD_TOKEN"@ || name == "CHAPR_DIAG_LOG"@ || name == "CHAPR_MAX_INLINE_BYTES"@ || name
            == "CHAPR_PRINCIPAL"@ || name == "RUST_LOG"@,
    ensures
        set_to(vars, name) matches Some(v) ==> pair_texts(s.extra@).contains((name, v)),
        0 <= i < pair_texts(s.extra@).len() ==> set_to(vars, pair_texts(s.extra@)[i].0) == Some(pair_texts(s.extra@)[i].1),
{
    let names = extra_names();
    let k: int = if name == names[0] { 0 } else if name == names[1] { 1 } else if name == names[2] { 2 } else if name == names[3] { 3 }
        else if name == names[4] { 4 } else { 5 };
    handed_on(vars, names, 6, k);
    if 0 <= i < pair_texts(s.extra@).len() {
        only_set_ones_are_handed_on(vars, names, 6, i);
    }
}

/// The settings are those of the environment: the address and the root that are set there,
/// or placeholders that are listed as such; and the command is this program.
pub proof fn settings_are_of_the_environment(exe: Option<String>, windows: bool, vars: Seq<(String, String)>, s: Settings)
    requires
        settings_of(exe, windows, vars, s),
    ensures
        exe matches Some(path) ==> s.command@ == path@,
        set_to(vars, "CHAPR_COORD_URL"@) matches Some(u) ==> s.coord_url@ == u && !lists(s.placeholders@, "CHAPR_COORD_URL"@),
        set_to(vars, "CHAPR_ROOT"@) matches Some(p) ==> s.root@ == p && !lists(s.placeholders@, "CHAPR_ROOT"@),
        set_to(vars, "CHAPR_COORD_URL"@) is None ==> lists(s.placeholders@, "CHAPR_COORD_URL"@),
        set_to(vars, "CHAPR_ROOT"@) is None ==> lists(s.placeholders@, "CHAPR_ROOT"@),
        shown(s.client) == set_to(vars, "CHAPR_CLIENT"@),
{
    reveal_strlit("CHAPR_COORD_URL");
    reveal_strlit("CHAPR_ROOT");
    assert("CHAPR_COORD_URL"@.len() != "CHAPR_ROOT"@.len());
    let texts = views(s.placeholders@);
    let n = s.placeholders@.len();
    assert(texts.len() == n);
    assert forall|i: int| 0 <= i < n implies (#[trigger] s.placeholders@[i])@ == texts[i] by {}
    if set_to(vars, "CHAPR_COORD_URL"@) is None {
        assert(s.placeholders@[0]@ == texts[0]);
    }
    if set_to(vars, "CHAPR_ROOT"@) is None {
        assert(s.placeholders@[n - 1]@ == texts[n - 1]);
    }
}

/// The portable configuration has one server, by its name, with the command that starts it
/// and the variables that it is started with, and nothing else.
pub proof fn the_portable_configuration_names_the_server(s: Settings)
    ensures
        generic_servers(s).len() == 1,
        generic_servers(s)[0].0 == "chaperone"@,
        generic_servers(s)[0].1.len() == 2,
        generic_servers(s)[0].1[0] == ("command"@, FieldView::Text(s.command@)),
        generic_servers(s)[0].1[1] == ("env"@, FieldView::Table(s.env_pairs())),
        generic_config(s).last() == '\n',
        config_for("generic"@, s) == Some(generic_config(s)),
{
}

/// A configuration that holds a placeholder says so before anything else, by its names; and
/// one without a root of its own warns that the endpoint would be unconfined.
pub proof fn placeholders_are_pointed_out(host: Seq<char>, s: Settings)
    ensures
        s.placeholders@.len() > 0 ==> notes_text(host, s).len() > 0 && mentions(
            notes_text(host, s)[0],
            joined(views(s.placeholders@), " and "@),
        ),
        lists(s.placeholders@, "CHAPR_ROOT"@) ==> notes_text(host, s).contains(ROOT_NOTE@),
        host == "generic"@ ==> notes_text(host, s).contains(GENERIC_NOTE@),
{
    let notes = notes_text(host, s);
    if s.placeholders@.len() > 0 {
        let names = joined(views(s.placeholders@), " and "@);
        assert(notes[0] =~= Seq::<char>::empty() + names + PLACEHOLDER_NOTE@);
    }
    if lists(s.placeholders@, "CHAPR_ROOT"@) {
        assert(notes[1] == ROOT_NOTE@);
    }
    if host == "generic"@ {
        assert(notes[notes.len() - 1] == GENERIC_NOTE@);
    }
}

/// A host that is not known is told which are.
pub proof fn an_unknown_host_is_told_the_known_ones(host: Seq<char>, s: Settings)
    ensures
        mentions(unknown_host(host, s), quoted_text(host)),
        mentions(unknown_host(host, s), joined(host_names(s), ", "@)),
{
    let t = unknown_host(host, s);
    let list = joined(host_names(s), ", "@);
    assert(t =~= "unknown host "@ + quoted_text(host) + (". Valid hosts: "@ + list));
    assert(t =~= ("unknown host "@ + quoted_text(host) + ". Valid hosts: "@) + list + Seq::<char>::empty());
}

} // verus!
