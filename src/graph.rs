//! The topology graph, its diagnostics, and the descriptor parser that
//! builds one from text.
//!
//! The format is line oriented. Blank lines and lines whose trimmed text
//! starts with `#` are skipped; `type <code> <name> [param...]` declares a
//! node; `link <from> <to>` connects two nodes declared on earlier lines. A
//! line is read by its first word, which must be exactly `type` or `link`;
//! any other line is an error. A link endpoint binds to the first node
//! declared with that name. The first faulty line ends the parse with a
//! diagnostic that carries its 1-based line number.
use vstd::prelude::*;
use crate::asset::NetworkGraphAssetType;
use crate::asset::asset_type_of;
use crate::asset::unknown_type_message;
use crate::text::chars_of;
use crate::text::deep_chars;
use crate::text::fields;
use crate::text::lines_of;
use crate::text::split_fields;
use crate::text::split_lines;
use crate::text::chars_equal;
use crate::text::string_of;
use crate::text::trim;
use crate::text::trim_chars;

verus! {

/// One declared node.
pub struct NetworkGraphAsset {
    pub asset_type: NetworkGraphAssetType,
    pub name: String,
}

/// What a node is: its kind and its name.
pub struct NodeModel {
    pub asset_type: NetworkGraphAssetType,
    pub name: Seq<char>,
}

impl View for NetworkGraphAsset {
    type V = NodeModel;

    open spec fn view(&self) -> NodeModel {
        NodeModel { asset_type: self.asset_type, name: self.name@ }
    }
}

/// A topology: nodes in declaration order, and links as pairs of node
/// indices (from, to), in declaration order.
pub struct NetworkGraph {
    pub assets: Vec<NetworkGraphAsset>,
    pub links: Vec<(usize, usize)>,
}

/// What a graph is: its node sequence and its link sequence.
pub struct GraphModel {
    pub nodes: Seq<NodeModel>,
    pub links: Seq<(int, int)>,
}

impl GraphModel {
    pub open spec fn empty() -> GraphModel {
        GraphModel { nodes: Seq::empty(), links: Seq::empty() }
    }

    /// Every link joins two nodes of the graph.
    pub open spec fn links_in_range(self) -> bool {
        forall|k: int|
            0 <= k < self.links.len() ==> 0 <= (#[trigger] self.links[k]).0 < self.nodes.len()
                && 0 <= self.links[k].1 < self.nodes.len()
    }
}

impl View for NetworkGraph {
    type V = GraphModel;

    open spec fn view(&self) -> GraphModel {
        GraphModel {
            nodes: self.assets@.map_values(|a: NetworkGraphAsset| a@),
            links: self.links@.map_values(|p: (usize, usize)| (p.0 as int, p.1 as int)),
        }
    }
}

/// Why a descriptor could not be turned into a graph. Line numbers are
/// 1-based and count every physical line.
#[derive(Debug)]
pub enum NetworkGraphLoadError {
    /// The text could not be read; the reader's message.
    IoError(String),
    /// A malformed `type` line.
    ParseError(usize, String),
    /// A `type` line whose code names no kind: the code and the reason.
    ObjectParseError(usize, String, String),
    /// A line that is neither blank, a comment, `type` nor `link`: its trimmed text.
    InvalidDirective(usize, String),
    /// A malformed `link` line, or one naming an undeclared node.
    BadLinkError(usize, String),
}

/// What a diagnostic is.
pub enum LoadErrorModel {
    Io(Seq<char>),
    Parse(nat, Seq<char>),
    ObjectParse(nat, Seq<char>, Seq<char>),
    InvalidDirective(nat, Seq<char>),
    BadLink(nat, Seq<char>),
}

impl View for NetworkGraphLoadError {
    type V = LoadErrorModel;

    open spec fn view(&self) -> LoadErrorModel {
        match self {
            NetworkGraphLoadError::IoError(m) => LoadErrorModel::Io(m@),
            NetworkGraphLoadError::ParseError(l, m) => LoadErrorModel::Parse(*l as nat, m@),
            NetworkGraphLoadError::ObjectParseError(l, c, m) => LoadErrorModel::ObjectParse(
                *l as nat,
                c@,
                m@,
            ),
            NetworkGraphLoadError::InvalidDirective(l, t) => LoadErrorModel::InvalidDirective(
                *l as nat,
                t@,
            ),
            NetworkGraphLoadError::BadLinkError(l, m) => LoadErrorModel::BadLink(*l as nat, m@),
        }
    }
}

/// How a line is read, by its trimmed text.
pub enum LineKind {
    Skip,
    Type,
    Link,
    Unknown,
}

pub open spec fn line_kind(line: Seq<char>) -> LineKind {
    let t = trim(line);
    let f = fields(t);
    if t.len() == 0 || t[0] == '#' {
        LineKind::Skip
    } else if f.len() > 0 && f[0] == "type"@ {
        LineKind::Type
    } else if f.len() > 0 && f[0] == "link"@ {
        LineKind::Link
    } else {
        LineKind::Unknown
    }
}

/// The index of the first node named `name`, if there is one.
pub open spec fn find_node(nodes: Seq<NodeModel>, name: Seq<char>) -> Option<int> {
    if exists|i: int| is_first_named(nodes, name, i) {
        Some(choose|i: int| is_first_named(nodes, name, i))
    } else {
        None
    }
}

pub open spec fn is_first_named(nodes: Seq<NodeModel>, name: Seq<char>, i: int) -> bool {
    &&& 0 <= i < nodes.len()
    &&& nodes[i].name == name
    &&& forall|j: int| 0 <= j < i ==> (#[trigger] nodes[j]).name != name
}

pub open spec fn unknown_asset_message(name: Seq<char>) -> Seq<char> {
    "unknown asset: "@ + name
}

/// The effect of line `n` (1-based), with text `line`, on graph `g`.
pub open spec fn step(g: GraphModel, line: Seq<char>, n: nat) -> Result<GraphModel, LoadErrorModel> {
    let t = trim(line);
    let f = fields(t);
    match line_kind(line) {
        LineKind::Skip => Ok(g),
        LineKind::Type => {
            if f.len() < 3 {
                Err(LoadErrorModel::Parse(n, "invalid type declaration"@))
            } else {
                match asset_type_of(f[1]) {
                    Some(ty) => Ok(
                        GraphModel {
                            nodes: g.nodes.push(NodeModel { asset_type: ty, name: f[2] }),
                            links: g.links,
                        },
                    ),
                    None => Err(LoadErrorModel::ObjectParse(n, f[1], unknown_type_message(f[1]))),
                }
            }
        },
        LineKind::Link => {
            if f.len() < 3 {
                Err(LoadErrorModel::BadLink(n, "invalid link declaration"@))
            } else {
                match find_node(g.nodes, f[1]) {
                    None => Err(LoadErrorModel::BadLink(n, unknown_asset_message(f[1]))),
                    Some(i) => match find_node(g.nodes, f[2]) {
                        None => Err(LoadErrorModel::BadLink(n, unknown_asset_message(f[2]))),
                        Some(j) => Ok(
                            GraphModel { nodes: g.nodes, links: g.links.push((i, j)) },
                        ),
                    },
                }
            }
        },
        LineKind::Unknown => Err(LoadErrorModel::InvalidDirective(n, t)),
    }
}

/// The graph that the lines describe, or the diagnostic of the first faulty one.
pub open spec fn build(lines: Seq<Seq<char>>) -> Result<GraphModel, LoadErrorModel>
    decreases lines.len(),
{
    if lines.len() == 0 {
        Ok(GraphModel::empty())
    } else {
        match build(lines.drop_last()) {
            Ok(g) => step(g, lines.last(), lines.len()),
            Err(e) => Err(e),
        }
    }
}

/// The result of parsing descriptor text.
pub open spec fn parse_text(text: Seq<char>) -> Result<GraphModel, LoadErrorModel> {
    build(lines_of(text))
}

/// Once a prefix of the lines fails, the whole fails the same way.
proof fn lemma_build_err_extends(lines: Seq<Seq<char>>, k: int)
    requires
        0 <= k <= lines.len(),
        build(lines.take(k)) is Err,
    ensures
        build(lines) == build(lines.take(k)),
    decreases lines.len(),
{
    if k == lines.len() {
        assert(lines.take(k) =~= lines);
    } else {
        assert(lines.drop_last().take(k) =~= lines.take(k));
        lemma_build_err_extends(lines.drop_last(), k);
    }
}

/// The `type` lines among `lines`, in order.
pub open spec fn type_lines(lines: Seq<Seq<char>>) -> Seq<Seq<char>>
    decreases lines.len(),
{
    if lines.len() == 0 {
        Seq::empty()
    } else if line_kind(lines.last()) is Type {
        type_lines(lines.drop_last()).push(lines.last())
    } else {
        type_lines(lines.drop_last())
    }
}

/// The `link` lines among `lines`, in order.
pub open spec fn link_lines(lines: Seq<Seq<char>>) -> Seq<Seq<char>>
    decreases lines.len(),
{
    if lines.len() == 0 {
        Seq::empty()
    } else if line_kind(lines.last()) is Link {
        link_lines(lines.drop_last()).push(lines.last())
    } else {
        link_lines(lines.drop_last())
    }
}

/// The node that an accepted `type` line declares.
pub open spec fn declared_node(line: Seq<char>) -> NodeModel {
    let f = fields(trim(line));
    NodeModel { asset_type: asset_type_of(f[1])->0, name: f[2] }
}

/// A diagnostic with its line number set aside.
pub open spec fn without_line(e: LoadErrorModel) -> LoadErrorModel {
    match e {
        LoadErrorModel::Io(m) => LoadErrorModel::Io(m),
        LoadErrorModel::Parse(_, m) => LoadErrorModel::Parse(0, m),
        LoadErrorModel::ObjectParse(_, c, m) => LoadErrorModel::ObjectParse(0, c, m),
        LoadErrorModel::InvalidDirective(_, t) => LoadErrorModel::InvalidDirective(0, t),
        LoadErrorModel::BadLink(_, m) => LoadErrorModel::BadLink(0, m),
    }
}

/// Two parse results that agree but for the line number of a diagnostic.
pub open spec fn same_but_line(
    a: Result<GraphModel, LoadErrorModel>,
    b: Result<GraphModel, LoadErrorModel>,
) -> bool {
    match (a, b) {
        (Ok(g), Ok(h)) => g == h,
        (Err(x), Err(y)) => without_line(x) == without_line(y),
        _ => false,
    }
}

proof fn lemma_build_ok(lines: Seq<Seq<char>>)
    requires
        build(lines) is Ok,
    ensures
        ({
            let g = build(lines)->Ok_0;
            let tl = type_lines(lines);
            let ll = link_lines(lines);
            &&& g.links_in_range()
            &&& g.nodes.len() == tl.len()
            &&& forall|k: int|
                0 <= k < tl.len() ==> fields(trim(#[trigger] tl[k])).len() >= 3 && g.nodes[k]
                    == declared_node(tl[k])
            &&& g.links.len() == ll.len()
            &&& forall|k: int|
                0 <= k < ll.len() ==> {
                    &&& fields(trim(#[trigger] ll[k])).len() >= 3
                    &&& g.nodes[g.links[k].0].name == fields(trim(ll[k]))[1]
                    &&& g.nodes[g.links[k].1].name == fields(trim(ll[k]))[2]
                }
        }),
    decreases lines.len(),
{
    if lines.len() > 0 {
        lemma_build_ok(lines.drop_last());
        let g0 = build(lines.drop_last())->Ok_0;
        let g = build(lines)->Ok_0;
        let l = lines.last();
        let f = fields(trim(l));
        let tl = type_lines(lines);
        let ll = link_lines(lines);
        let tl0 = type_lines(lines.drop_last());
        let ll0 = link_lines(lines.drop_last());
        if line_kind(l) is Link {
            let i = find_node(g0.nodes, f[1])->0;
            let j = find_node(g0.nodes, f[2])->0;
            assert(is_first_named(g0.nodes, f[1], i));
            assert(is_first_named(g0.nodes, f[2], j));
            assert forall|k: int| 0 <= k < ll.len() implies {
                &&& fields(trim(#[trigger] ll[k])).len() >= 3
                &&& g.nodes[g.links[k].0].name == fields(trim(ll[k]))[1]
                &&& g.nodes[g.links[k].1].name == fields(trim(ll[k]))[2]
            } by {
                if k < ll0.len() {
                    assert(g.links[k] == g0.links[k]);
                    assert(ll[k] == ll0[k]);
                }
            }
            assert forall|k: int| 0 <= k < g.links.len() implies 0 <= (#[trigger] g.links[k]).0
                < g.nodes.len() && 0 <= g.links[k].1 < g.nodes.len() by {
                if k < g0.links.len() {
                    assert(g.links[k] == g0.links[k]);
                }
            }
        } else if line_kind(l) is Type {
            assert forall|k: int| 0 <= k < tl.len() implies fields(trim(#[trigger] tl[k])).len()
                >= 3 && g.nodes[k] == declared_node(tl[k]) by {
                if k < tl0.len() {
                    assert(tl[k] == tl0[k]);
                }
            }
            assert forall|k: int|
                0 <= k < ll.len() implies {
                &&& fields(trim(#[trigger] ll[k])).len() >= 3
                &&& g.nodes[g.links[k].0].name == fields(trim(ll[k]))[1]
                &&& g.nodes[g.links[k].1].name == fields(trim(ll[k]))[2]
            } by {
                assert(g.links[k] == g0.links[k]);
            }
            assert forall|k: int| 0 <= k < g.links.len() implies 0 <= (#[trigger] g.links[k]).0
                < g.nodes.len() && 0 <= g.links[k].1 < g.nodes.len() by {
                assert(g.links[k] == g0.links[k]);
            }
        }
    }
}

/// Every link of a parsed graph joins two of its nodes.
pub proof fn lemma_links_in_range(text: Seq<char>)
    requires
        parse_text(text) is Ok,
    ensures
        parse_text(text)->Ok_0.links_in_range(),
{
    lemma_build_ok(lines_of(text));
}

/// A parsed graph has one node per `type` line and one link per `link` line,
/// each in the order of the lines: node `k` is what the `k`-th `type` line
/// declares, and link `k` joins the nodes that the `k`-th `link` line names.
pub proof fn lemma_declaration_order(text: Seq<char>)
    requires
        parse_text(text) is Ok,
    ensures
        ({
            let g = parse_text(text)->Ok_0;
            let tl = type_lines(lines_of(text));
            let ll = link_lines(lines_of(text));
            &&& g.nodes.len() == tl.len()
            &&& forall|k: int|
                0 <= k < tl.len() ==> fields(trim(#[trigger] tl[k])).len() >= 3 && g.nodes[k]
                    == declared_node(tl[k])
            &&& g.links.len() == ll.len()
            &&& forall|k: int|
                0 <= k < ll.len() ==> {
                    &&& fields(trim(#[trigger] ll[k])).len() >= 3
                    &&& g.nodes[g.links[k].0].name == fields(trim(ll[k]))[1]
                    &&& g.nodes[g.links[k].1].name == fields(trim(ll[k]))[2]
                }
        }),
{
    lemma_build_ok(lines_of(text));
}

/// Parsing is a function of the text alone: the same text always gives the
/// same nodes and links, or the same diagnostic.
pub proof fn lemma_parse_deterministic(a: Seq<char>, b: Seq<char>)
    requires
        a == b,
    ensures
        parse_text(a) == parse_text(b),
{
}

/// The line number that a diagnostic reports.
pub open spec fn error_line(e: LoadErrorModel) -> nat {
    match e {
        LoadErrorModel::Io(_) => 0,
        LoadErrorModel::Parse(n, _) => n,
        LoadErrorModel::ObjectParse(n, _, _) => n,
        LoadErrorModel::InvalidDirective(n, _) => n,
        LoadErrorModel::BadLink(n, _) => n,
    }
}

/// A failed parse names one of the lines.
proof fn lemma_error_line_bound(lines: Seq<Seq<char>>)
    requires
        build(lines) is Err,
    ensures
        1 <= error_line(build(lines)->Err_0) <= lines.len(),
    decreases lines.len(),
{
    if lines.len() > 0 && build(lines.drop_last()) is Err {
        lemma_error_line_bound(lines.drop_last());
    }
}

proof fn lemma_build_skip_inserted(lines: Seq<Seq<char>>, k: int, extra: Seq<char>)
    requires
        0 <= k <= lines.len(),
        line_kind(extra) is Skip,
    ensures
        same_but_line(build(lines.insert(k, extra)), build(lines)),
        build(lines) is Err ==> error_line(build(lines.insert(k, extra))->Err_0) == error_line(
            build(lines)->Err_0,
        ) + if k < error_line(build(lines)->Err_0) {
            1nat
        } else {
            0nat
        },
    decreases lines.len(),
{
    let ins = lines.insert(k, extra);
    if k == lines.len() {
        assert(ins.drop_last() =~= lines);
        if build(lines) is Err {
            lemma_error_line_bound(lines);
        }
    } else {
        assert(ins.drop_last() =~= lines.drop_last().insert(k, extra));
        assert(ins.last() == lines.last());
        lemma_build_skip_inserted(lines.drop_last(), k, extra);
    }
}

/// Inserting a blank or comment line into descriptor text changes nothing
/// but the line numbers of a diagnostic: a graph stays the same graph, and a
/// diagnostic the same diagnostic, whose line number grows by one when the
/// new line stands before the line it reports.
pub proof fn lemma_skipped_line_inserted(t1: Seq<char>, t2: Seq<char>, k: int, extra: Seq<char>)
    requires
        0 <= k <= lines_of(t1).len(),
        lines_of(t2) == lines_of(t1).insert(k, extra),
        line_kind(extra) is Skip,
    ensures
        same_but_line(parse_text(t2), parse_text(t1)),
        parse_text(t1) is Ok ==> parse_text(t2) == parse_text(t1),
        parse_text(t1) is Err ==> error_line(parse_text(t2)->Err_0) == error_line(
            parse_text(t1)->Err_0,
        ) + if k < error_line(parse_text(t1)->Err_0) {
            1nat
        } else {
            0nat
        },
{
    lemma_build_skip_inserted(lines_of(t1), k, extra);
}

/// The lines of `lines` that are neither blank nor comments, each with its
/// 1-based line number.
pub open spec fn directives(lines: Seq<Seq<char>>) -> Seq<(nat, Seq<char>)>
    decreases lines.len(),
{
    if lines.len() == 0 {
        Seq::empty()
    } else if line_kind(lines.last()) is Skip {
        directives(lines.drop_last())
    } else {
        directives(lines.drop_last()).push((lines.len(), lines.last()))
    }
}

/// The text of each directive line, in order.
pub open spec fn directive_texts(lines: Seq<Seq<char>>) -> Seq<Seq<char>> {
    directives(lines).map_values(|d: (nat, Seq<char>)| d.1)
}

/// The parse of directive lines given with their line numbers.
pub open spec fn build_directives(ds: Seq<(nat, Seq<char>)>) -> Result<GraphModel, LoadErrorModel>
    decreases ds.len(),
{
    if ds.len() == 0 {
        Ok(GraphModel::empty())
    } else {
        match build_directives(ds.drop_last()) {
            Ok(g) => step(g, ds.last().1, ds.last().0),
            Err(e) => Err(e),
        }
    }
}

proof fn lemma_build_by_directives(lines: Seq<Seq<char>>)
    ensures
        build(lines) == build_directives(directives(lines)),
    decreases lines.len(),
{
    if lines.len() > 0 {
        lemma_build_by_directives(lines.drop_last());
        if !(line_kind(lines.last()) is Skip) {
            assert(directives(lines).drop_last() =~= directives(lines.drop_last()));
        }
    }
}

proof fn lemma_same_directive_texts(d1: Seq<(nat, Seq<char>)>, d2: Seq<(nat, Seq<char>)>)
    requires
        d1.len() == d2.len(),
        forall|i: int| 0 <= i < d1.len() ==> (#[trigger] d1[i]).1 == d2[i].1,
    ensures
        same_but_line(build_directives(d1), build_directives(d2)),
        build_directives(d1) is Err ==> exists|j: int|
            0 <= j < d1.len() && error_line(build_directives(d1)->Err_0) == (#[trigger] d1[j]).0
                && error_line(build_directives(d2)->Err_0) == d2[j].0,
    decreases d1.len(),
{
    if d1.len() > 0 {
        let p1 = d1.drop_last();
        let p2 = d2.drop_last();
        assert forall|i: int| 0 <= i < p1.len() implies (#[trigger] p1[i]).1 == p2[i].1 by {
            assert(p1[i] == d1[i] && p2[i] == d2[i]);
        }
        lemma_same_directive_texts(p1, p2);
        let last = d1.len() - 1;
        assert(d1[last].1 == d2[last].1);
        if build_directives(p1) is Err {
            let j = choose|j: int|
                0 <= j < p1.len() && error_line(build_directives(p1)->Err_0) == (#[trigger] p1[j]).0
                    && error_line(build_directives(p2)->Err_0) == p2[j].0;
            assert(d1[j] == p1[j] && d2[j] == p2[j]);
        } else {
            assert(d1[last] == d1.last() && d2[last] == d2.last());
        }
    }
}

/// Descriptor texts that differ only in blank and comment lines, however
/// many and wherever they stand, parse alike: to the same graph, or to the
/// same diagnostic, which then reports in each text the line number of the
/// same directive.
pub proof fn lemma_only_directives_matter(t1: Seq<char>, t2: Seq<char>)
    requires
        directive_texts(lines_of(t1)) == directive_texts(lines_of(t2)),
    ensures
        same_but_line(parse_text(t1), parse_text(t2)),
        parse_text(t1) is Ok ==> parse_text(t2) == parse_text(t1),
        parse_text(t1) is Err ==> exists|j: int|
            0 <= j < directives(lines_of(t1)).len() && error_line(parse_text(t1)->Err_0)
                == (#[trigger] directives(lines_of(t1))[j]).0 && error_line(parse_text(t2)->Err_0)
                == directives(lines_of(t2))[j].0,
{
    let d1 = directives(lines_of(t1));
    let d2 = directives(lines_of(t2));
    lemma_build_by_directives(lines_of(t1));
    lemma_build_by_directives(lines_of(t2));
    assert(d1.len() == directive_texts(lines_of(t1)).len());
    assert(d2.len() == directive_texts(lines_of(t2)).len());
    assert forall|i: int| 0 <= i < d1.len() implies (#[trigger] d1[i]).1 == d2[i].1 by {
        assert(directive_texts(lines_of(t1))[i] == d1[i].1);
        assert(directive_texts(lines_of(t2))[i] == d2[i].1);
    }
    lemma_same_directive_texts(d1, d2);
}

/// The index of the first asset named `name`.
fn find_asset(assets: &Vec<NetworkGraphAsset>, name: &String) -> (r: Option<usize>)
    ensures
        match r {
            Some(i) => find_node(assets@.map_values(|a: NetworkGraphAsset| a@), name@) == Some(
                i as int,
            ),
            None => find_node(assets@.map_values(|a: NetworkGraphAsset| a@), name@) is None,
        },
{
    let ghost nodes = assets@.map_values(|a: NetworkGraphAsset| a@);
    let mut i: usize = 0;
    while i < assets.len()
        invariant
            nodes == assets@.map_values(|a: NetworkGraphAsset| a@),
            i <= assets.len(),
            forall|j: int| 0 <= j < i ==> (#[trigger] nodes[j]).name != name@,
        decreases assets.len() - i,
    {
        if assets[i].name == *name {
            assert(is_first_named(nodes, name@, i as int));
            let ghost c = choose|c: int| is_first_named(nodes, name@, c);
            assert(c == i) by {
                if c < i {
                    assert(nodes[c].name != name@);
                } else if c > i {
                    assert(nodes[i as int].name == name@);
                }
            }
            return Some(i);
        }
        i = i + 1;
    }
    assert forall|c: int| !is_first_named(nodes, name@, c) by {
        if 0 <= c < nodes.len() {
            assert(nodes[c].name != name@);
        }
    }
    None
}

/// The strings of `fs` from index `from` on.
fn strings_from(fs: &Vec<Vec<char>>, from: usize) -> (r: Vec<String>)
    requires
        from <= fs.len(),
    ensures
        r@.len() == fs@.len() - from,
        forall|k: int| 0 <= k < r@.len() ==> (#[trigger] r@[k])@ == fs@[from + k]@,
{
    let mut r: Vec<String> = Vec::new();
    let mut k: usize = from;
    while k < fs.len()
        invariant
            from <= k <= fs.len(),
            r@.len() == k - from,
            forall|m: int| 0 <= m < r@.len() ==> (#[trigger] r@[m])@ == fs@[from + m]@,
        decreases fs.len() - k,
    {
        r.push(string_of(&fs[k]));
        k = k + 1;
    }
    r
}

/// Applies line `line_no` to `graph`: appends what it declares, or reports
/// why it cannot.
fn apply_line(graph: &mut NetworkGraph, line: &Vec<char>, line_no: usize) -> (r: Result<
    (),
    NetworkGraphLoadError,
>)
    ensures
        match step(old(graph)@, line@, line_no as nat) {
            Ok(g) => r is Ok && final(graph)@ == g,
            Err(e) => r matches Err(x) && x@ == e,
        },
{
    let t = trim_chars(line);
    if t.len() == 0 || t[0] == '#' {
        return Ok(());
    }
    let f = split_fields(&t);
    assert(deep_chars(f@).len() == f@.len());
    let first_is = |word: &str| -> (r: bool)
        ensures
            r == (f@.len() > 0 && fields(trim(line@))[0] == word@),
        {
            f.len() > 0 && chars_equal(&f[0], word)
        };
    if first_is("type") {
        if f.len() < 3 {
            return Err(
                NetworkGraphLoadError::ParseError(
                    line_no,
                    String::from_str("invalid type declaration"),
                ),
            );
        }
        assert(deep_chars(f@)[1] == f@[1]@ && deep_chars(f@)[2] == f@[2]@);
        let code = string_of(&f[1]);
        let params = strings_from(&f, 3);
        match NetworkGraphAssetType::from_str(code.as_str(), params) {
            Ok(ty) => {
                let ghost g0 = graph@;
                graph.assets.push(NetworkGraphAsset { asset_type: ty, name: string_of(&f[2]) });
                assert(graph@.nodes =~= g0.nodes.push(
                    NodeModel { asset_type: ty, name: fields(trim(line@))[2] },
                ));
                Ok(())
            },
            Err(msg) => Err(NetworkGraphLoadError::ObjectParseError(line_no, code, msg)),
        }
    } else if first_is("link") {
        if f.len() < 3 {
            return Err(
                NetworkGraphLoadError::BadLinkError(
                    line_no,
                    String::from_str("invalid link declaration"),
                ),
            );
        }
        assert(deep_chars(f@)[1] == f@[1]@ && deep_chars(f@)[2] == f@[2]@);
        let from = string_of(&f[1]);
        let to = string_of(&f[2]);
        let from_index = match find_asset(&graph.assets, &from) {
            Some(i) => i,
            None => {
                return Err(
                    NetworkGraphLoadError::BadLinkError(
                        line_no,
                        String::from_str("unknown asset: ").concat(from.as_str()),
                    ),
                );
            },
        };
        let to_index = match find_asset(&graph.assets, &to) {
            Some(i) => i,
            None => {
                return Err(
                    NetworkGraphLoadError::BadLinkError(
                        line_no,
                        String::from_str("unknown asset: ").concat(to.as_str()),
                    ),
                );
            },
        };
        let ghost g0 = graph@;
        graph.links.push((from_index, to_index));
        assert(graph@.links =~= g0.links.push((from_index as int, to_index as int)));
        Ok(())
    } else {
        Err(NetworkGraphLoadError::InvalidDirective(line_no, string_of(&t)))
    }
}

impl NetworkGraph {
    /// Parses descriptor text into a graph, or the diagnostic of its first
    /// faulty line.
    pub fn parse(text: &str) -> (r: Result<NetworkGraph, NetworkGraphLoadError>)
        ensures
            match parse_text(text@) {
                Ok(g) => r matches Ok(x) && x@ == g,
                Err(e) => r matches Err(x) && x@ == e,
            },
            r matches Ok(g) ==> g@.links_in_range(),
    {
        let cs = chars_of(text);
        let lines = split_lines(&cs);
        let ghost ls = deep_chars(lines@);
        let mut graph = NetworkGraph { assets: Vec::new(), links: Vec::new() };
        assert(ls.take(0) =~= Seq::<Seq<char>>::empty());
        assert(graph@.nodes =~= Seq::<NodeModel>::empty());
        assert(graph@.links =~= Seq::<(int, int)>::empty());
        let mut i: usize = 0;
        while i < lines.len()
            invariant
                ls == deep_chars(lines@),
                ls == lines_of(text@),
                i <= lines.len(),
                build(ls.take(i as int)) == Ok::<GraphModel, LoadErrorModel>(graph@),
            decreases lines.len() - i,
        {
            assert(ls.take(i + 1).drop_last() =~= ls.take(i as int));
            assert(ls.take(i + 1).last() == lines@[i as int]@);
            match apply_line(&mut graph, &lines[i], i + 1) {
                Ok(()) => {},
                Err(e) => {
                    proof {
                        lemma_build_err_extends(ls, i + 1);
                    }
                    return Err(e);
                },
            }
            i = i + 1;
        }
        assert(ls.take(i as int) =~= ls);
        proof {
            lemma_links_in_range(text@);
        }
        Ok(graph)
    }
}

} // verus!
