//! PipeWire nodes as `pw-cli ls Node` lists them, properties as `wpctl inspect`
//! prints them, and the choice of the output that the filter is attached to.

use vstd::prelude::*;

use crate::text::{
    chars_of, chars_then, contains_in, opt_contains, opt_is, contains_seq, copy_opt, has_prefix, has_prefix_in, line_ranges, lines, range_views,
    ranges_within, string_from_chars, trim, trim_bounds, trim_char, trim_char_bounds, is_space,
    law_unterminated_last_line_is_kept, trim_start, trim_end, trim_start_char, trim_end_char,
};

verus! {

/// `node.name` of the filter's capture (sink) node.
pub const PIPEWIRE_FILTER_MAIN_NODE: &'static str = "galaxybook_sound_sink";

/// `node.name` of the filter's playback (stream) node.
pub const PIPEWIRE_FILTER_STREAM_NODE: &'static str = "galaxybook_sound_output";

/// The properties of a PipeWire node that the panel reads.
#[derive(Clone, Debug, PartialEq, Eq)]
pub struct PipeWireNode {
    pub node_name: Option<String>,
    pub node_description: Option<String>,
    pub media_class: Option<String>,
    pub device_profile_description: Option<String>,
}

/// The model of a [`PipeWireNode`]: each property as a character sequence.
pub struct NodeView {
    pub node_name: Option<Seq<char>>,
    pub node_description: Option<Seq<char>>,
    pub media_class: Option<Seq<char>>,
    pub device_profile_description: Option<Seq<char>>,
}

impl View for PipeWireNode {
    type V = NodeView;

    open spec fn view(&self) -> NodeView {
        NodeView {
            node_name: self.node_name.deep_view(),
            node_description: self.node_description.deep_view(),
            media_class: self.media_class.deep_view(),
            device_profile_description: self.device_profile_description.deep_view(),
        }
    }
}

/// A node with none of its properties known.
pub open spec fn empty_node() -> NodeView {
    NodeView {
        node_name: None,
        node_description: None,
        media_class: None,
        device_profile_description: None,
    }
}

/// The models of a list of nodes.
pub open spec fn nodes_view(v: Seq<PipeWireNode>) -> Seq<NodeView> {
    v.map_values(|n: PipeWireNode| n@)
}

/// The model of an optional node.
pub open spec fn opt_node_view(o: Option<PipeWireNode>) -> Option<NodeView> {
    match o {
        Some(n) => Some(n@),
        None => None,
    }
}

impl PipeWireNode {
    /// A node with no property set.
    pub fn new() -> (r: PipeWireNode)
        ensures
            r@ == empty_node(),
    {
        PipeWireNode {
            node_name: None,
            node_description: None,
            media_class: None,
            device_profile_description: None,
        }
    }

    /// A copy of this node.
    pub fn copy(&self) -> (r: PipeWireNode)
        ensures
            r@ == self@,
    {
        PipeWireNode {
            node_name: copy_opt(&self.node_name),
            node_description: copy_opt(&self.node_description),
            media_class: copy_opt(&self.media_class),
            device_profile_description: copy_opt(&self.device_profile_description),
        }
    }
}

/// `s` after a leading `*` and the whitespace around what follows it are
/// removed; `s` itself when it does not begin with `*`.
pub open spec fn strip_star(s: Seq<char>) -> Seq<char> {
    if s.len() > 0 && s[0] == '*' {
        trim(s.drop_first())
    } else {
        s
    }
}

/// The value of property `key` on a `pw-cli` line: the text after
/// `key = `, without the double quotes at either end.
pub open spec fn pw_cli_property(line: Seq<char>, key: Seq<char>) -> Option<Seq<char>> {
    let candidate = strip_star(line);
    let prefix = key + " = "@;
    if has_prefix(candidate, prefix) {
        Some(trim_char(candidate.skip(prefix.len() as int), '"'))
    } else {
        None
    }
}

/// The value of property `key` on a `wpctl inspect` line: the line is
/// trimmed, a `*` marker is dropped, and the text between `key = "` and a
/// final `"` is taken.
pub open spec fn pwctl_line_value(line: Seq<char>, key: Seq<char>) -> Option<Seq<char>> {
    let candidate = strip_star(trim(line));
    let prefix = key + " = \""@;
    if has_prefix(candidate, prefix) {
        let rest = candidate.skip(prefix.len() as int);
        if rest.len() > 0 && rest.last() == '"' {
            Some(rest.drop_last())
        } else {
            None
        }
    } else {
        None
    }
}

/// The value of `key` on the first of `ls` that carries it.
pub open spec fn first_pwctl_value(ls: Seq<Seq<char>>, key: Seq<char>) -> Option<Seq<char>>
    decreases ls.len(),
{
    if ls.len() == 0 {
        None
    } else {
        match pwctl_line_value(ls[0], key) {
            Some(v) => Some(v),
            None => first_pwctl_value(ls.drop_first(), key),
        }
    }
}

/// The bounds of `strip_star(s[lo..hi])`.
fn strip_star_bounds(s: &Vec<char>, lo: usize, hi: usize) -> (r: (usize, usize))
    requires
        lo <= hi <= s.len(),
    ensures
        lo <= r.0 <= r.1 <= hi,
        s@.subrange(r.0 as int, r.1 as int) == strip_star(s@.subrange(lo as int, hi as int)),
{
    if lo < hi && s[lo] == '*' {
        assert(s@.subrange(lo as int, hi as int).drop_first() =~= s@.subrange(lo + 1, hi as int));
        trim_bounds(s, lo + 1, hi)
    } else {
        (lo, hi)
    }
}

/// `pw_cli_property` of `s[lo..hi]`, with `prefix` holding `key = `.
fn pw_cli_property_in(s: &Vec<char>, lo: usize, hi: usize, prefix: &Vec<char>) -> (r: Option<
    String,
>)
    requires
        lo <= hi <= s.len(),
    ensures
        r.deep_view() == (if has_prefix(strip_star(s@.subrange(lo as int, hi as int)), prefix@) {
            Some(
                trim_char(
                    strip_star(s@.subrange(lo as int, hi as int)).skip(prefix@.len() as int),
                    '"',
                ),
            )
        } else {
            None
        }),
{
    let (a, b) = strip_star_bounds(s, lo, hi);
    if has_prefix_in(s, a, b, prefix) {
        let (c, d) = trim_char_bounds(s, a + prefix.len(), b, '"');
        assert(s@.subrange(a as int, b as int).skip(prefix@.len() as int) =~= s@.subrange(
            a + prefix.len(),
            b as int,
        ));
        Some(string_from_chars(s, c, d))
    } else {
        None
    }
}

/// The value of property `key` on one `pw-cli` line, without the double
/// quotes at either end.
pub fn parse_pw_cli_property(line: &str, key: &str) -> (r: Option<String>)
    ensures
        r.deep_view() == pw_cli_property(line@, key@),
{
    let s = chars_of(line);
    let k = chars_of(key);
    let prefix = chars_then(&k, " = ");
    assert(s@.subrange(0, s@.len() as int) =~= s@);
    pw_cli_property_in(&s, 0, s.len(), &prefix)
}

/// `pwctl_line_value` of `s[lo..hi]`, with `prefix` holding `key = "`.
fn pwctl_line_value_in(s: &Vec<char>, lo: usize, hi: usize, prefix: &Vec<char>, Ghost(
    key,
): Ghost<Seq<char>>) -> (r: Option<String>)
    requires
        lo <= hi <= s.len(),
        prefix@ == key + " = \""@,
    ensures
        r.deep_view() == pwctl_line_value(s@.subrange(lo as int, hi as int), key),
{
    let (t0, t1) = trim_bounds(s, lo, hi);
    let (a, b) = strip_star_bounds(s, t0, t1);
    if has_prefix_in(s, a, b, prefix) {
        let c = a + prefix.len();
        assert(s@.subrange(a as int, b as int).skip(prefix@.len() as int) =~= s@.subrange(
            c as int,
            b as int,
        ));
        if c < b && s[b - 1] == '"' {
            assert(s@.subrange(c as int, b as int).drop_last() =~= s@.subrange(c as int, b - 1));
            Some(string_from_chars(s, c, b - 1))
        } else {
            None
        }
    } else {
        None
    }
}

/// The value of property `key` in `wpctl inspect` output: the first line
/// of the form `key = "value"` (possibly marked with `*`).
pub fn parse_pwctl_property(output: &str, key: &str) -> (r: Option<String>)
    ensures
        r.deep_view() == first_pwctl_value(lines(output@), key@),
{
    let s = chars_of(output);
    let k = chars_of(key);
    let prefix = chars_then(&k, " = \"");
    let ranges = line_ranges(&s);
    let ghost ls = lines(s@);
    let mut i: usize = 0;
    assert(ls.skip(0) =~= ls);
    while i < ranges.len()
        invariant
            i <= ranges.len(),
            ranges_within(s@, ranges@),
            range_views(s@, ranges@) == ls,
            ls.len() == ranges.len(),
            ls == lines(output@),
            prefix@ == key@ + " = \""@,
            first_pwctl_value(ls, key@) == first_pwctl_value(ls.skip(i as int), key@),
        decreases ranges.len() - i,
    {
        let (lo, hi) = ranges[i];
        assert(ranges@[i as int].0 <= ranges@[i as int].1 <= s.len());
        let v = pwctl_line_value_in(&s, lo, hi, &prefix, Ghost(key@));
        assert(ls.skip(i as int)[0] == s@.subrange(lo as int, hi as int));
        assert(ls.skip(i as int).drop_first() =~= ls.skip(i + 1));
        assert(pwctl_line_value(ls.skip(i as int)[0], key@) == v.deep_view());
        if let Some(x) = v {
            assert(ls.skip(i as int).len() > 0);
            assert(first_pwctl_value(ls.skip(i as int), key@) == Some(x@));
            return Some(x);
        }
        i = i + 1;
    }
    assert(ls.skip(i as int) =~= seq![]);
    None
}


/// Whether a trimmed `pw-cli ls Node` line opens a new node.
pub open spec fn is_node_header(t: Seq<char>) -> bool {
    has_prefix(t, "id "@) && contains_seq(t, "PipeWire:Interface:Node"@)
}

/// `n` with the property that the trimmed line `t` sets, if any: the first
/// of `node.name`, `node.description`, `media.class` and
/// `device.profile.description` that the line carries.
pub open spec fn apply_node_line(n: NodeView, t: Seq<char>) -> NodeView {
    match pw_cli_property(t, "node.name"@) {
        Some(v) => NodeView { node_name: Some(v), ..n },
        None => match pw_cli_property(t, "node.description"@) {
            Some(v) => NodeView { node_description: Some(v), ..n },
            None => match pw_cli_property(t, "media.class"@) {
                Some(v) => NodeView { media_class: Some(v), ..n },
                None => match pw_cli_property(t, "device.profile.description"@) {
                    Some(v) => NodeView { device_profile_description: Some(v), ..n },
                    None => n,
                },
            },
        },
    }
}

/// The nodes completed so far and the node being read, after one more line.
pub open spec fn nodes_step(st: (Seq<NodeView>, Option<NodeView>), line: Seq<char>) -> (
    Seq<NodeView>,
    Option<NodeView>,
) {
    let t = trim(line);
    if is_node_header(t) {
        (
            match st.1 {
                Some(n) => st.0.push(n),
                None => st.0,
            },
            Some(empty_node()),
        )
    } else {
        match st.1 {
            Some(n) => (st.0, Some(apply_node_line(n, t))),
            None => st,
        }
    }
}

/// The state after reading the lines `ls` in order.
pub open spec fn nodes_fold(ls: Seq<Seq<char>>) -> (Seq<NodeView>, Option<NodeView>)
    decreases ls.len(),
{
    if ls.len() == 0 {
        (seq![], None)
    } else {
        nodes_step(nodes_fold(ls.drop_last()), ls.last())
    }
}

/// The nodes that a `pw-cli ls Node` output lists, in order.
pub open spec fn parsed_nodes(output: Seq<char>) -> Seq<NodeView> {
    let st = nodes_fold(lines(output));
    match st.1 {
        Some(n) => st.0.push(n),
        None => st.0,
    }
}

/// The `key = ` prefixes of the four properties that a node keeps.
struct PropertyPrefixes {
    name: Vec<char>,
    description: Vec<char>,
    class: Vec<char>,
    profile: Vec<char>,
}

impl PropertyPrefixes {
    spec fn wf(&self) -> bool {
        &&& self.name@ == "node.name"@ + " = "@
        &&& self.description@ == "node.description"@ + " = "@
        &&& self.class@ == "media.class"@ + " = "@
        &&& self.profile@ == "device.profile.description"@ + " = "@
    }

    fn new() -> (r: PropertyPrefixes)
        ensures
            r.wf(),
    {
        PropertyPrefixes {
            name: chars_then(&chars_of("node.name"), " = "),
            description: chars_then(&chars_of("node.description"), " = "),
            class: chars_then(&chars_of("media.class"), " = "),
            profile: chars_then(&chars_of("device.profile.description"), " = "),
        }
    }
}

/// `n` updated by the (trimmed) line `s[lo..hi]`.
fn apply_node_line_in(n: PipeWireNode, s: &Vec<char>, lo: usize, hi: usize, p: &PropertyPrefixes) -> (r: PipeWireNode)
    requires
        lo <= hi <= s.len(),
        p.wf(),
    ensures
        r@ == apply_node_line(n@, s@.subrange(lo as int, hi as int)),
{
    let mut n = n;
    if let Some(v) = pw_cli_property_in(s, lo, hi, &p.name) {
        n.node_name = Some(v);
    } else if let Some(v) = pw_cli_property_in(s, lo, hi, &p.description) {
        n.node_description = Some(v);
    } else if let Some(v) = pw_cli_property_in(s, lo, hi, &p.class) {
        n.media_class = Some(v);
    } else if let Some(v) = pw_cli_property_in(s, lo, hi, &p.profile) {
        n.device_profile_description = Some(v);
    }
    n
}

/// The nodes listed by `pw-cli ls Node` output: each line that starts with
/// `id ` and mentions `PipeWire:Interface:Node` opens a node, and the
/// property lines after it fill that node in.
pub fn parse_pipewire_nodes(output: &str) -> (r: Vec<PipeWireNode>)
    ensures
        nodes_view(r@) == parsed_nodes(output@),
{
    let s = chars_of(output);
    let ranges = line_ranges(&s);
    let ghost ls = lines(s@);
    let id_prefix = chars_of("id ");
    let header = chars_of("PipeWire:Interface:Node");
    let prefixes = PropertyPrefixes::new();
    let mut nodes: Vec<PipeWireNode> = Vec::new();
    let mut current: Option<PipeWireNode> = None;
    let mut k: usize = 0;
    assert(ls.take(0) =~= seq![]);
    assert(nodes_view(nodes@) =~= seq![]);
    while k < ranges.len()
        invariant
            k <= ranges.len(),
            ranges_within(s@, ranges@),
            range_views(s@, ranges@) == ls,
            ls.len() == ranges.len(),
            ls == lines(output@),
            id_prefix@ == "id "@,
            header@ == "PipeWire:Interface:Node"@,
            prefixes.wf(),
            (nodes_view(nodes@), opt_node_view(current)) == nodes_fold(ls.take(k as int)),
        decreases ranges.len() - k,
    {
        let (lo, hi) = ranges[k];
        assert(ranges@[k as int].0 <= ranges@[k as int].1 <= s.len());
        assert(ls[k as int] == s@.subrange(lo as int, hi as int));
        assert(ls.take(k + 1).drop_last() =~= ls.take(k as int));
        let (a, b) = trim_bounds(&s, lo, hi);
        let is_header = has_prefix_in(&s, a, b, &id_prefix) && contains_in(&s, a, b, &header);
        let ghost prev_nodes = nodes@;
        if is_header {
            match current {
                Some(n) => {
                    nodes.push(n);
                    assert(nodes_view(nodes@) =~= nodes_view(prev_nodes).push(n@));
                },
                None => {},
            }
            current = Some(PipeWireNode::new());
        } else {
            current = match current {
                Some(n) => Some(apply_node_line_in(n, &s, a, b, &prefixes)),
                None => None,
            };
        }
        k = k + 1;
    }
    assert(ls.take(k as int) =~= ls);
    let ghost prev_nodes = nodes@;
    match current {
        Some(n) => {
            nodes.push(n);
            assert(nodes_view(nodes@) =~= nodes_view(prev_nodes).push(n@));
        },
        None => {},
    }
    nodes
}


/// Whether `n` is a sink of the notebook's internal speaker: an audio sink
/// that is not one of the filter's own nodes and whose profile is
/// `Speaker`, whose description mentions `Speaker`, or whose name mentions
/// `Speaker__sink`.
pub open spec fn is_speaker_sink(n: NodeView) -> bool {
    &&& n.media_class == Some("Audio/Sink"@)
    &&& n.node_name != Some(PIPEWIRE_FILTER_MAIN_NODE@)
    &&& n.node_name != Some(PIPEWIRE_FILTER_STREAM_NODE@)
    &&& {
        ||| n.device_profile_description == Some("Speaker"@)
        ||| (n.node_description matches Some(d) && contains_seq(d, "Speaker"@))
        ||| (n.node_name matches Some(m) && contains_seq(m, "Speaker__sink"@))
    }
}

/// The first speaker sink of `ns`.
pub open spec fn first_speaker(ns: Seq<NodeView>) -> Option<NodeView>
    decreases ns.len(),
{
    if ns.len() == 0 {
        None
    } else if is_speaker_sink(ns[0]) {
        Some(ns[0])
    } else {
        first_speaker(ns.drop_first())
    }
}

/// The first node of `ns` whose `node.name` is `name`.
pub open spec fn first_named(ns: Seq<NodeView>, name: Seq<char>) -> Option<NodeView>
    decreases ns.len(),
{
    if ns.len() == 0 {
        None
    } else if ns[0].node_name == Some(name) {
        Some(ns[0])
    } else {
        first_named(ns.drop_first(), name)
    }
}

/// The output that the filter is attached to: the first speaker sink, or
/// else the node named by `node.name` in the `wpctl inspect` output of the
/// default sink.
pub open spec fn target_sink(ns: Seq<NodeView>, default_sink_inspect: Option<Seq<char>>) -> Option<
    NodeView,
> {
    match first_speaker(ns) {
        Some(n) => Some(n),
        None => match default_sink_inspect {
            Some(out) => match first_pwctl_value(lines(out), "node.name"@) {
                Some(name) => first_named(ns, name),
                None => None,
            },
            None => None,
        },
    }
}

/// The description of the default sink in its `wpctl inspect` output:
/// `node.description`, or else `device.description`.
pub open spec fn default_output_description(inspect: Seq<char>) -> Option<Seq<char>> {
    match first_pwctl_value(lines(inspect), "node.description"@) {
        Some(d) => Some(d),
        None => first_pwctl_value(lines(inspect), "device.description"@),
    }
}

/// Whether `n` is the filter's own sink, loaded in the session.
pub open spec fn is_filter_sink(n: NodeView) -> bool {
    n.node_name == Some(PIPEWIRE_FILTER_MAIN_NODE@) && n.media_class == Some("Audio/Sink"@)
}

/// Whether the filter's sink is among `ns`.
pub open spec fn filter_loaded(ns: Seq<NodeView>) -> bool {
    exists|i: int| 0 <= i < ns.len() && is_filter_sink(#[trigger] ns[i])
}

/// Whether `n` is a speaker sink.
pub fn is_speaker_sink_node(n: &PipeWireNode) -> (b: bool)
    ensures
        b == is_speaker_sink(n@),
{
    opt_is(&n.media_class, "Audio/Sink") && !opt_is(&n.node_name, PIPEWIRE_FILTER_MAIN_NODE)
        && !opt_is(&n.node_name, PIPEWIRE_FILTER_STREAM_NODE) && (opt_is(
        &n.device_profile_description,
        "Speaker",
    ) || opt_contains(&n.node_description, "Speaker") || opt_contains(
        &n.node_name,
        "Speaker__sink",
    ))
}

/// The first speaker sink among `nodes`.
pub fn find_speaker_sink(nodes: &Vec<PipeWireNode>) -> (r: Option<PipeWireNode>)
    ensures
        opt_node_view(r) == first_speaker(nodes_view(nodes@)),
{
    let ghost ns = nodes_view(nodes@);
    let mut i: usize = 0;
    assert(ns.skip(0) =~= ns);
    while i < nodes.len()
        invariant
            i <= nodes.len(),
            ns == nodes_view(nodes@),
            first_speaker(ns) == first_speaker(ns.skip(i as int)),
        decreases nodes.len() - i,
    {
        assert(ns.skip(i as int)[0] == nodes@[i as int]@);
        assert(ns.skip(i as int).drop_first() =~= ns.skip(i + 1));
        if is_speaker_sink_node(&nodes[i]) {
            return Some(nodes[i].copy());
        }
        i = i + 1;
    }
    assert(ns.skip(i as int) =~= seq![]);
    None
}

/// The first node among `nodes` whose `node.name` is `name`.
pub fn find_node_named(nodes: &Vec<PipeWireNode>, name: &String) -> (r: Option<PipeWireNode>)
    ensures
        opt_node_view(r) == first_named(nodes_view(nodes@), name@),
{
    let ghost ns = nodes_view(nodes@);
    let mut i: usize = 0;
    assert(ns.skip(0) =~= ns);
    while i < nodes.len()
        invariant
            i <= nodes.len(),
            ns == nodes_view(nodes@),
            first_named(ns, name@) == first_named(ns.skip(i as int), name@),
        decreases nodes.len() - i,
    {
        assert(ns.skip(i as int)[0] == nodes@[i as int]@);
        assert(ns.skip(i as int).drop_first() =~= ns.skip(i + 1));
        let matches = match &nodes[i].node_name {
            Some(m) => m.eq(name),
            None => false,
        };
        if matches {
            return Some(nodes[i].copy());
        }
        i = i + 1;
    }
    assert(ns.skip(i as int) =~= seq![]);
    None
}

/// Whether choosing the target output needs the default sink's
/// `wpctl inspect` output: true exactly when no speaker sink is listed.
pub fn needs_default_sink(nodes: &Vec<PipeWireNode>) -> (b: bool)
    ensures
        b == (first_speaker(nodes_view(nodes@)) is None),
{
    find_speaker_sink(nodes).is_none()
}

/// The output that the filter is attached to: the first speaker sink among
/// `nodes`, or else the node whose name the default sink's
/// `wpctl inspect` output gives (`None` when that output is not available).
pub fn detect_target_sink_from_nodes(
    nodes: &Vec<PipeWireNode>,
    default_sink_inspect: Option<String>,
) -> (r: Option<PipeWireNode>)
    ensures
        opt_node_view(r) == target_sink(nodes_view(nodes@), default_sink_inspect.deep_view()),
{
    if let Some(n) = find_speaker_sink(nodes) {
        return Some(n);
    }
    match default_sink_inspect {
        Some(out) => match parse_pwctl_property(out.as_str(), "node.name") {
            Some(name) => find_node_named(nodes, &name),
            None => None,
        },
        None => None,
    }
}

/// The `node.name` that the default sink's `wpctl inspect` output gives.
pub fn detect_default_output_node_name(inspect: &str) -> (r: Option<String>)
    ensures
        r.deep_view() == first_pwctl_value(lines(inspect@), "node.name"@),
{
    parse_pwctl_property(inspect, "node.name")
}

/// The description that the default sink's `wpctl inspect` output gives:
/// `node.description`, or else `device.description`.
pub fn detect_default_output_description(inspect: &str) -> (r: Option<String>)
    ensures
        r.deep_view() == default_output_description(inspect@),
{
    match parse_pwctl_property(inspect, "node.description") {
        Some(d) => Some(d),
        None => parse_pwctl_property(inspect, "device.description"),
    }
}

/// Whether the filter's own sink is among `nodes`.
pub fn filter_active(nodes: &Vec<PipeWireNode>) -> (b: bool)
    ensures
        b == filter_loaded(nodes_view(nodes@)),
{
    let ghost ns = nodes_view(nodes@);
    let mut i: usize = 0;
    while i < nodes.len()
        invariant
            i <= nodes.len(),
            ns == nodes_view(nodes@),
            forall|j: int| 0 <= j < i ==> !is_filter_sink(#[trigger] ns[j]),
        decreases nodes.len() - i,
    {
        assert(ns[i as int] == nodes@[i as int]@);
        if opt_is(&nodes[i].node_name, PIPEWIRE_FILTER_MAIN_NODE) && opt_is(
            &nodes[i].media_class,
            "Audio/Sink",
        ) {
            return true;
        }
        i = i + 1;
    }
    false
}


proof fn lemma_first_speaker_listed(ns: Seq<NodeView>)
    ensures
        first_speaker(ns) matches Some(n) ==> ns.contains(n) && is_speaker_sink(n),
    decreases ns.len(),
{
    if ns.len() > 0 && !is_speaker_sink(ns[0]) {
        lemma_first_speaker_listed(ns.drop_first());
        if let Some(n) = first_speaker(ns.drop_first()) {
            let k = choose|k: int| 0 <= k < ns.drop_first().len() && ns.drop_first()[k] == n;
            assert(ns[k + 1] == n);
        }
    } else if ns.len() > 0 {
        assert(ns[0] == ns[0]);
    }
}

proof fn lemma_first_named_listed(ns: Seq<NodeView>, name: Seq<char>)
    ensures
        first_named(ns, name) matches Some(n) ==> ns.contains(n) && n.node_name == Some(name),
    decreases ns.len(),
{
    if ns.len() > 0 && ns[0].node_name != Some(name) {
        lemma_first_named_listed(ns.drop_first(), name);
        if let Some(n) = first_named(ns.drop_first(), name) {
            let k = choose|k: int| 0 <= k < ns.drop_first().len() && ns.drop_first()[k] == n;
            assert(ns[k + 1] == n);
        }
    } else if ns.len() > 0 {
        assert(ns[0] == ns[0]);
    }
}

/// The output chosen for the filter is always one of the listed nodes: a
/// speaker sink, or a node carrying the default sink's name.
pub proof fn law_target_sink_is_listed(ns: Seq<NodeView>, default_sink_inspect: Option<Seq<char>>)
    ensures
        target_sink(ns, default_sink_inspect) matches Some(n) ==> ns.contains(n) && (
        is_speaker_sink(n) || (default_sink_inspect matches Some(out) && n.node_name
            == first_pwctl_value(lines(out), "node.name"@))),
{
    lemma_first_speaker_listed(ns);
    if let Some(out) = default_sink_inspect {
        if let Some(name) = first_pwctl_value(lines(out), "node.name"@) {
            lemma_first_named_listed(ns, name);
        }
    }
}

/// When a speaker sink is listed, the default sink plays no part in the
/// choice of the output: the first speaker sink is chosen.
pub proof fn law_speaker_sink_takes_precedence(
    ns: Seq<NodeView>,
    a: Option<Seq<char>>,
    b: Option<Seq<char>>,
)
    requires
        first_speaker(ns) is Some,
    ensures
        target_sink(ns, a) == target_sink(ns, b),
        target_sink(ns, a) == first_speaker(ns),
{
}

/// The number of lines of `ls` that open a node.
pub open spec fn header_count(ls: Seq<Seq<char>>) -> nat
    decreases ls.len(),
{
    if ls.len() == 0 {
        0
    } else {
        header_count(ls.drop_last()) + if is_node_header(trim(ls.last())) {
            1nat
        } else {
            0nat
        }
    }
}

proof fn lemma_nodes_fold_count(ls: Seq<Seq<char>>)
    ensures
        nodes_fold(ls).0.len() + (if nodes_fold(ls).1 is Some {
            1nat
        } else {
            0nat
        }) == header_count(ls),
        nodes_fold(ls).1 is None ==> nodes_fold(ls).0.len() == 0,
    decreases ls.len(),
{
    if ls.len() > 0 {
        lemma_nodes_fold_count(ls.drop_last());
    }
}

/// Every line that opens a node yields exactly one node, in order, and no
/// other line does.
pub proof fn law_one_node_per_header(output: Seq<char>)
    ensures
        parsed_nodes(output).len() == header_count(lines(output)),
{
    lemma_nodes_fold_count(lines(output));
}

/// A `wpctl inspect` output made of the single line `key = "value"` gives
/// back `value`, whatever it holds, as long as the key does not start with
/// whitespace or a `*` marker and no line ending occurs in the line; so
/// does the same line indented by spaces and marked with `* `, the way
/// `wpctl inspect` prints it.
pub proof fn law_pwctl_property_reads_back(key: Seq<char>, value: Seq<char>)
    requires
        key.len() > 0,
        !is_space(key[0]),
        key[0] != '*',
        forall|k: int| 0 <= k < key.len() ==> key[k] != '\n',
        forall|k: int| 0 <= k < value.len() ==> value[k] != '\n',
    ensures
        first_pwctl_value(lines(key + seq![' ', '=', ' ', '"'] + value + seq!['"']), key)
            == Some(value),
        forall|indent: Seq<char>|
            (forall|k: int| 0 <= k < indent.len() ==> #[trigger] indent[k] == ' ')
                ==> first_pwctl_value(
                lines(indent + seq!['*', ' '] + key + seq![' ', '=', ' ', '"'] + value + seq!['"']),
                key,
            ) == Some(value),
{
    reveal_strlit(" = \"");
    let prefix = key + seq![' ', '=', ' ', '"'];
    assert(prefix =~= key + " = \""@);
    let line = prefix + value + seq!['"'];
    assert forall|k: int| 0 <= k < line.len() implies line[k] != '\n' by {
        if k < key.len() {
            assert(line[k] == key[k]);
        } else if k >= prefix.len() && k < prefix.len() + value.len() {
            assert(line[k] == value[k - prefix.len()]);
        }
    }
    law_unterminated_last_line_is_kept(Seq::<char>::empty(), line);
    assert(line[0] == key[0]);
    assert(trim_start(line) == line);
    assert(line.last() == '"');
    assert(trim_end(line) == line);
    assert(trim(line) == line);
    assert(strip_star(line) == line);
    assert(line.take(prefix.len() as int) =~= prefix);
    let rest = line.skip(prefix.len() as int);
    assert(rest =~= value + seq!['"']);
    assert(rest.drop_last() =~= value);
    assert(pwctl_line_value(line, key) == Some(value));
    let ls = seq![line];
    assert(ls[0] == line);
    assert forall|indent: Seq<char>|
        (forall|k: int| 0 <= k < indent.len() ==> #[trigger] indent[k] == ' ') implies first_pwctl_value(
        lines(indent + seq!['*', ' '] + key + seq![' ', '=', ' ', '"'] + value + seq!['"']),
        key,
    ) == Some(value) by {
        lemma_starred_line_value(indent, line, key, value);
    }
}

proof fn lemma_trim_start_indent(indent: Seq<char>, x: Seq<char>)
    requires
        forall|k: int| 0 <= k < indent.len() ==> #[trigger] indent[k] == ' ',
    ensures
        trim_start(indent + x) == trim_start(x),
    decreases indent.len(),
{
    if indent.len() > 0 {
        assert(is_space(indent[0]));
        assert((indent + x)[0] == indent[0]);
        assert((indent + x).drop_first() =~= indent.drop_first() + x);
        lemma_trim_start_indent(indent.drop_first(), x);
    } else {
        assert(indent + x =~= x);
    }
}

proof fn lemma_starred_line_value(indent: Seq<char>, line: Seq<char>, key: Seq<char>, value: Seq<char>)
    requires
        forall|k: int| 0 <= k < indent.len() ==> #[trigger] indent[k] == ' ',
        line == key + seq![' ', '=', ' ', '"'] + value + seq!['"'],
        pwctl_line_value(line, key) == Some(value),
        trim(line) == line,
        line[0] == key[0],
        !is_space(key[0]),
        key[0] != '*',
        forall|k: int| 0 <= k < line.len() ==> line[k] != '\n',
    ensures
        first_pwctl_value(lines(indent + seq!['*', ' '] + key + seq![' ', '=', ' ', '"'] + value
            + seq!['"']), key) == Some(value),
{
    let starred = seq!['*', ' '] + line;
    let full = indent + starred;
    assert(full =~= indent + seq!['*', ' '] + key + seq![' ', '=', ' ', '"'] + value + seq!['"']);
    assert forall|k: int| 0 <= k < full.len() implies full[k] != '\n' by {
        if k < indent.len() {
            assert(full[k] == indent[k]);
        } else if k >= indent.len() + 2 {
            assert(full[k] == line[k - indent.len() - 2]);
        } else if k == indent.len() {
            assert(full[k] == '*');
        } else {
            assert(full[k] == ' ');
        }
    }
    assert(full.len() > 0);
    law_unterminated_last_line_is_kept(Seq::<char>::empty(), full);
    lemma_trim_start_indent(indent, starred);
    assert(starred[0] == '*');
    assert(trim_start(starred) == starred);
    assert(full.last() == '"');
    assert(trim_start(full).last() == '"');
    assert(trim_end(starred) == starred);
    assert(trim(full) == starred);
    assert(starred.drop_first() =~= seq![' '] + line);
    assert((seq![' '] + line)[0] == ' ');
    assert((seq![' '] + line).drop_first() =~= line);
    assert(trim_start(seq![' '] + line) == trim_start(line));
    assert(trim_start(line) == line);
    assert(line.last() == '"');
    assert(trim_end(line) == line);
    assert(strip_star(starred) == line);
    assert(strip_star(trim(full)) == line);
    assert(strip_star(line) == line);
    assert(strip_star(trim(line)) == line);
    assert(pwctl_line_value(full, key) == pwctl_line_value(line, key));
    let ls = seq![full];
    assert(ls[0] == full);
}

/// A value between quotes, trimmed of quotes at either end, is the value
/// itself when it neither starts nor ends with a quote of its own.
proof fn lemma_trim_quoted(value: Seq<char>)
    requires
        value.len() == 0 || (value[0] != '"' && value.last() != '"'),
    ensures
        trim_char(seq!['"'] + value + seq!['"'], '"') == value,
{
    let q = seq!['"'] + value + seq!['"'];
    assert(q[0] == '"');
    assert(q.drop_first() =~= value + seq!['"']);
    let r = value + seq!['"'];
    if value.len() == 0 {
        assert(r =~= seq!['"']);
        assert(r.drop_first() =~= Seq::<char>::empty());
        assert(trim_start_char(r.drop_first(), '"') == Seq::<char>::empty());
        assert(trim_start_char(r, '"') == Seq::<char>::empty());
        assert(trim_start_char(q, '"') == Seq::<char>::empty());
        assert(trim_end_char(Seq::<char>::empty(), '"') == Seq::<char>::empty());
        assert(value =~= Seq::<char>::empty());
    } else {
        assert(r[0] == value[0]);
        assert(trim_start_char(r, '"') == r);
        assert(trim_start_char(q, '"') == r);
        assert(r.last() == '"');
        assert(r.drop_last() =~= value);
        assert(trim_end_char(value, '"') == value);
        assert(trim_end_char(r, '"') == value);
    }
}

/// On a `pw-cli` line `key = "value"`, the property `key` reads back as
/// `value` when the value neither starts nor ends with a quote and the key
/// does not start with a `*` marker.
pub proof fn law_pw_cli_property_reads_back(key: Seq<char>, value: Seq<char>)
    requires
        key.len() > 0,
        key[0] != '*',
        value.len() == 0 || (value[0] != '"' && value.last() != '"'),
    ensures
        pw_cli_property(key + seq![' ', '=', ' ', '"'] + value + seq!['"'], key) == Some(value),
{
    reveal_strlit(" = ");
    let prefix = key + seq![' ', '=', ' '];
    assert(prefix =~= key + " = "@);
    let line = key + seq![' ', '=', ' ', '"'] + value + seq!['"'];
    assert(line =~= prefix + (seq!['"'] + value + seq!['"']));
    assert(line[0] == key[0]);
    assert(strip_star(line) == line);
    assert(line.take(prefix.len() as int) =~= prefix);
    assert(line.skip(prefix.len() as int) =~= seq!['"'] + value + seq!['"']);
    lemma_trim_quoted(value);
}

/// A line whose text differs from `p` at some position before `p` ends
/// does not start with `p`.
proof fn lemma_no_prefix_at(line: Seq<char>, p: Seq<char>, i: int)
    requires
        0 <= i < p.len(),
        i < line.len(),
        line[i] != p[i],
    ensures
        !has_prefix(line, p),
{
    if p.len() <= line.len() {
        assert(line.take(p.len() as int)[i] != p[i]);
    }
}

/// Each property line of a node sets its own property of the node being
/// read, to the quoted value verbatim, and leaves the others as they were:
/// `node.name`, `node.description`, `media.class` and
/// `device.profile.description`.
pub proof fn law_property_line_sets_its_field(n: NodeView, value: Seq<char>)
    requires
        value.len() == 0 || (value[0] != '"' && value.last() != '"'),
    ensures
        apply_node_line(n, "node.name"@ + seq![' ', '=', ' ', '"'] + value + seq!['"'])
            == (NodeView { node_name: Some(value), ..n }),
        apply_node_line(n, "node.description"@ + seq![' ', '=', ' ', '"'] + value + seq!['"'])
            == (NodeView { node_description: Some(value), ..n }),
        apply_node_line(n, "media.class"@ + seq![' ', '=', ' ', '"'] + value + seq!['"'])
            == (NodeView { media_class: Some(value), ..n }),
        apply_node_line(
            n,
            "device.profile.description"@ + seq![' ', '=', ' ', '"'] + value + seq!['"'],
        ) == (NodeView { device_profile_description: Some(value), ..n }),
{
    reveal_strlit("node.name");
    reveal_strlit("node.description");
    reveal_strlit("media.class");
    reveal_strlit("device.profile.description");
    reveal_strlit(" = ");
    let tail = seq![' ', '=', ' ', '"'] + value + seq!['"'];
    let k_name = "node.name"@;
    let k_desc = "node.description"@;
    let k_class = "media.class"@;
    let k_prof = "device.profile.description"@;
    law_pw_cli_property_reads_back(k_name, value);
    law_pw_cli_property_reads_back(k_desc, value);
    law_pw_cli_property_reads_back(k_class, value);
    law_pw_cli_property_reads_back(k_prof, value);
    let l_desc = k_desc + tail;
    let l_class = k_class + tail;
    let l_prof = k_prof + tail;
    assert(k_desc + tail =~= k_desc + seq![' ', '=', ' ', '"'] + value + seq!['"']);
    assert(k_class + tail =~= k_class + seq![' ', '=', ' ', '"'] + value + seq!['"']);
    assert(k_prof + tail =~= k_prof + seq![' ', '=', ' ', '"'] + value + seq!['"']);
    assert(strip_star(l_desc) == l_desc);
    assert(strip_star(l_class) == l_class);
    assert(strip_star(l_prof) == l_prof);
    lemma_no_prefix_at(l_desc, k_name + " = "@, 5);
    assert(pw_cli_property(l_desc, k_name) is None);
    lemma_no_prefix_at(l_class, k_name + " = "@, 0);
    lemma_no_prefix_at(l_class, k_desc + " = "@, 0);
    assert(pw_cli_property(l_class, k_name) is None);
    assert(pw_cli_property(l_class, k_desc) is None);
    lemma_no_prefix_at(l_prof, k_name + " = "@, 0);
    lemma_no_prefix_at(l_prof, k_desc + " = "@, 0);
    lemma_no_prefix_at(l_prof, k_class + " = "@, 0);
    assert(pw_cli_property(l_prof, k_name) is None);
    assert(pw_cli_property(l_prof, k_desc) is None);
    assert(pw_cli_property(l_prof, k_class) is None);
}

} // verus!
