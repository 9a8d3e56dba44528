//! The PipeWire `filter-chain` configuration that the panel writes: a
//! 10-band parametric equalizer, an optional stereo-widening stage, and a
//! smart filter attached to the notebook's output.

use vstd::prelude::*;

use crate::pipewire::{
    NodeView, PIPEWIRE_FILTER_MAIN_NODE, PIPEWIRE_FILTER_STREAM_NODE, PipeWireNode,
};
use crate::text::{
    replace_all, chars_of, contains_in, contains_seq, decimal, lemma_contains_in_middle, occurs_at, push_decimal, push_str,
    string_from_chars,
};
use crate::APP_NAME;

verus! {

/// Centre frequencies of the equalizer bands, in Hz.
pub const EQUALIZER_FREQUENCIES_HZ: [u32; 10] = [
    32,
    64,
    125,
    250,
    500,
    1000,
    2000,
    4000,
    8000,
    16000,
];

/// `node.description` and `media.name` of the filter.
pub const PIPEWIRE_FILTER_DESCRIPTION: &'static str = "Galaxy Book Sound";

/// `filter.smart.name` of the filter.
pub const PIPEWIRE_FILTER_NAME: &'static str = "galaxybook-sound";

/// File name of the configuration drop-in.
pub const PIPEWIRE_FILTER_CONFIG_NAME: &'static str = "99-galaxybook-sound.conf";

/// A character as it stands inside a double-quoted SPA string: a backslash
/// or a double quote gets a backslash before it.
pub open spec fn escape_char(c: char) -> Seq<char> {
    if c == '\\' {
        seq!['\\', '\\']
    } else if c == '"' {
        seq!['\\', '"']
    } else {
        seq![c]
    }
}

/// `s` as it stands inside a double-quoted SPA string.
pub open spec fn escape_spa(s: Seq<char>) -> Seq<char>
    decreases s.len(),
{
    if s.len() == 0 {
        seq![]
    } else {
        escape_spa(s.drop_last()) + escape_char(s.last())
    }
}

/// `s` with each backslash-escaped character taken literally: the reading
/// of a double-quoted SPA string's contents.
pub open spec fn unescape_spa(s: Seq<char>) -> Seq<char>
    decreases s.len(),
{
    if s.len() == 0 {
        seq![]
    } else if s[0] == '\\' && s.len() >= 2 {
        seq![s[1]] + unescape_spa(s.skip(2))
    } else {
        seq![s[0]] + unescape_spa(s.drop_first())
    }
}

proof fn lemma_escape_concat(a: Seq<char>, b: Seq<char>)
    ensures
        escape_spa(a + b) == escape_spa(a) + escape_spa(b),
    decreases b.len(),
{
    if b.len() == 0 {
        assert(a + b =~= a);
        assert(escape_spa(a) + escape_spa(b) =~= escape_spa(a));
    } else {
        assert((a + b).drop_last() =~= a + b.drop_last());
        assert((a + b).last() == b.last());
        lemma_escape_concat(a, b.drop_last());
        assert(escape_spa(a) + escape_spa(b.drop_last()) + escape_char(b.last()) =~= escape_spa(a)
            + (escape_spa(b.drop_last()) + escape_char(b.last())));
    }
}

/// Reading back an escaped string gives back the same string: escaping
/// loses nothing, so a target name or label survives the configuration
/// file unchanged.
pub proof fn law_escape_round_trip(s: Seq<char>)
    ensures
        unescape_spa(escape_spa(s)) == s,
    decreases s.len(),
{
    if s.len() > 0 {
        let c = s[0];
        let rest = s.drop_first();
        assert(s =~= seq![c] + rest);
        lemma_escape_concat(seq![c], rest);
        assert(seq![c].drop_last() =~= Seq::<char>::empty());
        assert(seq![c].last() == c);
        assert(escape_spa(Seq::<char>::empty()) == Seq::<char>::empty());
        assert(Seq::<char>::empty() + escape_char(c) =~= escape_char(c));
        assert(escape_spa(seq![c]) =~= escape_char(c));
        law_escape_round_trip(rest);
        let e = escape_spa(s);
        if c == '\\' || c == '"' {
            assert(e[0] == '\\' && e[1] == c);
            assert(e.skip(2) =~= escape_spa(rest));
        } else {
            assert(e[0] == c);
            assert(e.drop_first() =~= escape_spa(rest));
        }
        assert(unescape_spa(e) =~= s);
    }
}

/// `s` with each `c` replaced by `rep`, from left to right.
spec fn map_char(s: Seq<char>, c: char, rep: Seq<char>) -> Seq<char>
    decreases s.len(),
{
    if s.len() == 0 {
        seq![]
    } else {
        (if s[0] == c {
            rep
        } else {
            seq![s[0]]
        }) + map_char(s.drop_first(), c, rep)
    }
}

proof fn lemma_replace_single_char(s: Seq<char>, c: char, rep: Seq<char>)
    ensures
        replace_all(s, seq![c], rep) == map_char(s, c, rep),
    decreases s.len(),
{
    if s.len() > 0 {
        lemma_replace_single_char(s.drop_first(), c, rep);
        assert(s.skip(1) =~= s.drop_first());
        if s[0] == c {
            assert(s.take(1) =~= seq![c]);
        } else {
            assert(s.take(1)[0] != seq![c][0]);
        }
    }
}

proof fn lemma_map_char_concat(a: Seq<char>, b: Seq<char>, c: char, rep: Seq<char>)
    ensures
        map_char(a + b, c, rep) == map_char(a, c, rep) + map_char(b, c, rep),
    decreases a.len(),
{
    if a.len() == 0 {
        assert(a + b =~= b);
        assert(map_char(a, c, rep) + map_char(b, c, rep) =~= map_char(b, c, rep));
    } else {
        assert((a + b).drop_first() =~= a.drop_first() + b);
        assert((a + b)[0] == a[0]);
        lemma_map_char_concat(a.drop_first(), b, c, rep);
        let head = if a[0] == c {
            rep
        } else {
            seq![a[0]]
        };
        assert(head + (map_char(a.drop_first(), c, rep) + map_char(b, c, rep)) =~= head
            + map_char(a.drop_first(), c, rep) + map_char(b, c, rep));
    }
}

proof fn lemma_map_char_single(x: char, c: char, rep: Seq<char>)
    ensures
        map_char(seq![x], c, rep) == (if x == c {
            rep
        } else {
            seq![x]
        }),
{
    assert(seq![x].drop_first() =~= Seq::<char>::empty());
    assert(seq![x][0] == x);
    assert(map_char(Seq::<char>::empty(), c, rep) == Seq::<char>::empty());
    let head = if x == c {
        rep
    } else {
        seq![x]
    };
    assert(head + Seq::<char>::empty() =~= head);
}

/// Escaping a string is the same as replacing, in it, every backslash by
/// two backslashes and then every double quote by a backslash and a double
/// quote.
pub proof fn law_escape_is_two_replacements(s: Seq<char>)
    ensures
        escape_spa(s) == replace_all(
            replace_all(s, seq!['\\'], seq!['\\', '\\']),
            seq!['"'],
            seq!['\\', '"'],
        ),
    decreases s.len(),
{
    let bs = seq!['\\', '\\'];
    let qt = seq!['\\', '"'];
    lemma_replace_single_char(s, '\\', bs);
    lemma_replace_single_char(map_char(s, '\\', bs), '"', qt);
    if s.len() > 0 {
        let init = s.drop_last();
        let l = s.last();
        law_escape_is_two_replacements(init);
        lemma_replace_single_char(init, '\\', bs);
        lemma_replace_single_char(map_char(init, '\\', bs), '"', qt);
        assert(init + seq![l] =~= s);
        lemma_map_char_concat(init, seq![l], '\\', bs);
        lemma_map_char_single(l, '\\', bs);
        let one = map_char(seq![l], '\\', bs);
        lemma_map_char_concat(map_char(init, '\\', bs), one, '"', qt);
        if l == '\\' {
            assert(bs =~= seq!['\\'] + seq!['\\']);
            lemma_map_char_concat(seq!['\\'], seq!['\\'], '"', qt);
            lemma_map_char_single('\\', '"', qt);
            assert(map_char(one, '"', qt) =~= escape_char(l));
        } else {
            lemma_map_char_single(l, '"', qt);
            assert(map_char(one, '"', qt) =~= escape_char(l));
        }
    }
}

/// Appends `escape_spa(s)` to `out`.
fn push_escaped(out: &mut Vec<char>, s: &str)
    ensures
        final(out)@ == old(out)@ + escape_spa(s@),
{
    let t = crate::text::chars_of(s);
    let ghost start = out@;
    let mut i: usize = 0;
    assert(t@.take(0) =~= seq![]);
    assert(start + seq![] =~= start);
    while i < t.len()
        invariant
            i <= t.len(),
            out@ == start + escape_spa(t@.take(i as int)),
        decreases t.len() - i,
    {
        let c = t[i];
        assert(t@.take(i + 1).drop_last() =~= t@.take(i as int));
        let ghost before = out@;
        if c == '\\' {
            out.push('\\');
            out.push('\\');
        } else if c == '"' {
            out.push('\\');
            out.push('"');
        } else {
            out.push(c);
        }
        assert(out@ =~= before + escape_char(c));
        assert(out@ =~= start + escape_spa(t@.take(i + 1)));
        i = i + 1;
    }
    assert(t@.take(i as int) =~= s@);
}

/// `value` with backslashes and double quotes escaped for a double-quoted
/// SPA string.
pub fn escape_spa_string(value: &str) -> (r: String)
    ensures
        r@ == escape_spa(value@),
{
    let mut out: Vec<char> = Vec::new();
    push_escaped(&mut out, value);
    assert(out@ =~= escape_spa(value@));
    string_from_chars(&out, 0, out.len())
}


/// Start of a band line, up to its frequency.
pub const FILTER_LINE_HEAD: &'static str = "\t\t\t\t\t{ type = bq_peaking freq = ";

/// Between a band's frequency and its gain.
pub const FILTER_LINE_GAIN: &'static str = ".0 gain = ";

/// End of a band line: its Q.
pub const FILTER_LINE_TAIL: &'static str = " q = 1.0 }";

/// Separator between two band lines.
pub const LINE_BREAK: &'static str = "\n";

/// Opening of the filter graph, up to the equalizer's band list.
pub const GRAPH_HEAD: &'static str = "\t        filter.graph = {\n\t            nodes = [\n\t\t\t\t{\n\t\t\t\t\ttype = builtin\n\t\t\t\t\tname = eq\n\t\t\t\t\tlabel = param_eq\n\t\t\t\t\tconfig = {\n\t\t\t\t\t\tfilters = [\n";

/// Closing of the band list and of the equalizer node.
pub const GRAPH_FILTERS_END: &'static str = "\n\t\t\t\t\t\t]\n\t\t\t\t\t}\n\t\t\t\t}\n";

/// End of the node list and opening of the link list.
pub const GRAPH_LINKS_OPEN: &'static str = "\t            ]\n\t            links = [\n";

/// End of the link list, the graph inputs, and the opening of its outputs.
pub const GRAPH_INPUTS: &'static str = "\t            ]\n\t            inputs = [\n\t\t\t\t\"eq:In 1\"\n\t\t\t\t\"eq:In 2\"\n\t            ]\n\t            outputs = [\n";

/// Closing of the graph outputs and of the graph.
pub const GRAPH_TAIL: &'static str = "\n\t            ]\n\t        }\n";

/// The two mixer nodes of the widening stage: each side keeps its channel
/// at gain 1.08 and mixes in the other at -0.08.
pub const ATMOS_NODES: &'static str = "\t\t\t\t{\n\t\t\t\t\ttype = builtin\n\t\t\t\t\tname = widen_l\n\t\t\t\t\tlabel = mixer\n\t\t\t\t\tcontrol = { \"Gain 1\" = 1.08 \"Gain 2\" = -0.08 }\n\t\t\t\t}\n\t\t\t\t{\n\t\t\t\t\ttype = builtin\n\t\t\t\t\tname = widen_r\n\t\t\t\t\tlabel = mixer\n\t\t\t\t\tcontrol = { \"Gain 1\" = -0.08 \"Gain 2\" = 1.08 }\n\t\t\t\t}\n";

/// The links from the equalizer to the widening stage.
pub const ATMOS_LINKS: &'static str = "\t\t\t\t{ output = \"eq:Out 1\" input = \"widen_l:In 1\" }\n\t\t\t\t{ output = \"eq:Out 2\" input = \"widen_l:In 2\" }\n\t\t\t\t{ output = \"eq:Out 1\" input = \"widen_r:In 1\" }\n\t\t\t\t{ output = \"eq:Out 2\" input = \"widen_r:In 2\" }\n";

/// The graph outputs when the widening stage is on.
pub const ATMOS_OUTPUTS: &'static str = "\t\t\t\t\"widen_l:Out\"\n\t\t\t\t\"widen_r:Out\"";

/// The graph outputs of the equalizer alone.
pub const EQ_OUTPUTS: &'static str = "\t\t\t\t\"eq:Out 1\"\n\t\t\t\t\"eq:Out 2\"";

/// Start of the header comment, before the application name.
pub const CONFIG_GENERATED: &'static str = "# Generated by ";

/// Rest of the header, up to the target label.
pub const CONFIG_TARGET: &'static str = ". Changes will be overwritten.\n# Target output: ";

/// Opening of the filter-chain module, up to its description.
pub const CONFIG_MODULE_OPEN: &'static str = "\ncontext.modules = [\n\t{ name = libpipewire-module-filter-chain\n\t    flags = [ nofail ]\n\t    args = {\n\t        node.description = \"";

/// Between the filter's description and its media name.
pub const CONFIG_MEDIA_NAME: &'static str = "\"\n\t        media.name = \"";

/// After the filter's media name.
pub const CONFIG_ARGS_END: &'static str = "\"\n";

/// Opening of the capture properties, up to its node name.
pub const CONFIG_CAPTURE_OPEN: &'static str = "\t        capture.props = {\n\t            node.name = \"";

/// Capture position and media class.
pub const CONFIG_CAPTURE_CLASS: &'static str = "\"\n\t            audio.position = [ FL FR ]\n\t            media.class = Audio/Sink\n\t            ";

/// The capture property that makes the filter a smart filter.
pub const FILTER_SMART_ON: &'static str = "filter.smart = true";

/// Before the smart filter's name.
pub const CONFIG_SMART_NAME: &'static str = "\n\t            filter.smart.name = \"";

/// Between the smart filter's name and its target node name.
pub const CONFIG_SMART_TARGET: &'static str = "\"\n\t            filter.smart.target = { node.name = \"";

/// Closing of the capture properties and opening of the playback ones.
pub const CONFIG_PLAYBACK_OPEN: &'static str = "\" }\n\t        }\n\t        playback.props = {\n\t            node.name = \"";

/// Rest of the playback properties and closing of the module.
pub const CONFIG_TAIL: &'static str = "\"\n\t            audio.position = [ FL FR ]\n\t            node.passive = true\n\t            stream.dont-remix = true\n\t        }\n\t    }\n\t}\n]\n";

/// The texts of a list of gains.
pub open spec fn gains_view(g: Seq<String>) -> Seq<Seq<char>> {
    g.map_values(|s: String| s@)
}

/// One band of the parametric equalizer: a peaking biquad at `freq` Hz
/// (written with one decimal) with the given gain text and Q 1.0.
pub open spec fn filter_line_text(freq: u32, gain: Seq<char>) -> Seq<char> {
    FILTER_LINE_HEAD@ + decimal(freq as nat) + FILTER_LINE_GAIN@ + gain + FILTER_LINE_TAIL@
}

/// The first `n` bands, one per line.
pub open spec fn filter_lines_text(gains: Seq<Seq<char>>, n: nat) -> Seq<char>
    decreases n,
{
    if n == 0 {
        seq![]
    } else if n == 1 {
        filter_line_text(EQUALIZER_FREQUENCIES_HZ@[0], gains[0])
    } else {
        filter_lines_text(gains, (n - 1) as nat) + LINE_BREAK@ + filter_line_text(
            EQUALIZER_FREQUENCIES_HZ@[n - 1],
            gains[n - 1],
        )
    }
}

/// The filter graph: the equalizer node, then, with the Atmos-like mode on,
/// the widening stage and its links, and the graph's inputs and outputs.
pub open spec fn graph_text(atmos_enabled: bool, gains: Seq<Seq<char>>) -> Seq<char> {
    GRAPH_HEAD@ + filter_lines_text(gains, 10) + GRAPH_FILTERS_END@ + (if atmos_enabled {
        ATMOS_NODES@
    } else {
        seq![]
    }) + GRAPH_LINKS_OPEN@ + (if atmos_enabled {
        ATMOS_LINKS@
    } else {
        seq![]
    }) + GRAPH_INPUTS@ + (if atmos_enabled {
        ATMOS_OUTPUTS@
    } else {
        EQ_OUTPUTS@
    }) + GRAPH_TAIL@
}

/// The label of the target output in the header comment: its description,
/// or else its name.
pub open spec fn target_label(t: NodeView) -> Seq<char> {
    match t.node_description {
        Some(d) => d,
        None => match t.node_name {
            Some(n) => n,
            None => seq![],
        },
    }
}

/// The name of the target output, empty when unknown.
pub open spec fn target_name(t: NodeView) -> Seq<char> {
    match t.node_name {
        Some(n) => n,
        None => seq![],
    }
}

/// The configuration up to the value of the capture node's `node.name`.
pub open spec fn config_before_main(atmos_enabled: bool, gains: Seq<Seq<char>>, t: NodeView) -> Seq<
    char,
> {
    CONFIG_GENERATED@ + APP_NAME@ + CONFIG_TARGET@ + escape_spa(target_label(t))
        + CONFIG_MODULE_OPEN@ + PIPEWIRE_FILTER_DESCRIPTION@ + CONFIG_MEDIA_NAME@
        + PIPEWIRE_FILTER_DESCRIPTION@ + CONFIG_ARGS_END@ + graph_text(atmos_enabled, gains)
        + CONFIG_CAPTURE_OPEN@
}

/// The capture properties between the capture node's name and
/// `filter.smart = true`.
pub open spec fn config_capture_class() -> Seq<char> {
    CONFIG_CAPTURE_CLASS@
}

/// The configuration after `filter.smart = true`.
pub open spec fn config_after_smart(t: NodeView) -> Seq<char> {
    CONFIG_SMART_NAME@ + PIPEWIRE_FILTER_NAME@ + CONFIG_SMART_TARGET@ + escape_spa(target_name(t))
        + CONFIG_PLAYBACK_OPEN@ + PIPEWIRE_FILTER_STREAM_NODE@ + CONFIG_TAIL@
}

/// The whole `filter-chain` configuration file for the target output `t`.
pub open spec fn config_text(atmos_enabled: bool, gains: Seq<Seq<char>>, t: NodeView) -> Seq<char> {
    config_before_main(atmos_enabled, gains, t) + PIPEWIRE_FILTER_MAIN_NODE@ + config_capture_class()
        + FILTER_SMART_ON@ + config_after_smart(t)
}

/// Appends the ten band lines to `out`.
fn push_filter_lines(out: &mut Vec<char>, gains: &Vec<String>)
    requires
        gains.len() == 10,
    ensures
        final(out)@ == old(out)@ + filter_lines_text(gains_view(gains@), 10),
{
    let ghost start = out@;
    let ghost g = gains_view(gains@);
    let freqs = EQUALIZER_FREQUENCIES_HZ;
    let mut i: usize = 0;
    assert(start + seq![] =~= start);
    while i < 10
        invariant
            i <= 10,
            gains.len() == 10,
            g == gains_view(gains@),
            freqs@ == EQUALIZER_FREQUENCIES_HZ@,
            out@ == start + filter_lines_text(g, i as nat),
        decreases 10 - i,
    {
        let ghost before = out@;
        if i > 0 {
            push_str(out, LINE_BREAK);
        }
        push_str(out, FILTER_LINE_HEAD);
        push_decimal(out, freqs[i]);
        push_str(out, FILTER_LINE_GAIN);
        push_str(out, gains[i].as_str());
        push_str(out, FILTER_LINE_TAIL);
        assert(g[i as int] == gains@[i as int]@);
        if i > 0 {
            assert(out@ =~= before + LINE_BREAK@ + filter_line_text(freqs@[i as int], g[i as int]));
        } else {
            assert(out@ =~= before + filter_line_text(freqs@[i as int], g[i as int]));
        }
        i = i + 1;
    }
}

/// Appends the filter graph to `out`.
fn push_graph(out: &mut Vec<char>, atmos_enabled: bool, gains: &Vec<String>)
    requires
        gains.len() == 10,
    ensures
        final(out)@ == old(out)@ + graph_text(atmos_enabled, gains_view(gains@)),
{
    let ghost start = out@;
    push_str(out, GRAPH_HEAD);
    push_filter_lines(out, gains);
    push_str(out, GRAPH_FILTERS_END);
    if atmos_enabled {
        push_str(out, ATMOS_NODES);
    }
    let ghost after_nodes = out@;
    push_str(out, GRAPH_LINKS_OPEN);
    if atmos_enabled {
        push_str(out, ATMOS_LINKS);
    }
    let ghost after_links = out@;
    push_str(out, GRAPH_INPUTS);
    if atmos_enabled {
        push_str(out, ATMOS_OUTPUTS);
    } else {
        push_str(out, EQ_OUTPUTS);
    }
    push_str(out, GRAPH_TAIL);
    assert(out@ =~= start + graph_text(atmos_enabled, gains_view(gains@)));
}

/// The `filter-chain` configuration for the target output: a header naming
/// the target, the filter graph (equalizer with the ten gains, in band
/// order, and with `atmos_enabled` the widening stage), and a smart filter
/// attached to the target's `node.name`. `gains` holds the effective gain
/// of each band as text.
pub fn build_pipewire_filter_config(
    atmos_enabled: bool,
    gains: &Vec<String>,
    target: &PipeWireNode,
) -> (r: String)
    requires
        gains.len() == 10,
    ensures
        r@ == config_text(atmos_enabled, gains_view(gains@), target@),
{
    let mut out: Vec<char> = Vec::new();
    push_str(&mut out, CONFIG_GENERATED);
    push_str(&mut out, APP_NAME);
    push_str(&mut out, CONFIG_TARGET);
    match &target.node_description {
        Some(d) => push_escaped(&mut out, d.as_str()),
        None => match &target.node_name {
            Some(n) => push_escaped(&mut out, n.as_str()),
            None => push_escaped(&mut out, ""),
        },
    }
    proof {
        reveal_strlit("");
    }
    push_str(&mut out, CONFIG_MODULE_OPEN);
    push_str(&mut out, PIPEWIRE_FILTER_DESCRIPTION);
    push_str(&mut out, CONFIG_MEDIA_NAME);
    push_str(&mut out, PIPEWIRE_FILTER_DESCRIPTION);
    push_str(&mut out, CONFIG_ARGS_END);
    push_graph(&mut out, atmos_enabled, gains);
    push_str(&mut out, CONFIG_CAPTURE_OPEN);
    let ghost before_main = out@;
    assert(before_main =~= config_before_main(atmos_enabled, gains_view(gains@), target@));
    push_str(&mut out, PIPEWIRE_FILTER_MAIN_NODE);
    push_str(&mut out, CONFIG_CAPTURE_CLASS);
    push_str(&mut out, FILTER_SMART_ON);
    let ghost after_smart_start = out@;
    push_str(&mut out, CONFIG_SMART_NAME);
    push_str(&mut out, PIPEWIRE_FILTER_NAME);
    push_str(&mut out, CONFIG_SMART_TARGET);
    match &target.node_name {
        Some(n) => push_escaped(&mut out, n.as_str()),
        None => push_escaped(&mut out, ""),
    }
    push_str(&mut out, CONFIG_PLAYBACK_OPEN);
    push_str(&mut out, PIPEWIRE_FILTER_STREAM_NODE);
    push_str(&mut out, CONFIG_TAIL);
    assert(out@ =~= after_smart_start + config_after_smart(target@));
    assert(out@ =~= config_text(atmos_enabled, gains_view(gains@), target@));
    string_from_chars(&out, 0, out.len())
}


/// Every generated configuration names the filter's capture node and
/// makes it a smart filter, whatever the gains and the target.
pub proof fn law_config_declares_smart_sink(atmos_enabled: bool, gains: Seq<Seq<char>>, t: NodeView)
    ensures
        contains_seq(config_text(atmos_enabled, gains, t), PIPEWIRE_FILTER_MAIN_NODE@),
        contains_seq(config_text(atmos_enabled, gains, t), FILTER_SMART_ON@),
{
    let b = config_before_main(atmos_enabled, gains, t);
    let m = PIPEWIRE_FILTER_MAIN_NODE@;
    let c = config_capture_class();
    let f = FILTER_SMART_ON@;
    let a = config_after_smart(t);
    let text = config_text(atmos_enabled, gains, t);
    assert(text.subrange(b.len() as int, (b.len() + m.len()) as int) =~= m);
    assert(occurs_at(text, m, b.len() as int));
    let k = (b.len() + m.len() + c.len()) as int;
    assert(text.subrange(k, k + f.len()) =~= f);
    assert(occurs_at(text, f, k));
}

/// The configuration to write for `target`: the error `missing_name`
/// (the translated message saying so) when the target has no `node.name`,
/// since the smart filter could not be attached to it, otherwise the
/// configuration text for it.
pub fn pipewire_filter_config_for(
    atmos_enabled: bool,
    gains: &Vec<String>,
    target: &PipeWireNode,
    missing_name: String,
) -> (r: Result<String, String>)
    requires
        gains.len() == 10,
    ensures
        r is Err <==> target@.node_name is None,
        r matches Ok(text) ==> text@ == config_text(atmos_enabled, gains_view(gains@), target@),
        r matches Err(e) ==> e@ == missing_name@,
{
    if target.node_name.is_none() {
        return Err(missing_name);
    }
    Ok(build_pipewire_filter_config(atmos_enabled, gains, target))
}

/// Builds the configuration for a fixed speaker target and checks that it
/// names the filter's sink and enables the smart filter, failing with
/// `failure` (the translated message saying so) otherwise. The check always
/// passes: the result is `Ok` for every curve.
pub fn run_smoke_test(atmos_enabled: bool, gains: &Vec<String>, failure: String) -> (r: Result<
    (),
    String,
>)
    requires
        gains.len() == 10,
    ensures
        r is Ok,
{
    let target = PipeWireNode {
        node_name: Some(
            "alsa_output.pci-0000_00_1f.3-platform-skl_hda_dsp_generic.HiFi__Speaker__sink".to_owned(),
        ),
        node_description: Some("Meteor Lake-P HD Audio Controller Speaker".to_owned()),
        media_class: Some("Audio/Sink".to_owned()),
        device_profile_description: Some("Speaker".to_owned()),
    };
    let conf_text = build_pipewire_filter_config(atmos_enabled, gains, &target);
    let conf = chars_of(conf_text.as_str());
    let main_node = chars_of(PIPEWIRE_FILTER_MAIN_NODE);
    let smart_on = chars_of(FILTER_SMART_ON);
    proof {
        law_config_declares_smart_sink(atmos_enabled, gains_view(gains@), target@);
        assert(conf@.subrange(0, conf@.len() as int) =~= conf@);
    }
    if !contains_in(&conf, 0, conf.len(), &main_node) || !contains_in(
        &conf,
        0,
        conf.len(),
        &smart_on,
    ) {
        return Err(failure);
    }
    Ok(())
}


proof fn lemma_band_in_filter_lines(gains: Seq<Seq<char>>, n: nat, i: int)
    requires
        0 <= i < n,
    ensures
        contains_seq(
            filter_lines_text(gains, n),
            filter_line_text(EQUALIZER_FREQUENCIES_HZ@[i], gains[i]),
        ),
    decreases n,
{
    let line = filter_line_text(EQUALIZER_FREQUENCIES_HZ@[i], gains[i]);
    if i == n - 1 {
        if n == 1 {
            assert(filter_lines_text(gains, n).subrange(0, line.len() as int) =~= line);
            assert(occurs_at(filter_lines_text(gains, n), line, 0));
        } else {
            let prefix = filter_lines_text(gains, (n - 1) as nat) + LINE_BREAK@;
            assert(filter_lines_text(gains, n).subrange(
                prefix.len() as int,
                (prefix.len() + line.len()) as int,
            ) =~= line);
            assert(occurs_at(filter_lines_text(gains, n), line, prefix.len() as int));
        }
    } else {
        lemma_band_in_filter_lines(gains, (n - 1) as nat, i);
        let rest = LINE_BREAK@ + filter_line_text(EQUALIZER_FREQUENCIES_HZ@[n - 1], gains[n - 1]);
        lemma_contains_in_middle(seq![], filter_lines_text(gains, (n - 1) as nat), rest, line);
        assert(Seq::<char>::empty() + filter_lines_text(gains, (n - 1) as nat) + rest
            =~= filter_lines_text(gains, n));
    }
}

/// The configuration before the filter graph.
pub open spec fn config_before_graph(t: NodeView) -> Seq<char> {
    CONFIG_GENERATED@ + APP_NAME@ + CONFIG_TARGET@ + escape_spa(target_label(t))
        + CONFIG_MODULE_OPEN@ + PIPEWIRE_FILTER_DESCRIPTION@ + CONFIG_MEDIA_NAME@
        + PIPEWIRE_FILTER_DESCRIPTION@ + CONFIG_ARGS_END@
}

/// The configuration after the filter graph.
pub open spec fn config_after_graph(t: NodeView) -> Seq<char> {
    CONFIG_CAPTURE_OPEN@ + PIPEWIRE_FILTER_MAIN_NODE@ + config_capture_class() + FILTER_SMART_ON@
        + config_after_smart(t)
}

proof fn lemma_config_around_graph(atmos_enabled: bool, gains: Seq<Seq<char>>, t: NodeView)
    ensures
        config_text(atmos_enabled, gains, t) == config_before_graph(t) + graph_text(
            atmos_enabled,
            gains,
        ) + config_after_graph(t),
{
    assert(config_text(atmos_enabled, gains, t) =~= config_before_graph(t) + graph_text(
        atmos_enabled,
        gains,
    ) + config_after_graph(t));
}

/// Every band of the equalizer is in the configuration, as a peaking
/// filter at its own frequency with its own gain: the band's line carries
/// the gain text exactly as given, sign included.
pub proof fn law_every_band_is_configured(
    atmos_enabled: bool,
    gains: Seq<Seq<char>>,
    t: NodeView,
    i: int,
)
    requires
        0 <= i < 10,
    ensures
        contains_seq(
            config_text(atmos_enabled, gains, t),
            filter_line_text(EQUALIZER_FREQUENCIES_HZ@[i], gains[i]),
        ),
        contains_seq(
            config_text(atmos_enabled, gains, t),
            FILTER_LINE_HEAD@ + decimal(EQUALIZER_FREQUENCIES_HZ@[i] as nat) + FILTER_LINE_GAIN@
                + gains[i] + FILTER_LINE_TAIL@,
        ),
{
    let line = filter_line_text(EQUALIZER_FREQUENCIES_HZ@[i], gains[i]);
    assert(line == FILTER_LINE_HEAD@ + decimal(EQUALIZER_FREQUENCIES_HZ@[i] as nat)
        + FILTER_LINE_GAIN@ + gains[i] + FILTER_LINE_TAIL@);
    lemma_band_in_filter_lines(gains, 10, i);
    let g_after = GRAPH_FILTERS_END@ + (if atmos_enabled {
        ATMOS_NODES@
    } else {
        seq![]
    }) + GRAPH_LINKS_OPEN@ + (if atmos_enabled {
        ATMOS_LINKS@
    } else {
        seq![]
    }) + GRAPH_INPUTS@ + (if atmos_enabled {
        ATMOS_OUTPUTS@
    } else {
        EQ_OUTPUTS@
    }) + GRAPH_TAIL@;
    lemma_contains_in_middle(GRAPH_HEAD@, filter_lines_text(gains, 10), g_after, line);
    assert(GRAPH_HEAD@ + filter_lines_text(gains, 10) + g_after =~= graph_text(
        atmos_enabled,
        gains,
    ));
    lemma_contains_in_middle(
        config_before_graph(t),
        graph_text(atmos_enabled, gains),
        config_after_graph(t),
        line,
    );
    lemma_config_around_graph(atmos_enabled, gains, t);
}

/// With the Atmos-like mode on, the graph holds the two widening mixers,
/// their links from the equalizer, and takes its outputs from them; with
/// it off, the graph is the same text without those three insertions and
/// with the equalizer's own outputs.
pub proof fn law_atmos_adds_widening_stage(gains: Seq<Seq<char>>, t: NodeView)
    ensures
        contains_seq(config_text(true, gains, t), ATMOS_NODES@),
        contains_seq(config_text(true, gains, t), ATMOS_LINKS@),
        contains_seq(config_text(true, gains, t), ATMOS_OUTPUTS@),
        contains_seq(config_text(false, gains, t), EQ_OUTPUTS@),
        graph_text(true, gains) == GRAPH_HEAD@ + filter_lines_text(gains, 10) + GRAPH_FILTERS_END@
            + ATMOS_NODES@ + GRAPH_LINKS_OPEN@ + ATMOS_LINKS@ + GRAPH_INPUTS@ + ATMOS_OUTPUTS@
            + GRAPH_TAIL@,
        graph_text(false, gains) == GRAPH_HEAD@ + filter_lines_text(gains, 10)
            + GRAPH_FILTERS_END@ + GRAPH_LINKS_OPEN@ + GRAPH_INPUTS@ + EQ_OUTPUTS@ + GRAPH_TAIL@,
{
    let lines = filter_lines_text(gains, 10);
    let h = GRAPH_HEAD@ + lines + GRAPH_FILTERS_END@;
    assert(graph_text(false, gains) =~= GRAPH_HEAD@ + lines + GRAPH_FILTERS_END@
        + GRAPH_LINKS_OPEN@ + GRAPH_INPUTS@ + EQ_OUTPUTS@ + GRAPH_TAIL@);
    lemma_config_around_graph(true, gains, t);
    lemma_config_around_graph(false, gains, t);
    let before = config_before_graph(t);
    let after = config_after_graph(t);
    let g = graph_text(true, gains);
    let text = config_text(true, gains, t);
    let p1 = before + h;
    assert(text.subrange(p1.len() as int, (p1.len() + ATMOS_NODES@.len()) as int) =~= ATMOS_NODES@);
    assert(occurs_at(text, ATMOS_NODES@, p1.len() as int));
    let p2 = p1 + ATMOS_NODES@ + GRAPH_LINKS_OPEN@;
    assert(text.subrange(p2.len() as int, (p2.len() + ATMOS_LINKS@.len()) as int) =~= ATMOS_LINKS@);
    assert(occurs_at(text, ATMOS_LINKS@, p2.len() as int));
    let p3 = p2 + ATMOS_LINKS@ + GRAPH_INPUTS@;
    assert(text.subrange(p3.len() as int, (p3.len() + ATMOS_OUTPUTS@.len()) as int) =~= ATMOS_OUTPUTS@);
    assert(occurs_at(text, ATMOS_OUTPUTS@, p3.len() as int));
    let text_off = config_text(false, gains, t);
    let q = before + h + GRAPH_LINKS_OPEN@ + GRAPH_INPUTS@;
    assert(text_off.subrange(q.len() as int, (q.len() + EQ_OUTPUTS@.len()) as int) =~= EQ_OUTPUTS@);
    assert(occurs_at(text_off, EQ_OUTPUTS@, q.len() as int));
}

} // verus!
