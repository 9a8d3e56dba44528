use galaxybook_sound::filter_chain::pipewire_filter_config_for;
use galaxybook_sound::pipewire::PipeWireNode;
use galaxybook_sound::{build_pipewire_filter_config, escape_spa_string, run_smoke_test};

const FREQUENCIES: [u32; 10] = [32, 64, 125, 250, 500, 1000, 2000, 4000, 8000, 16000];
const OVERLAY_DB: [f64; 10] = [0.8, 1.1, 0.9, 0.5, 0.2, 0.0, 0.6, 0.9, 0.8, 0.6];
const CINEMA_DB: [f64; 10] = [1.8, 2.8, 2.2, 1.0, 0.3, 0.1, 1.0, 1.8, 1.2, 0.8];

fn gains_text(bands: [f64; 10], atmos: bool) -> Vec<String> {
    bands
        .iter()
        .enumerate()
        .map(|(index, gain)| {
            let value = if atmos {
                (gain + OVERLAY_DB[index]).clamp(-12.0, 12.0)
            } else {
                *gain
            };
            format!("{:.2}", value)
        })
        .collect()
}

fn speaker() -> PipeWireNode {
    PipeWireNode {
        node_name: Some("alsa_output.test.Speaker__sink".into()),
        node_description: Some("Notebook Speaker".into()),
        media_class: Some("Audio/Sink".into()),
        device_profile_description: Some("Speaker".into()),
    }
}

/// The configuration text written out with `format!`, band by band.
fn expected_config(bands: [f64; 10], atmos: bool, name: &str, label: &str) -> String {
    let filter_lines = FREQUENCIES
        .iter()
        .zip(gains_text(bands, atmos).iter())
        .map(|(frequency_hz, gain)| {
            format!(
                "\t\t\t\t\t{{ type = bq_peaking freq = {:.1} gain = {} q = 1.0 }}",
                *frequency_hz as f64, gain
            )
        })
        .collect::<Vec<_>>()
        .join("\n");
    let (extra_nodes, extra_links, outputs) = if atmos {
        (
            format!(
                "\t\t\t\t{{\n\t\t\t\t\ttype = builtin\n\t\t\t\t\tname = widen_l\n\t\t\t\t\tlabel = mixer\n\t\t\t\t\tcontrol = {{ \"Gain 1\" = {:.2} \"Gain 2\" = {:.2} }}\n\t\t\t\t}}\n\t\t\t\t{{\n\t\t\t\t\ttype = builtin\n\t\t\t\t\tname = widen_r\n\t\t\t\t\tlabel = mixer\n\t\t\t\t\tcontrol = {{ \"Gain 1\" = {:.2} \"Gain 2\" = {:.2} }}\n\t\t\t\t}}\n",
                1.08f64, -0.08f64, -0.08f64, 1.08f64
            ),
            "\t\t\t\t{ output = \"eq:Out 1\" input = \"widen_l:In 1\" }\n\t\t\t\t{ output = \"eq:Out 2\" input = \"widen_l:In 2\" }\n\t\t\t\t{ output = \"eq:Out 1\" input = \"widen_r:In 1\" }\n\t\t\t\t{ output = \"eq:Out 2\" input = \"widen_r:In 2\" }\n".to_string(),
            "\t\t\t\t\"widen_l:Out\"\n\t\t\t\t\"widen_r:Out\"".to_string(),
        )
    } else {
        (String::new(), String::new(), "\t\t\t\t\"eq:Out 1\"\n\t\t\t\t\"eq:Out 2\"".to_string())
    };
    let graph = format!(
        "\t        filter.graph = {{\n\t            nodes = [\n\t\t\t\t{{\n\t\t\t\t\ttype = builtin\n\t\t\t\t\tname = eq\n\t\t\t\t\tlabel = param_eq\n\t\t\t\t\tconfig = {{\n\t\t\t\t\t\tfilters = [\n{filter_lines}\n\t\t\t\t\t\t]\n\t\t\t\t\t}}\n\t\t\t\t}}\n{extra_nodes}\t            ]\n\t            links = [\n{extra_links}\t            ]\n\t            inputs = [\n\t\t\t\t\"eq:In 1\"\n\t\t\t\t\"eq:In 2\"\n\t            ]\n\t            outputs = [\n{outputs}\n\t            ]\n\t        }}\n"
    );
    format!(
        "# Generated by Galaxy Book Sound. Changes will be overwritten.\n# Target output: {label}\ncontext.modules = [\n\t{{ name = libpipewire-module-filter-chain\n\t    flags = [ nofail ]\n\t    args = {{\n\t        node.description = \"Galaxy Book Sound\"\n\t        media.name = \"Galaxy Book Sound\"\n{graph}\t        capture.props = {{\n\t            node.name = \"galaxybook_sound_sink\"\n\t            audio.position = [ FL FR ]\n\t            media.class = Audio/Sink\n\t            filter.smart = true\n\t            filter.smart.name = \"galaxybook-sound\"\n\t            filter.smart.target = {{ node.name = \"{name}\" }}\n\t        }}\n\t        playback.props = {{\n\t            node.name = \"galaxybook_sound_output\"\n\t            audio.position = [ FL FR ]\n\t            node.passive = true\n\t            stream.dont-remix = true\n\t        }}\n\t    }}\n\t}}\n]\n"
    )
}

#[test]
fn pipewire_config_without_atmos_keeps_eq_only() {
    let gains = gains_text([0.0; 10], false);
    let target = speaker();

    let conf = build_pipewire_filter_config(false, &gains, &target);

    assert!(conf.contains("label = param_eq"));
    assert!(!conf.contains("name = widen_l"));
    assert!(!conf.contains("name = widen_r"));
    assert!(conf.contains("\"eq:Out 1\""));
    assert!(conf.contains("\"eq:Out 2\""));
    assert!(conf.contains("filter.smart = true"));
}

#[test]
fn pipewire_config_with_atmos_adds_widening_stage() {
    let gains = gains_text(CINEMA_DB, true);
    let target = speaker();

    let conf = build_pipewire_filter_config(true, &gains, &target);

    assert!(conf.contains("name = widen_l"));
    assert!(conf.contains("name = widen_r"));
    assert!(conf.contains("\"widen_l:Out\""));
    assert!(conf.contains("\"widen_r:Out\""));
    assert!(conf.contains("\"Gain 1\" = 1.08"));
    assert!(conf.contains("\"Gain 2\" = -0.08"));
    assert!(conf.contains("{ output = \"eq:Out 1\" input = \"widen_l:In 1\" }"));
    assert!(!conf.contains("{{ output = \"eq:Out 1\" input = \"widen_l:In 1\" }}"));
}

#[test]
fn config_text_is_exact_without_atmos() {
    let conf = build_pipewire_filter_config(false, &gains_text([0.0; 10], false), &speaker());
    assert_eq!(
        conf,
        expected_config([0.0; 10], false, "alsa_output.test.Speaker__sink", "Notebook Speaker")
    );
    assert!(conf.contains("freq = 16000.0 gain = 0.00 q = 1.0"));
}

#[test]
fn config_text_is_exact_with_atmos() {
    let conf = build_pipewire_filter_config(true, &gains_text(CINEMA_DB, true), &speaker());
    assert_eq!(
        conf,
        expected_config(CINEMA_DB, true, "alsa_output.test.Speaker__sink", "Notebook Speaker")
    );
    assert!(conf.contains("freq = 32.0 gain = 2.60 q = 1.0"));
}

#[test]
fn config_escapes_target_and_falls_back_to_name() {
    let target = PipeWireNode {
        node_name: Some("odd\"name\\x".into()),
        node_description: None,
        media_class: None,
        device_profile_description: None,
    };
    let conf = build_pipewire_filter_config(false, &gains_text([0.0; 10], false), &target);
    assert_eq!(
        conf,
        expected_config([0.0; 10], false, "odd\\\"name\\\\x", "odd\\\"name\\\\x")
    );
    let unnamed = PipeWireNode::new();
    let conf = build_pipewire_filter_config(false, &gains_text([0.0; 10], false), &unnamed);
    assert_eq!(conf, expected_config([0.0; 10], false, "", ""));
}

#[test]
fn escape_spa_string_escapes_backslash_and_quote() {
    assert_eq!(escape_spa_string("plain"), "plain");
    assert_eq!(escape_spa_string("a\"b\\c"), "a\\\"b\\\\c");
    assert_eq!(escape_spa_string(""), "");
    assert_eq!(escape_spa_string("\\\""), "\\\\\\\"");
}

#[test]
fn config_for_target_needs_a_name() {
    let gains = gains_text([0.0; 10], false);
    let ok = pipewire_filter_config_for(false, &gains, &speaker(), "no name".to_string());
    assert_eq!(
        ok,
        Ok(expected_config([0.0; 10], false, "alsa_output.test.Speaker__sink", "Notebook Speaker"))
    );
    let mut nameless = speaker();
    nameless.node_name = None;
    assert_eq!(
        pipewire_filter_config_for(false, &gains, &nameless, "no name".to_string()),
        Err("no name".to_string())
    );
}

#[test]
fn smoke_test_passes() {
    assert_eq!(run_smoke_test(false, &gains_text([0.0; 10], false), "failed".to_string()), Ok(()));
    assert_eq!(run_smoke_test(true, &gains_text(CINEMA_DB, true), "failed".to_string()), Ok(()));
}

fn unescape(s: &str) -> String {
    let mut out = String::new();
    let mut chars = s.chars();
    while let Some(c) = chars.next() {
        if c == '\\' {
            match chars.next() {
                Some(next) => out.push(next),
                None => out.push(c),
            }
        } else {
            out.push(c);
        }
    }
    out
}

#[test]
fn escaping_round_trips_and_matches_two_replacements() {
    for value in ["", "plain", "a\"b", "back\\slash", "\\\"\\\"", "mixed \"q\" \\ end\\", "ünïcødé"] {
        let escaped = escape_spa_string(value);
        assert_eq!(unescape(&escaped), value);
        assert_eq!(escaped, value.replace('\\', "\\\\").replace('"', "\\\""));
    }
}

#[test]
fn every_band_is_in_the_configuration() {
    let gains = gains_text(CINEMA_DB, false);
    for atmos in [false, true] {
        let conf = build_pipewire_filter_config(atmos, &gains, &speaker());
        for (index, frequency) in FREQUENCIES.iter().enumerate() {
            let line = format!(
                "\t\t\t\t\t{{ type = bq_peaking freq = {:.1} gain = {} q = 1.0 }}",
                *frequency as f64, gains[index]
            );
            assert!(conf.contains(&line), "band {index} missing");
        }
    }
}
