use galaxybook_sound::pipewire::{
    detect_default_output_description, detect_default_output_node_name,
    detect_target_sink_from_nodes, filter_active, find_node_named, find_speaker_sink,
    is_speaker_sink_node, needs_default_sink, parse_pipewire_nodes, parse_pw_cli_property,
    parse_pwctl_property, PipeWireNode,
};

const PW_CLI_OUTPUT: &str = "\tid 31, type PipeWire:Interface:Node/3\n \t\tobject.serial = \"31\"\n \t\tnode.description = \"Dummy-Driver\"\n \t\tnode.name = \"Dummy-Driver\"\n\tid 52, type PipeWire:Interface:Node/3\n \t\tobject.serial = \"52\"\n \t\tnode.description = \"Meteor Lake-P HD Audio Controller Speaker\"\n \t\tnode.name = \"alsa_output.pci-0000_00_1f.3-platform-skl_hda_dsp_generic.HiFi__Speaker__sink\"\n \t\tmedia.class = \"Audio/Sink\"\n \t\tdevice.profile.description = \"Speaker\"\n\tid 77, type PipeWire:Interface:Node/3\n \t\tnode.name = \"galaxybook_sound_sink\"\n*\t\tmedia.class = \"Audio/Sink\"\n";

fn node(name: Option<&str>, description: Option<&str>, class: Option<&str>, profile: Option<&str>) -> PipeWireNode {
    PipeWireNode {
        node_name: name.map(str::to_string),
        node_description: description.map(str::to_string),
        media_class: class.map(str::to_string),
        device_profile_description: profile.map(str::to_string),
    }
}

#[test]
fn pw_cli_property_strips_marker_and_quotes() {
    assert_eq!(
        parse_pw_cli_property("node.name = \"alsa_output.x\"", "node.name"),
        Some("alsa_output.x".to_string())
    );
    assert_eq!(
        parse_pw_cli_property("*  media.class = \"Audio/Sink\"", "media.class"),
        Some("Audio/Sink".to_string())
    );
    assert_eq!(parse_pw_cli_property("node.name = plain", "node.name"), Some("plain".to_string()));
    assert_eq!(parse_pw_cli_property("node.nick = \"x\"", "node.name"), None);
    assert_eq!(parse_pw_cli_property("node.name=\"x\"", "node.name"), None);
    assert_eq!(parse_pw_cli_property("node.name = \"\"\"", "node.name"), Some(String::new()));
}

#[test]
fn pwctl_property_needs_quoted_value() {
    let inspect = "id 49, type PipeWire:Interface:Node\n    alsa.card = \"0\"\n  * node.description = \"Meteor Lake Speaker\"\n  * node.name = \"alsa_output.speaker\"\n    node.nick = \"Speaker\"\n    device.description = \"Built-in Audio\"\n";
    assert_eq!(
        parse_pwctl_property(inspect, "node.name"),
        Some("alsa_output.speaker".to_string())
    );
    assert_eq!(
        detect_default_output_node_name(inspect),
        Some("alsa_output.speaker".to_string())
    );
    assert_eq!(
        detect_default_output_description(inspect),
        Some("Meteor Lake Speaker".to_string())
    );
    assert_eq!(parse_pwctl_property(inspect, "media.class"), None);
    assert_eq!(parse_pwctl_property("  node.name = \"open", "node.name"), None);
    assert_eq!(
        detect_default_output_description("    device.description = \"Built-in Audio\"\n"),
        Some("Built-in Audio".to_string())
    );
    assert_eq!(detect_default_output_description(""), None);
}

#[test]
fn nodes_are_read_from_pw_cli_output() {
    let nodes = parse_pipewire_nodes(PW_CLI_OUTPUT);
    assert_eq!(nodes.len(), 3);
    assert_eq!(
        nodes[0],
        node(Some("Dummy-Driver"), Some("Dummy-Driver"), None, None)
    );
    assert_eq!(
        nodes[1],
        node(
            Some("alsa_output.pci-0000_00_1f.3-platform-skl_hda_dsp_generic.HiFi__Speaker__sink"),
            Some("Meteor Lake-P HD Audio Controller Speaker"),
            Some("Audio/Sink"),
            Some("Speaker"),
        )
    );
    assert_eq!(
        nodes[2],
        node(Some("galaxybook_sound_sink"), None, Some("Audio/Sink"), None)
    );
    assert!(filter_active(&nodes));
    assert!(parse_pipewire_nodes("").is_empty());
    assert!(parse_pipewire_nodes("node.name = \"orphan\"\n").is_empty());
}

#[test]
fn speaker_sink_is_preferred() {
    let nodes = parse_pipewire_nodes(PW_CLI_OUTPUT);
    let speaker = find_speaker_sink(&nodes).expect("speaker");
    assert_eq!(speaker, nodes[1]);
    assert!(!needs_default_sink(&nodes));
    assert_eq!(detect_target_sink_from_nodes(&nodes, None), Some(nodes[1].clone()));
    assert_eq!(
        detect_target_sink_from_nodes(&nodes, Some("node.name = \"Dummy-Driver\"".to_string())),
        Some(nodes[1].clone())
    );
}

#[test]
fn speaker_rules() {
    assert!(is_speaker_sink_node(&node(Some("x"), None, Some("Audio/Sink"), Some("Speaker"))));
    assert!(is_speaker_sink_node(&node(Some("x"), Some("Internal Speaker"), Some("Audio/Sink"), None)));
    assert!(is_speaker_sink_node(&node(Some("alsa.HiFi__Speaker__sink"), None, Some("Audio/Sink"), None)));
    assert!(!is_speaker_sink_node(&node(Some("x"), Some("Speaker"), Some("Audio/Source"), None)));
    assert!(!is_speaker_sink_node(&node(Some("x"), Some("Headphones"), Some("Audio/Sink"), None)));
    assert!(!is_speaker_sink_node(&node(
        Some("galaxybook_sound_sink"),
        Some("Speaker"),
        Some("Audio/Sink"),
        Some("Speaker"),
    )));
    assert!(!is_speaker_sink_node(&node(
        Some("galaxybook_sound_output"),
        Some("Speaker"),
        Some("Audio/Sink"),
        None,
    )));
}

#[test]
fn default_sink_is_used_without_speaker() {
    let nodes = vec![
        node(Some("hdmi"), Some("HDMI"), Some("Audio/Sink"), None),
        node(Some("usb"), Some("USB DAC"), Some("Audio/Sink"), None),
    ];
    assert!(find_speaker_sink(&nodes).is_none());
    assert!(needs_default_sink(&nodes));
    let inspect = "id 60, type PipeWire:Interface:Node\n  * node.name = \"usb\"\n";
    assert_eq!(
        detect_target_sink_from_nodes(&nodes, Some(inspect.to_string())),
        Some(nodes[1].clone())
    );
    assert_eq!(find_node_named(&nodes, &"hdmi".to_string()), Some(nodes[0].clone()));
    assert_eq!(detect_target_sink_from_nodes(&nodes, None), None);
    assert_eq!(
        detect_target_sink_from_nodes(&nodes, Some("node.name = \"missing\"".to_string())),
        None
    );
    assert!(!filter_active(&nodes));
}
