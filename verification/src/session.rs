//! The state of the audio session as the panel reports it, computed from
//! what the PipeWire tools and the saved configuration give.

use vstd::prelude::*;

use crate::pipewire::{
    NodeView, PipeWireNode, default_output_description, detect_default_output_description,
    detect_target_sink_from_nodes, filter_active, filter_loaded, find_speaker_sink, first_speaker,
    nodes_view, target_sink,
};
use crate::text::copy_opt;

verus! {

/// What the panel knows of the audio session.
#[derive(Clone, Debug, PartialEq, Eq)]
pub struct SoundSessionState {
    pub pipewire_available: bool,
    pub config_present: bool,
    pub filter_active: bool,
    pub active_profile_name: Option<String>,
    pub target_output: Option<String>,
}

/// The model of a [`SoundSessionState`].
pub struct SessionView {
    pub pipewire_available: bool,
    pub config_present: bool,
    pub filter_active: bool,
    pub active_profile_name: Option<Seq<char>>,
    pub target_output: Option<Seq<char>>,
}

impl View for SoundSessionState {
    type V = SessionView;

    open spec fn view(&self) -> SessionView {
        SessionView {
            pipewire_available: self.pipewire_available,
            config_present: self.config_present,
            filter_active: self.filter_active,
            active_profile_name: self.active_profile_name.deep_view(),
            target_output: self.target_output.deep_view(),
        }
    }
}

impl Default for SoundSessionState {
    fn default() -> (r: SoundSessionState)
        ensures
            !r.pipewire_available,
            !r.config_present,
            !r.filter_active,
            r.active_profile_name is None,
            r.target_output is None,
    {
        SoundSessionState {
            pipewire_available: false,
            config_present: false,
            filter_active: false,
            active_profile_name: None,
            target_output: None,
        }
    }
}

/// The label of an output node: its description, or else its name.
pub open spec fn node_label(n: NodeView) -> Option<Seq<char>> {
    match n.node_description {
        Some(d) => Some(d),
        None => n.node_name,
    }
}

/// The output shown to the user: the label of the filter's target, or
/// else the description of the default sink.
pub open spec fn target_output_of(ns: Seq<NodeView>, default_sink_inspect: Option<Seq<char>>) -> Option<
    Seq<char>,
> {
    let from_target = match target_sink(ns, default_sink_inspect) {
        Some(n) => node_label(n),
        None => None,
    };
    match from_target {
        Some(label) => Some(label),
        None => match default_sink_inspect {
            Some(out) => default_output_description(out),
            None => None,
        },
    }
}

/// The session state for the given observations: whether `wpctl` and
/// `pw-cli` are available, whether the configuration drop-in exists, the
/// listed nodes, the default sink's `wpctl inspect` output and the preset
/// name of the saved configuration.
pub open spec fn session_state(
    pipewire_available: bool,
    config_present: bool,
    ns: Seq<NodeView>,
    default_sink_inspect: Option<Seq<char>>,
    saved_preset_name: Option<Seq<char>>,
) -> SessionView {
    if !pipewire_available {
        SessionView {
            pipewire_available: false,
            config_present,
            filter_active: false,
            active_profile_name: None,
            target_output: None,
        }
    } else {
        let active = filter_loaded(ns);
        SessionView {
            pipewire_available: true,
            config_present,
            filter_active: active,
            active_profile_name: if active {
                saved_preset_name
            } else {
                None
            },
            target_output: target_output_of(ns, default_sink_inspect),
        }
    }
}

/// Whether the session state needs the default sink's `wpctl inspect`
/// output: when no speaker sink is listed, or when the speaker sink has
/// neither a description nor a name.
pub open spec fn needs_inspect(ns: Seq<NodeView>) -> bool {
    match first_speaker(ns) {
        Some(n) => node_label(n) is None,
        None => true,
    }
}

/// Whether the session state needs the default sink's `wpctl inspect`
/// output (see [`needs_inspect`]).
pub fn session_needs_default_sink(nodes: &Vec<PipeWireNode>) -> (b: bool)
    ensures
        b == needs_inspect(nodes_view(nodes@)),
{
    match find_speaker_sink(nodes) {
        Some(n) => n.node_description.is_none() && n.node_name.is_none(),
        None => true,
    }
}

/// The session state: with PipeWire unavailable, only whether the
/// configuration is present; otherwise whether the filter's sink is loaded,
/// the preset name of the saved configuration while it is, and the output
/// that the filter is attached to.
pub fn collect_sound_session_state(
    pipewire_available: bool,
    config_present: bool,
    nodes: &Vec<PipeWireNode>,
    default_sink_inspect: Option<String>,
    saved_preset_name: Option<String>,
) -> (r: SoundSessionState)
    ensures
        r@ == session_state(
            pipewire_available,
            config_present,
            nodes_view(nodes@),
            default_sink_inspect.deep_view(),
            saved_preset_name.deep_view(),
        ),
{
    if !pipewire_available {
        return SoundSessionState {
            pipewire_available: false,
            config_present,
            filter_active: false,
            active_profile_name: None,
            target_output: None,
        };
    }
    let active = filter_active(nodes);
    let inspect_copy = copy_opt(&default_sink_inspect);
    let from_target = match detect_target_sink_from_nodes(nodes, inspect_copy) {
        Some(n) => match n.node_description {
            Some(d) => Some(d),
            None => n.node_name,
        },
        None => None,
    };
    let target_output = match from_target {
        Some(label) => Some(label),
        None => match &default_sink_inspect {
            Some(out) => detect_default_output_description(out.as_str()),
            None => None,
        },
    };
    SoundSessionState {
        pipewire_available: true,
        config_present,
        filter_active: active,
        active_profile_name: if active {
            saved_preset_name
        } else {
            None
        },
        target_output,
    }
}

/// The session state does not depend on the default sink's
/// `wpctl inspect` output when it is not needed, nor on the saved preset
/// name while the filter is not loaded; with PipeWire unavailable the
/// filter is never reported active. Whether the configuration drop-in is
/// present and whether PipeWire is available are reported as observed,
/// whatever the filter's state; the filter is active exactly when PipeWire
/// answers and the filter's sink is listed, and the saved preset name is
/// reported exactly then.
pub proof fn law_session_state_reads_only_what_it_needs(
    available: bool,
    config_present: bool,
    ns: Seq<NodeView>,
    a: Option<Seq<char>>,
    b: Option<Seq<char>>,
    p: Option<Seq<char>>,
    q: Option<Seq<char>>,
)
    ensures
        !needs_inspect(ns) ==> session_state(available, config_present, ns, a, p)
            == session_state(available, config_present, ns, b, p),
        !filter_loaded(ns) ==> session_state(available, config_present, ns, a, p)
            == session_state(available, config_present, ns, a, q),
        !available ==> !session_state(available, config_present, ns, a, p).filter_active
            && session_state(available, config_present, ns, a, p).active_profile_name is None,
        session_state(available, config_present, ns, a, p).active_profile_name is Some
            ==> session_state(available, config_present, ns, a, p).filter_active,
        session_state(available, config_present, ns, a, p).config_present == config_present,
        session_state(available, config_present, ns, a, p).pipewire_available == available,
        session_state(available, config_present, ns, a, p).filter_active == (available
            && filter_loaded(ns)),
        session_state(available, config_present, ns, a, p).active_profile_name == (if available
            && filter_loaded(ns) {
            p
        } else {
            None
        }),
{
}


/// What the panel says of the filter engine.
#[derive(Clone, Debug, PartialEq, Eq)]
pub enum EngineStatus {
    /// PipeWire or WirePlumber did not answer.
    PipeWireUnavailable,
    /// The filter is loaded and attached to the named output.
    ActiveOnOutput(String),
    /// The filter is loaded; its output is not known.
    Active,
    /// A configuration is saved but the filter is not loaded yet.
    ConfigPending,
    /// No configuration has been applied.
    NotApplied,
}

/// What the panel says of the active preset.
#[derive(Clone, Debug, PartialEq, Eq)]
pub enum ActivePreset {
    /// The named preset is active.
    Active(String),
    /// A configuration is saved but not active in the session.
    SavedNotActive,
    /// No preset is active.
    NoneActive,
}

/// The engine status for a session state.
pub fn engine_status(state: &SoundSessionState) -> (r: EngineStatus)
    ensures
        (r is PipeWireUnavailable) <==> !state.pipewire_available,
        (r is ActiveOnOutput) <==> state.pipewire_available && state.filter_active
            && state.target_output is Some,
        (r is Active) <==> state.pipewire_available && state.filter_active
            && state.target_output is None,
        (r is ConfigPending) <==> state.pipewire_available && !state.filter_active
            && state.config_present,
        (r is NotApplied) <==> state.pipewire_available && !state.filter_active
            && !state.config_present,
        r matches EngineStatus::ActiveOnOutput(o) ==> state.target_output.deep_view() == Some(o@),
{
    if !state.pipewire_available {
        EngineStatus::PipeWireUnavailable
    } else if state.filter_active {
        match &state.target_output {
            Some(output) => EngineStatus::ActiveOnOutput(output.clone()),
            None => EngineStatus::Active,
        }
    } else if state.config_present {
        EngineStatus::ConfigPending
    } else {
        EngineStatus::NotApplied
    }
}

/// The active-preset status for a session state.
pub fn active_preset_status(state: &SoundSessionState) -> (r: ActivePreset)
    ensures
        (r is Active) <==> state.active_profile_name is Some,
        (r is SavedNotActive) <==> state.active_profile_name is None && state.config_present,
        (r is NoneActive) <==> state.active_profile_name is None && !state.config_present,
        r matches ActivePreset::Active(name) ==> state.active_profile_name.deep_view() == Some(
            name@,
        ),
{
    match &state.active_profile_name {
        Some(name) => ActivePreset::Active(name.clone()),
        None => if state.config_present {
            ActivePreset::SavedNotActive
        } else {
            ActivePreset::NoneActive
        },
    }
}

} // verus!
