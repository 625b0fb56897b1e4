use liischte::defaults::{
    encode_default_command, DefaultState, DefaultTarget, MetadataBinding,
};

#[test]
fn fields_take_json_wrapped_names() {
    let mut state = DefaultState::default();
    assert_eq!(state.sink, "unknown");

    // the value is the provider's JSON wrapping, not the name itself: the
    // field must hold the extracted name, not the raw text
    let changed = state.update(Some("default.audio.sink"), Some("{\"name\":\"alsa.headset\"}"));
    assert!(changed);
    assert_eq!(state.sink, "alsa.headset");
    assert_eq!(state.configured_sink, "unknown");
    assert_eq!(state.source, "unknown");
}

#[test]
fn identical_values_do_not_republish() {
    let mut state = DefaultState::default();
    assert!(state.update(Some("default.configured.audio.source"), Some("{\"name\":\"mic\"}")));
    // re-delivering the identical value triggers nothing
    assert!(!state.update(Some("default.configured.audio.source"), Some("{\"name\":\"mic\"}")));
    // a different value triggers again
    assert!(state.update(Some("default.configured.audio.source"), Some("{\"name\":\"mic2\"}")));
}

#[test]
fn malformed_values_fall_back_to_unknown() {
    let mut state = DefaultState::default();
    state.update(Some("default.audio.source"), Some("{\"name\":\"mic\"}"));
    // unparsable JSON resolves to the sentinel
    assert!(state.update(Some("default.audio.source"), Some("not json")));
    assert_eq!(state.source, "unknown");
    // an object without a name member resolves to the sentinel too
    assert!(!state.update(Some("default.audio.source"), Some("{\"other\":1}")));
    assert_eq!(state.source, "unknown");
    // a missing value resolves to the sentinel
    assert!(!state.update(Some("default.audio.source"), None));
    assert_eq!(state.source, "unknown");
}

#[test]
fn unknown_keys_change_nothing() {
    let mut state = DefaultState::default();
    assert!(!state.update(Some("default.video.sink"), Some("{\"name\":\"x\"}")));
    assert!(!state.update(None, Some("{\"name\":\"x\"}")));
    assert_eq!(state.sink, "unknown");
    assert_eq!(state.configured_sink, "unknown");
}

#[test]
fn default_commands_wrap_the_name_in_json() {
    let cmd = encode_default_command(DefaultTarget::Sink, Some("alsa.headset"));
    assert_eq!(cmd.key, "default.configured.audio.sink");
    assert_eq!(cmd.kind, "Spa:String:JSON");
    assert_eq!(cmd.value.as_deref(), Some("{\"name\":\"alsa.headset\"}"));

    let clear = encode_default_command(DefaultTarget::Source, None);
    assert_eq!(clear.key, "default.configured.audio.source");
    assert_eq!(clear.value, None);
}

#[test]
fn command_round_trips_through_the_state() {
    // what a command writes is read back as the same name
    let cmd = encode_default_command(DefaultTarget::Sink, Some("with \"quotes\""));
    let mut state = DefaultState::default();
    assert!(state.update(Some("default.configured.audio.sink"), cmd.value.as_deref()));
    assert_eq!(state.configured_sink, "with \"quotes\"");
}

#[test]
fn binding_detaches_only_its_own_object() {
    let mut binding = MetadataBinding::new();
    assert!(!binding.can_send());
    binding.attach(12);
    assert!(binding.can_send());
    assert!(!binding.detach(13));
    assert!(binding.can_send());
    assert!(binding.detach(12));
    assert!(!binding.can_send());
}
