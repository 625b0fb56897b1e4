use liischte::audio::{
    CommandProp, EncodedCommand, NodeTracker, ParamUpdate, RouteUpdate, SetError,
};
use liischte::audio::NodeClass;
use liischte::volume::{clamp_volume, linear_to_volume, volume_to_linear};

#[test]
fn volume_round_trip_is_exact_on_the_perceptual_scale() {
    // cube_root(cube(p)) == p for perceptual values across the scale
    for p in [0u32, 1, 7, 250, 500, 999, 1000, 2000] {
        assert_eq!(linear_to_volume(volume_to_linear(p)), p);
    }
    // full volume: 1.0 perceptual is exactly 1.0 linear in fixed point
    assert_eq!(volume_to_linear(1000), 1_000_000_000);
}

#[test]
fn volume_decode_is_within_one_step() {
    // cube(cube_root(v)) <= v < cube(cube_root(v) + 1)
    for v in [0u128, 1, 999, 1_000_000, 999_999_999, 1_000_000_001] {
        let p = linear_to_volume(v);
        let low = volume_to_linear(p);
        let high = volume_to_linear(p + 1);
        assert!(low <= v && v < high);
    }
}

#[test]
fn volume_commands_clamp_to_non_negative() {
    assert_eq!(clamp_volume(-5), 0);
    assert_eq!(clamp_volume(0), 0);
    assert_eq!(clamp_volume(1000), 1000);
}

fn props(pairs: &[(&str, &str)]) -> Vec<(String, String)> {
    pairs.iter().map(|(k, v)| (k.to_string(), v.to_string())).collect()
}

#[test]
fn only_sinks_and_sources_are_admitted() {
    assert_eq!(
        NodeTracker::admit_class(&props(&[("media.class", "Audio/Sink")])),
        Some(NodeClass::Sink)
    );
    assert_eq!(
        NodeTracker::admit_class(&props(&[("media.class", "Audio/Source")])),
        Some(NodeClass::Source)
    );
    assert_eq!(NodeTracker::admit_class(&props(&[("media.class", "Video/Source")])), None);
    assert_eq!(NodeTracker::admit_class(&props(&[("node.name", "x")])), None);
}

#[test]
fn device_ids_parse_or_count_as_absent() {
    assert_eq!(NodeTracker::device_of_props(&props(&[("device.id", "42")])), Some(42));
    assert_eq!(NodeTracker::device_of_props(&props(&[("device.id", "x42")])), None);
    assert_eq!(NodeTracker::device_of_props(&props(&[])), None);
}

#[test]
fn node_updates_track_changes_only() {
    let mut tracker = NodeTracker::new();
    let snapshot = tracker.add_node(
        7,
        NodeClass::Sink,
        None,
        &props(&[("node.name", "spk"), ("node.description", "Speaker")]),
    );
    assert_eq!(snapshot.len(), 1);
    assert_eq!(snapshot[0].name, "spk");
    assert_eq!(snapshot[0].description, "Speaker");

    // an echo of the same values is no change
    assert_eq!(tracker.update_props(7, &props(&[("node.name", "spk")])), None);
    // a real change names the class to republish
    assert_eq!(
        tracker.update_props(7, &props(&[("node.name", "spk2")])),
        Some(NodeClass::Sink)
    );
    // a stray update for an untracked node changes nothing
    assert_eq!(tracker.update_props(99, &props(&[("node.name", "x")])), None);
}

#[test]
fn params_store_the_perceptual_scale() {
    let mut tracker = NodeTracker::new();
    tracker.add_node(7, NodeClass::Sink, None, &props(&[("node.name", "spk")]));

    let update = ParamUpdate { volumes: Some(vec![1_000_000_000, 0]), mute: Some(true) };
    assert_eq!(tracker.update_params_node(7, &update), Some(NodeClass::Sink));
    let snap = tracker.snapshot(NodeClass::Sink);
    assert_eq!(snap[0].volume, vec![1000, 0]);
    assert!(snap[0].mute);

    // the identical parameters again: no republish
    assert_eq!(tracker.update_params_node(7, &update), None);
}

#[test]
fn routed_nodes_skip_direct_params() {
    let mut tracker = NodeTracker::new();
    tracker.add_node(
        7,
        NodeClass::Sink,
        Some(3),
        &props(&[("node.name", "spk"), ("card.profile.device", "5")]),
    );
    let update = ParamUpdate { volumes: None, mute: Some(true) };
    // a node with a device takes its parameters from the device's route
    assert_eq!(tracker.update_params_node(7, &update), None);
    assert!(!tracker.snapshot(NodeClass::Sink)[0].mute);
}

#[test]
fn route_command_encoding_wraps_exactly_when_routed() {
    let mut tracker = NodeTracker::new();
    tracker.add_device(3);
    tracker.add_node(
        7,
        NodeClass::Sink,
        Some(3),
        &props(&[("node.name", "spk"), ("card.profile.device", "5")]),
    );
    tracker.add_node(8, NodeClass::Source, None, &props(&[("node.name", "mic")]));

    // the device learns route 5 -> index 2
    let learned = tracker.update_params_device(
        3,
        RouteUpdate {
            route: Some(5),
            index: Some(2),
            props: Some(ParamUpdate { volumes: None, mute: Some(false) }),
        },
    );
    assert_eq!(learned, None);

    // a mute command for the routed node carries device, route, index,
    // the nested property and the persist flag
    match tracker.set_mute("spk", true) {
        Ok(EncodedCommand::Routed { device, route, index, prop, persist }) => {
            assert_eq!(device, 3);
            assert_eq!(route, 5);
            assert_eq!(index, 2);
            assert!(persist);
            assert!(matches!(prop, CommandProp::MuteFlag(true)));
        },
        other => panic!("expected a routed command, got {:?}", other.is_ok()),
    }

    // the same command for a node with no device is the bare property object
    match tracker.set_mute("mic", true) {
        Ok(EncodedCommand::Direct { node, prop }) => {
            assert_eq!(node, 8);
            assert!(matches!(prop, CommandProp::MuteFlag(true)));
        },
        other => panic!("expected a direct command, got {:?}", other.is_ok()),
    }
}

#[test]
fn encoding_failures_are_reported_exactly() {
    let mut tracker = NodeTracker::new();
    assert_eq!(tracker.set_mute("ghost", true), Err(SetError::NotTracked));

    tracker.add_node(7, NodeClass::Sink, Some(3), &props(&[("node.name", "noroute")]));
    assert_eq!(tracker.set_mute("noroute", true), Err(SetError::NoRoute));

    tracker.add_node(
        8,
        NodeClass::Sink,
        Some(4),
        &props(&[("node.name", "nodev"), ("card.profile.device", "1")]),
    );
    assert_eq!(tracker.set_mute("nodev", true), Err(SetError::DeviceNotTracked));

    tracker.add_device(4);
    assert_eq!(tracker.set_mute("nodev", true), Err(SetError::NoRouteIndex));
}

#[test]
fn volume_commands_cube_the_requested_values() {
    let mut tracker = NodeTracker::new();
    tracker.add_node(9, NodeClass::Sink, None, &props(&[("node.name", "spk")]));
    match tracker.set_volume("spk", &vec![1000, -7]) {
        Ok(EncodedCommand::Direct { node, prop }) => {
            assert_eq!(node, 9);
            match prop {
                CommandProp::ChannelVolumes(w) => {
                    // 1.0 perceptual cubes to 1.0 linear; negatives clamp to 0
                    assert_eq!(w, vec![1_000_000_000, 0]);
                },
                _ => panic!("expected channel volumes"),
            }
        },
        _ => panic!("expected a direct command"),
    }
}

#[test]
fn average_volume_is_the_channel_mean() {
    let mut tracker = NodeTracker::new();
    tracker.add_node(7, NodeClass::Sink, None, &props(&[("node.name", "spk")]));
    let update = ParamUpdate { volumes: Some(vec![1_000_000_000, 0]), mute: None };
    tracker.update_params_node(7, &update);
    let snap = tracker.snapshot(NodeClass::Sink);
    assert_eq!(snap[0].average_volume(), 500);
    let empty = liischte::audio::NodeState::new(1);
    assert_eq!(empty.average_volume(), 0);
}

#[test]
fn removals_name_the_class_to_republish() {
    let mut tracker = NodeTracker::new();
    tracker.add_node(7, NodeClass::Sink, None, &props(&[("node.name", "spk")]));
    tracker.add_device(3);
    assert_eq!(tracker.remove(7), Some(NodeClass::Sink));
    assert_eq!(tracker.remove(3), None);
    assert_eq!(tracker.remove(100), None);
    assert_eq!(tracker.snapshot(NodeClass::Sink).len(), 0);
}

#[test]
fn incomplete_route_updates_are_dropped() {
    let mut tracker = NodeTracker::new();
    tracker.add_device(3);
    let r = tracker.update_params_device(
        3,
        RouteUpdate { route: Some(5), index: None, props: None },
    );
    assert_eq!(r, None);
    // the table did not learn the route: commands still miss the index
    tracker.add_node(
        7,
        NodeClass::Sink,
        Some(3),
        &props(&[("node.name", "spk"), ("card.profile.device", "5")]),
    );
    assert_eq!(tracker.set_mute("spk", true), Err(SetError::NoRouteIndex));
}

#[test]
fn duplicate_names_resolve_to_the_first_match() {
    let mut tracker = NodeTracker::new();
    tracker.add_node(1, NodeClass::Sink, None, &props(&[("node.name", "twin")]));
    tracker.add_node(2, NodeClass::Sink, None, &props(&[("node.name", "twin")]));
    match tracker.set_mute("twin", false) {
        Ok(EncodedCommand::Direct { node, .. }) => assert_eq!(node, 1),
        _ => panic!("expected the first twin"),
    }
}
