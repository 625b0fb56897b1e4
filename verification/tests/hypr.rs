use liischte::hypr::{
    command_payload, parse_event_line, retain_monitor, select_workspace_command,
    select_workspace_relative_command, HyprlandInstance, WorkspaceAction, WorkspaceMirror,
    WorkspaceState,
};

fn ws(id: i64, monitor_id: u64) -> WorkspaceState {
    WorkspaceState { id, monitor_id, window_amount: 0, fullscreen: false }
}

#[test]
fn instance_paths_follow_the_signature() {
    let instance = HyprlandInstance::locate("/run/user/1000", "abc123");
    assert_eq!(instance.base, "/run/user/1000/hypr/abc123");
    assert_eq!(instance.command_socket(), "/run/user/1000/hypr/abc123/.socket.sock");
    assert_eq!(instance.event_socket(), "/run/user/1000/hypr/abc123/.socket2.sock");
}

#[test]
fn commands_are_framed_and_formatted() {
    assert_eq!(command_payload("workspaces"), "j/workspaces");
    assert_eq!(select_workspace_command(3), "dispatch workspace 3");
    assert_eq!(select_workspace_command(-9), "dispatch workspace -9");
    assert_eq!(select_workspace_relative_command(1), "dispatch workspace m+1");
    assert_eq!(select_workspace_relative_command(-1), "dispatch workspace m-1");
    assert_eq!(select_workspace_relative_command(0), "dispatch workspace m0");
}

#[test]
fn event_lines_split_on_the_marker() {
    let (event, args) = parse_event_line("workspacev2>>3,web").unwrap();
    assert_eq!(event, "workspacev2");
    assert_eq!(args, vec!["3".to_string(), "web".to_string()]);

    let (event, args) = parse_event_line("fullscreen>>1").unwrap();
    assert_eq!(event, "fullscreen");
    assert_eq!(args, vec!["1".to_string()]);

    // no marker, no event
    assert!(parse_event_line("not an event").is_none());

    // a second marker ends the argument list
    let (event, args) = parse_event_line("x>>a,b>>c").unwrap();
    assert_eq!(event, "x");
    assert_eq!(args, vec!["a".to_string(), "b".to_string()]);
}

#[test]
fn only_the_monitors_ordinary_workspaces_are_kept() {
    let all = vec![ws(1, 0), ws(2, 1), ws(-98, 0), ws(3, 0)];
    let kept = retain_monitor(&all, 0);
    assert_eq!(kept, vec![ws(1, 0), ws(3, 0)]);
}

#[test]
fn selection_events_move_the_selection() {
    let all = vec![ws(1, 0), ws(2, 0)];
    let mut mirror = WorkspaceMirror::new(1, &all, 0);

    let action = mirror.on_event("workspacev2", &vec!["2".to_string(), "web".to_string()]);
    assert_eq!(action, WorkspaceAction::Publish);
    assert_eq!(mirror.snapshot().0, 2);

    // a selection of an untracked workspace republishes unchanged
    let action = mirror.on_event("workspacev2", &vec!["9".to_string()]);
    assert_eq!(action, WorkspaceAction::Publish);
    assert_eq!(mirror.snapshot().0, 2);

    // a malformed selection ends the stream
    assert_eq!(mirror.on_event("workspacev2", &vec!["x".to_string()]), WorkspaceAction::Halt);
    assert_eq!(mirror.on_event("workspacev2", &vec![]), WorkspaceAction::Halt);
}

#[test]
fn structural_events_ask_for_a_refetch() {
    let mut mirror = WorkspaceMirror::new(1, &vec![ws(1, 0)], 0);
    assert_eq!(mirror.on_event("openwindow", &vec![]), WorkspaceAction::Refetch);
    assert_eq!(mirror.on_event("destroyworkspace", &vec![]), WorkspaceAction::Refetch);
    assert_eq!(mirror.on_event("activewindow", &vec![]), WorkspaceAction::Ignore);

    mirror.apply_refetch(&vec![ws(1, 0), ws(4, 0), ws(5, 1)]);
    let (selected, list) = mirror.snapshot();
    assert_eq!(selected, 1);
    assert_eq!(list, vec![ws(1, 0), ws(4, 0)]);
}
