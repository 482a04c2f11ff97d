use persistent_workspaces::bootstrap::ShellType;
use persistent_workspaces::global_search::{SearchConfig, SharedMatchText};
use persistent_workspaces::outline::RepoRecency;
use persistent_workspaces::popup::{
    bound_action, checked, find_workspace, history_label, workspace_status, Action,
    PersistentWorkspacePopup, PickerConnection, PickerEvent, PickerRow, PickerStep, WorkspaceKey,
};
use persistent_workspaces::proto::{
    HistoryRetention, PersistentWorkspace, PersistentWorkspaceError, PersistentWorkspaceRequest,
    PersistentWorkspaceResponse,
};
use persistent_workspaces::settings::PersistentHistoryRetention;

fn workspace(id: &str, generation: &str) -> PersistentWorkspace {
    PersistentWorkspace {
        workspace_id: id.into(),
        generation: generation.into(),
        ..Default::default()
    }
}

#[test]
fn persistent_picker_actions_survive_reordering_without_retargeting() {
    let original = workspace("job-a", "first");
    let key = WorkspaceKey::of(&original);
    let refreshed = vec![workspace("job-b", "other"), original];
    assert_eq!(find_workspace(&refreshed, &key).unwrap().workspace_id, "job-a");
}

#[test]
fn persistent_picker_rejects_a_recreated_or_removed_target() {
    let key = WorkspaceKey::of(&workspace("job-a", "first"));
    assert!(find_workspace(&vec![workspace("job-a", "second")], &key).is_none());
    assert!(find_workspace(&vec![], &key).is_none());
}

#[test]
fn persistent_picker_surfaces_extension_errors_and_version_mismatch() {
    assert!(checked(PersistentWorkspaceResponse::default()).is_err());
    let response = |terminal, replay, error| PersistentWorkspaceResponse {
        protocol_version: 1,
        management_supported: true,
        terminal_transport_supported: terminal,
        block_replay_supported: replay,
        error,
        ..Default::default()
    };
    assert!(
        checked(response(false, false, None)).is_err(),
        "Management-only extensions cannot restore native blocks"
    );
    assert!(
        checked(response(true, false, None)).is_err(),
        "Live output without replay is insufficient"
    );
    assert!(checked(response(true, true, None)).is_ok());
    let error = Some(PersistentWorkspaceError {
        code: "stale".into(),
        message: "Workspace was replaced".into(),
    });
    assert!(checked(response(true, true, error)).unwrap_err().message.contains("stale"));
}

#[test]
fn persistent_picker_status_uses_shell_hooks_and_exit_takes_precedence() {
    let mut item = workspace("job", "incarnation");
    assert_eq!(workspace_status(&item), "status unknown");
    for status in ["starting", "idle", "running"] {
        item.activity = Some(status.into());
        assert_eq!(workspace_status(&item), status);
    }
    item.exited = true;
    assert_eq!(workspace_status(&item), "exited");
}

#[test]
fn persistent_history_size_does_not_report_unknown_as_zero() {
    assert!(history_label(None).contains("unavailable"));
    assert!(history_label(Some(0)).contains("0.0 MiB"));
    assert!(history_label(Some(1024 * 1024 * 1024)).contains("Delete unused workspaces"));
}

#[test]
fn sizes_are_written_with_one_decimal() {
    let mib = 1024 * 1024u64;
    for bytes in [
        1,
        52428,
        52429,
        157286,
        mib / 4,
        mib / 4 * 3,
        mib + mib / 4,
        123 * mib + 456789,
        1023 * mib + mib - 1,
    ] {
        assert_eq!(
            history_label(Some(bytes)),
            format!("History: {:.1} MiB on remote disk", bytes as f64 / (1024.0 * 1024.0))
        );
    }
    for bytes in [1024 * mib, 1280 * mib, 1792 * mib, 5000 * mib + 77, 99999 * mib] {
        assert_eq!(
            history_label(Some(bytes)),
            format!(
                "History: {:.1} GiB on remote disk. Delete unused workspaces to free space.",
                bytes as f64 / (1024.0 * 1024.0 * 1024.0)
            )
        );
    }
}

#[test]
fn persistent_history_defaults_to_retention_until_explicit_deletion() {
    assert_eq!(
        PersistentHistoryRetention::default(),
        PersistentHistoryRetention::UntilWorkspaceDeleted
    );
    assert_eq!(
        PersistentHistoryRetention::default().to_proto(),
        HistoryRetention::UntilWorkspaceDeleted
    );
}

#[test]
fn retention_settings_are_named_and_sent() {
    assert_eq!(
        PersistentHistoryRetention::UntilWorkspaceDeleted.display_name(),
        "Until workspace deletion"
    );
    assert_eq!(PersistentHistoryRetention::Rolling.display_name(), "Most recent 64 MiB");
    assert_eq!(PersistentHistoryRetention::Rolling.to_proto(), HistoryRetention::Rolling);
    assert_eq!(HistoryRetention::Rolling.to_number(), 1);
    assert_eq!(HistoryRetention::from_number(0), Some(HistoryRetention::UntilWorkspaceDeleted));
    assert_eq!(HistoryRetention::from_number(2), None);
}

fn supported(workspaces: Vec<PersistentWorkspace>) -> PersistentWorkspaceResponse {
    PersistentWorkspaceResponse {
        protocol_version: 1,
        management_supported: true,
        terminal_transport_supported: true,
        block_replay_supported: true,
        workspaces,
        ..Default::default()
    }
}

fn durable(id: &str) -> PersistentWorkspace {
    let mut item = workspace(id, "first");
    item.shell = Some("zsh".into());
    item.window_id = "@1".into();
    item
}

fn connection(current: Option<WorkspaceKey>, has_owner: bool, has_recipe: bool) -> PickerConnection {
    PickerConnection {
        shell: ShellType::Bash,
        current_workspace: current,
        has_owner,
        has_recipe,
    }
}

fn request(step: PickerStep) -> PersistentWorkspaceRequest {
    match step {
        PickerStep::Request(request) => request,
        other => panic!("expected a request, not {other:?}"),
    }
}

fn act(popup: &mut PersistentWorkspacePopup, action: Action) -> PickerStep {
    popup.handle_action_as(
        action,
        true,
        Ok((b"init".to_vec(), b"rest".to_vec())),
        1,
        "c".repeat(32),
    )
}

/// A picker with a list of these workspaces.
fn listed(connection: PickerConnection, list: Vec<PersistentWorkspace>) -> PersistentWorkspacePopup {
    let mut popup = PersistentWorkspacePopup::new();
    let asked = request(popup.open(Some(connection), true));
    assert_eq!(asked.operation, 2);
    assert_eq!(asked.protocol_version, 1);
    assert!(matches!(popup.respond(Ok(supported(list)), true), PickerStep::Redraw));
    popup
}

#[test]
fn a_termination_is_asked_for_twice() {
    let list = vec![durable("job-a"), durable("job-b")];
    let key = WorkspaceKey::of(&list[1]);
    let mut popup = listed(connection(None, true, true), list);
    assert!(matches!(
        act(&mut popup, Action::Terminate(key.copy())),
        PickerStep::Redraw
    ));
    let asked = request(act(&mut popup, Action::Terminate(key.copy())));
    assert_eq!(asked.operation, 4);
    assert_eq!(asked.workspace_id, "job-b");
    assert_eq!(asked.generation, "first");
    // Nothing else is asked for meanwhile.
    assert!(popup.busy());
    assert!(matches!(act(&mut popup, Action::New), PickerStep::Nothing));
    assert!(matches!(act(&mut popup, Action::Refresh), PickerStep::Nothing));
    // The list is asked for anew.
    assert_eq!(request(popup.respond(Ok(supported(vec![])), true)).operation, 2);
}

#[test]
fn ending_the_current_workspace_closes_its_terminal() {
    let list = vec![durable("job-a")];
    let key = WorkspaceKey::of(&list[0]);
    let mut popup = listed(connection(Some(key.copy()), true, true), list);
    act(&mut popup, Action::Terminate(key.copy()));
    request(act(&mut popup, Action::Terminate(key)));
    assert!(matches!(
        popup.respond(Ok(supported(vec![])), true),
        PickerStep::ExitTerminal
    ));
}

#[test]
fn a_workspace_that_changed_is_not_ended() {
    let mut popup = listed(connection(None, true, true), vec![durable("job-a")]);
    let key = WorkspaceKey { id: "job-a".into(), generation: "second".into() };
    assert!(matches!(act(&mut popup, Action::Terminate(key)), PickerStep::Redraw));
    assert!(popup.render().iter().any(|row| matches!(row, PickerRow::Text(text)
        if text == "That workspace changed. Refresh the list before terminating it.")));
}

#[test]
fn a_created_workspace_is_opened() {
    let mut popup = listed(connection(None, false, true), vec![]);
    // The only row is that of a new workspace.
    let asked = request(act(&mut popup, Action::Enter));
    assert_eq!(asked.operation, 1);
    assert_eq!(asked.workspace_id, "c".repeat(32));
    assert_eq!(asked.history_retention, Some(1));
    let bootstrap = asked.bootstrap.unwrap();
    assert_eq!(bootstrap.shell, "bash");
    assert_eq!(bootstrap.init_script, b"init");
    match popup.respond(Ok(supported(vec![durable(&"c".repeat(32))])), true) {
        PickerStep::Open(plan) => {
            assert_eq!(plan.workspace_id, "c".repeat(32));
            assert_eq!(plan.generation, "first");
            assert_eq!(plan.shell_type, ShellType::Zsh);
            assert!(plan.new_owner);
        }
        other => panic!("{other:?}"),
    }
}

#[test]
fn random_identities_are_tokens() {
    let mut popup = listed(connection(None, true, true), vec![]);
    let step = popup.handle_action(Action::New, true, Ok((vec![1], vec![2])), 0);
    let id = request(step).workspace_id;
    assert_eq!(id.len(), 32);
    assert!(id.bytes().all(|b| b.is_ascii_digit() || (b'a'..=b'f').contains(&b)));
    assert_eq!(id.as_bytes()[12], b'4');
    let mut other = listed(connection(None, true, true), vec![]);
    let step = other.handle_action(Action::New, true, Ok((vec![1], vec![2])), 0);
    assert_ne!(request(step).workspace_id, id);
}

#[test]
fn what_goes_wrong_is_shown() {
    let error_of = |popup: &PersistentWorkspacePopup| match &popup.render()[1] {
        PickerRow::Text(text) => text.clone(),
        other => panic!("{other:?}"),
    };
    let mut popup = PersistentWorkspacePopup::new();
    assert!(matches!(popup.open(None, true), PickerStep::Redraw));
    assert_eq!(
        error_of(&popup),
        "The SSH extension is not connected. Connect it before opening a persistent workspace."
    );
    let mut popup = listed(connection(None, true, true), vec![]);
    request(act(&mut popup, Action::New));
    popup.respond(Ok(supported(vec![])), true);
    assert_eq!(error_of(&popup), "Missing created workspace");
    request(act(&mut popup, Action::New));
    popup.respond(Ok(supported(vec![durable("other")])), true);
    assert_eq!(error_of(&popup), "Create response returned a different workspace");
    request(act(&mut popup, Action::Refresh));
    popup.respond(Err("lost".into()), true);
    assert_eq!(error_of(&popup), "lost");
    popup.owner_failed("no recipe");
    assert_eq!(error_of(&popup), "Cannot own this connection: no recipe");
    popup.handle_action_as(Action::New, true, Err("no script".into()), 0, String::new());
    assert_eq!(error_of(&popup), "no script");
    // A workspace without integration is not opened.
    let list = vec![workspace("job-a", "first")];
    let key = WorkspaceKey::of(&list[0]);
    let mut popup = listed(connection(None, true, true), list);
    act(&mut popup, Action::Select(key));
    assert_eq!(
        error_of(&popup),
        "This pane was not created with durable Warp shell integration. It has not been modified."
    );
    // Neither an owner nor a recipe for one.
    let list = vec![durable("job-a")];
    let key = WorkspaceKey::of(&list[0]);
    let mut popup = listed(connection(None, false, false), list);
    act(&mut popup, Action::Select(key));
    assert!(error_of(&popup).starts_with("Reconnect details are unavailable"));
}

#[test]
fn the_current_workspace_only_closes_the_picker() {
    let list = vec![durable("job-a")];
    let key = WorkspaceKey::of(&list[0]);
    let mut popup = listed(connection(Some(key.copy()), true, true), list);
    assert!(matches!(
        act(&mut popup, Action::Select(key)),
        PickerStep::Emit(PickerEvent::Close)
    ));
    assert!(matches!(act(&mut popup, Action::Close), PickerStep::Emit(PickerEvent::Close)));
}

#[test]
fn rows_show_the_list_and_the_selection() {
    let list = vec![durable("job-a"), workspace("job-b", "first")];
    let key = WorkspaceKey::of(&list[0]);
    let mut popup = listed(connection(Some(key), true, true), list);
    act(&mut popup, Action::Down);
    act(&mut popup, Action::Down);
    act(&mut popup, Action::Down);
    act(&mut popup, Action::Up);
    let rows = popup.render();
    assert_eq!(rows.len(), 5);
    assert!(matches!(&rows[0], PickerRow::Text(text) if text == "Persistent workspaces"));
    assert!(matches!(&rows[1], PickerRow::Workspace(title, false, _)
        if title == "Current: zsh @1 | status unknown\nHistory storage unavailable"));
    assert!(matches!(&rows[2], PickerRow::Workspace(title, true, key)
        if title == "legacy  | status unknown\nHistory storage unavailable" && key.id == "job-b"));
    assert!(matches!(&rows[3], PickerRow::NewWorkspace("+ New workspace")));
    assert!(matches!(&rows[4], PickerRow::Refresh("Refresh")));
    assert!(matches!(act(&mut popup, Action::Enter), PickerStep::Redraw));
}

#[test]
fn repo_recency_evicts_the_least_recently_used_repo() {
    let mut recency = RepoRecency::new();
    assert_eq!(recency.touch("/repo/one"), None);
    assert_eq!(recency.touch("/repo/two"), None);
    assert_eq!(recency.touch("/repo/three"), None);
    assert_eq!(recency.touch("/repo/one"), None);
    assert_eq!(recency.touch("/repo/four"), Some("/repo/two".to_owned()));
    assert_eq!(recency.paths(), &["/repo/three", "/repo/one", "/repo/four"]);
}

#[test]
fn a_match_is_cut_between_characters() {
    let config = SearchConfig { use_regex: true, use_case_sensitivity: false };
    assert!(config.use_regex && !config.use_case_sensitivity);
    let shared = SharedMatchText::new("\t\u{a0}let x".to_owned());
    assert_eq!(shared.as_str(), "\t\u{a0}let x");
    let shared = shared.trim_leading_bytes(1).trim_leading_bytes(2);
    assert_eq!(shared.as_str(), "let x");
}

#[test]
fn keys_have_their_actions() {
    assert!(matches!(bound_action("escape"), Some(Action::Close)));
    assert!(matches!(bound_action("up"), Some(Action::Up)));
    assert!(matches!(bound_action("down"), Some(Action::Down)));
    assert!(matches!(bound_action("enter"), Some(Action::Enter)));
    assert!(bound_action("tab").is_none());
}

#[test]
fn another_cross_in_between_asks_anew() {
    let list = vec![workspace("job-a", "first"), workspace("job-b", "other")];
    let (first, other) = (WorkspaceKey::of(&list[0]), WorkspaceKey::of(&list[1]));
    let mut popup = listed(connection(None, true, true), list);
    let mut click = |key: &WorkspaceKey| act(&mut popup, Action::Terminate(key.copy()));
    assert!(matches!(click(&first), PickerStep::Redraw));
    assert!(matches!(click(&other), PickerStep::Redraw));
    assert!(matches!(click(&first), PickerStep::Redraw));
    // One that is not listed changes nothing of the confirmation.
    let gone = WorkspaceKey::of(&workspace("job-a", "second"));
    assert!(matches!(click(&gone), PickerStep::Redraw));
    let sent = request(click(&first));
    assert_eq!((sent.workspace_id.as_str(), sent.generation.as_str()), ("job-a", "first"));
    assert!(matches!(click(&first), PickerStep::Nothing));
}
