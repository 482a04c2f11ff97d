use persistent_workspaces::bookmark::{
    check_bookmark_record, check_bookmark_size, check_bookmarks_directory, filename, Attachment,
    WorkspaceBookmark, MAX_BYTES,
};
use persistent_workspaces::bootstrap::{profile_for_shell, ShellType};
use persistent_workspaces::local::LocalEntry;
use persistent_workspaces::ssh_recipe::{
    check_recipe_record, check_recipes_directory, parse_arguments, record_name, SshRecipe,
    MAX_RECIPE_BYTES,
};

fn recipe(arguments: &[&str]) -> SshRecipe {
    SshRecipe {
        working_directory: "/Users/test/projects with spaces".into(),
        arguments: arguments.iter().map(|arg| (*arg).to_owned()).collect(),
    }
}

#[test]
fn persistent_ssh_recipe_preserves_argument_boundaries_and_jump_hosts() {
    let original = recipe(&[
        "-vv", "-p2222", "-F", "./ssh config", "-i", "keys/my key", "-J", "jump@bastion:2200",
        "user@host",
    ]);
    let args = original.master_arguments("/tmp/private/control").unwrap();
    assert!(args.windows(2).any(|pair| pair == ["-F", "./ssh config"]));
    assert!(args.windows(2).any(|pair| pair == ["-i", "keys/my key"]));
    assert!(args.windows(2).any(|pair| pair == ["-p", "2222"]));
    assert!(args.windows(2).any(|pair| pair == ["-J", "jump@bastion:2200"]));
    assert_eq!(args.last().unwrap(), "user@host");
    assert_eq!(original.working_directory(), "/Users/test/projects with spaces");
}

#[test]
fn persistent_ssh_recipe_does_not_clone_forwarding_or_user_control_sockets() {
    let args = recipe(&[
        "-ttM", "-L8080:localhost:80", "-R", "9090:localhost:90", "-D1080", "-S",
        "/tmp/user-owned", "-oControlPath=/tmp/other", "-o", "ControlMaster=auto", "host",
    ])
    .master_arguments("/tmp/private/control")
    .unwrap();
    assert!(!args.iter().any(|arg| arg.contains("user-owned")
        || arg.contains("8080")
        || arg.contains("9090")
        || arg.contains("1080")
        || arg.contains("/tmp/other")));
    assert_eq!(args.iter().filter(|arg| *arg == "-S").count(), 1);
    assert!(!args.iter().any(|arg| arg == "-t" || arg == "-M"));
    assert!(args.iter().any(|arg| arg == "StrictHostKeyChecking=yes"));
}

#[test]
fn persistent_ssh_recipe_rejects_commands_control_operations_and_truncation() {
    for args in [
        vec!["host", "rm -rf ~"],
        vec!["-O", "exit", "host"],
        vec!["-G", "host"],
        vec!["-f", "host"],
        vec!["-W", "host:22", "jump"],
        vec!["-i"],
        vec!["--"],
        vec!["-p", "host"],
    ] {
        assert!(recipe(&args).validate().is_err(), "accepted {args:?}");
    }
    assert!(SshRecipe::decode(&b"EWSSH1\0/home/test\0host".to_vec()).is_err());
    assert!(SshRecipe::decode(&b"EWSSH1\0relative\0host\0".to_vec()).is_err());
    assert!(SshRecipe::decode(&vec![0; 65537]).is_err());
}

#[test]
fn persistent_ssh_recipe_decodes_only_the_local_nul_delimited_format() {
    let decoded =
        SshRecipe::decode(&b"EWSSH1\0/home/test\0-F\0config with spaces\0host\0".to_vec()).unwrap();
    assert_eq!(decoded.arguments, ["-F", "config with spaces", "host"]);
    assert!(SshRecipe::decode(&b"{\"hook\":\"SSH\",\"args\":[\"host\"]}".to_vec()).is_err());
}

#[test]
fn persistent_recovery_is_guarded_and_does_not_clone_forwardings_or_start_a_job() {
    let id = "a".repeat(32);
    let generation = "b".repeat(32);
    let command = recipe(&[
        "-F", "./ssh config", "-J", "jump@host", "-nNT", "-L9000:host:9", "-S",
        "/tmp/user-master", "-oRemoteCommand=bad", "remote",
    ])
    .recovery_command(&id, &generation)
    .unwrap();
    assert!(command.contains("/usr/bin/ssh '-tt'"));
    assert!(command.contains("./ssh config"));
    assert!(command.contains("jump@host"));
    assert!(command.contains("WARP_WORKSPACE_GENERATION"));
    assert!(command.contains(&generation));
    assert!(command.contains("attach-session"));
    assert!(command.contains(&format!("set-option -t ew-{id} status off")));
    assert!(command.contains(&format!("set-option -w -t =ew-{id}:0 window-size latest")));
    assert!(command.contains(&format!("attach-session -t ew-{id}")));
    assert!(!command.contains("new-session"));
    assert!(!command.contains("send-keys"));
    assert!(!command.contains("9000"));
    assert!(!command.contains("/tmp/user-master"));
    assert!(!command.contains("RemoteCommand=bad"));
    assert!(command.contains("StrictHostKeyChecking=yes"));
    for invalid in ["", "@1", "$(touch /tmp/unsafe)", &"a".repeat(33)] {
        assert!(recipe(&["host"]).recovery_command(invalid, &generation).is_err());
        assert!(recipe(&["host"]).recovery_command(&id, invalid).is_err());
    }
}

#[test]
fn a_master_has_exactly_these_arguments() {
    let args = recipe(&["-vp", "2222", "-o", "Controlpath /x", "-oCompression=yes", "--", "host"])
        .master_arguments("/tmp/control")
        .unwrap();
    assert_eq!(
        args,
        [
            "-N", "-T", "-o", "ControlMaster=yes", "-o", "ControlPersist=no", "-o",
            "BatchMode=yes", "-o", "StrictHostKeyChecking=yes", "-o", "ServerAliveInterval=10",
            "-o", "ServerAliveCountMax=2", "-o", "ClearAllForwardings=yes", "-o",
            "RequestTTY=no", "-o", "SessionType=none", "-o", "ExitOnForwardFailure=yes", "-S",
            "/tmp/control", "-v", "-p", "2222", "-o", "Compression=yes", "--", "host",
        ]
    );
}

#[test]
fn a_recovery_is_exactly_this_command() {
    let id = "a".repeat(32);
    let generation = "b".repeat(32);
    let command = SshRecipe {
        working_directory: "/it's".to_owned(),
        arguments: vec!["-oStdinNull=yes".to_owned(), "-4".to_owned(), "host".to_owned()],
    }
    .recovery_command(&id, &generation)
    .unwrap();
    let remote = format!(
        "'\\''tmux'\\'' '\\''-L'\\'' '\\''eternalwarp-workspaces-v1'\\'' '\\''if-shell'\\'' \
         '\\''-F'\\'' '\\''-t'\\'' '\\''=ew-{id}:0.0'\\'' \
         '\\''#{{==:#{{WARP_WORKSPACE_GENERATION}},{generation}}}'\\'' \
         '\\''set-option -t ew-{id} status off ; set-option -w -t =ew-{id}:0 window-size latest ; \
         attach-session -t ew-{id}'\\'' '\\''display-message -p '\\''\\'\\'''\\''Workspace was removed \
         or replaced; nothing was started'\\''\\'\\'''\\'''\\''"
    );
    assert_eq!(
        command,
        format!(
            "cd -- '/it'\\''s' && /usr/bin/ssh '-tt' '-S' 'none' '-o' 'ControlMaster=no' '-o' \
             'ControlPersist=no' '-o' 'ControlPath=none' '-o' 'StrictHostKeyChecking=yes' '-o' \
             'ClearAllForwardings=yes' '-o' 'RequestTTY=force' '-o' 'SessionType=default' '-o' \
             'RemoteCommand=none' '-o' 'ServerAliveInterval=10' '-o' 'ServerAliveCountMax=2' '-4' \
             '--' 'host' '{remote}'"
        )
    );
}

#[test]
fn every_defect_of_a_recipe_is_told_apart() {
    let many: Vec<&str> = vec!["-v"; 129];
    for (arguments, message) in [
        (vec![], "Invalid SSH argument count"),
        (many, "Invalid SSH argument count"),
        (
            vec!["-vG", "host"],
            "SSH -G is not supported for a persistent interactive connection",
        ),
        (vec!["-i"], "SSH -i needs an argument"),
        (vec!["-i", "", "host"], "SSH -i has an empty argument"),
        (vec!["-Z", "host"], "Unsupported SSH option -Z"),
        (
            vec!["host", "ls"],
            "Expected exactly one SSH destination and no remote command",
        ),
        (vec!["--", "-host"], "Invalid SSH destination"),
        (vec![""], "Invalid SSH destination"),
        (vec!["ho\0st"], "Invalid SSH reconnect recipe"),
    ] {
        assert_eq!(recipe(&arguments).validate().unwrap_err().message, message);
    }
    let relative = SshRecipe { working_directory: "tmp".into(), arguments: vec!["host".into()] };
    assert_eq!(relative.validate().unwrap_err().message, "Invalid SSH reconnect recipe");
    let long = "x".repeat(MAX_RECIPE_BYTES + 1);
    assert!(recipe(&[&long]).validate().is_err());
    assert!(recipe(&[&long[1..]]).validate().is_ok());
    assert_eq!(
        recipe(&["host"]).master_arguments("control").unwrap_err().message,
        "SSH control socket must be an absolute UTF-8 path"
    );
    assert_eq!(
        recipe(&["host"]).recovery_command("a", "b").unwrap_err().message,
        "Invalid recovery workspace identity"
    );
    for (record, message) in [
        (&b""[..], "Incomplete or oversized SSH reconnect record"),
        (b"EWSSH1\0/\xff\0host\0", "invalid utf-8 sequence of 1 bytes from index 1"),
        (b"EWSSH2\0/\0host\0", "Unknown SSH reconnect record format"),
        (b"EWSSH1\0/\0", "Unknown SSH reconnect record format"),
    ] {
        assert_eq!(SshRecipe::decode(&record.to_vec()).unwrap_err().message, message);
    }
}

#[test]
fn options_are_read_with_their_values() {
    let list: Vec<String> =
        ["-4vp22", "-l", "me", "host"].iter().map(|arg| (*arg).to_owned()).collect();
    let parsed = parse_arguments(&list).unwrap();
    assert_eq!(parsed.destination, "host");
    assert_eq!(
        parsed.options,
        [
            ('4', None),
            ('v', None),
            ('p', Some("22".to_owned())),
            ('l', Some("me".to_owned())),
        ]
    );
}

fn entry(directory: bool, mode: u32, length: u64) -> LocalEntry {
    LocalEntry { directory, file: !directory, owner: 501, mode, length }
}

#[test]
fn only_private_bounded_records_are_read() {
    assert_eq!(record_name(42), "42.argv");
    assert!(check_recipes_directory(&entry(true, 0o40700, 0), 501).is_ok());
    assert!(check_recipes_directory(&entry(true, 0o40750, 0), 501).is_err());
    assert!(check_recipes_directory(&entry(true, 0o40700, 0), 502).is_err());
    assert!(check_recipes_directory(&entry(false, 0o100600, 0), 501).is_err());
    let limit = MAX_RECIPE_BYTES as u64;
    assert!(check_recipe_record(&entry(false, 0o100600, limit), 501).is_ok());
    assert!(check_recipe_record(&entry(false, 0o100600, limit + 1), 501).is_err());
    assert!(check_recipe_record(&entry(false, 0o100604, 1), 501).is_err());
    assert!(check_recipe_record(&entry(true, 0o40700, 1), 501).is_err());
}

fn bookmark() -> WorkspaceBookmark {
    WorkspaceBookmark {
        version: 1,
        workspace_id: "a".repeat(32),
        generation: "b".repeat(32),
        shell: "bash".into(),
        recipe: SshRecipe {
            working_directory: "/home/test".into(),
            arguments: vec!["-F".into(), "config with spaces".into(), "lab".into()],
        },
    }
}

#[test]
fn persistent_bookmark_rejects_invalid_identity_shell_and_version() {
    let mut record = bookmark();
    record.version = 2;
    assert!(record.validate().is_err());
    record.version = 1;
    record.generation = "../another-workspace".into();
    assert!(record.validate().is_err());
    record.generation = "a".repeat(32);
    record.shell = "bash -c unexpected".into();
    assert!(record.validate().is_err());
    assert!(filename(&b"invalid-uuid".to_vec()).is_err());
}

#[test]
fn persistent_bookmark_rejects_public_files_and_directories() {
    assert!(check_bookmarks_directory(&entry(true, 0o40700, 0), 501).is_ok());
    assert!(check_bookmarks_directory(&entry(true, 0o40701, 0), 501).is_err());
    assert!(check_bookmark_record(&entry(false, 0o100600, MAX_BYTES as u64), 501).is_ok());
    assert!(check_bookmark_record(&entry(false, 0o100644, 1), 501).is_err());
    assert!(check_bookmark_record(&entry(false, 0o100600, MAX_BYTES as u64 + 1), 501).is_err());
    assert!(check_bookmark_size(MAX_BYTES).is_ok());
    assert_eq!(
        check_bookmark_size(MAX_BYTES + 1).unwrap_err().message,
        "Workspace restore record is too large"
    );
}

#[test]
fn a_record_is_named_by_the_bytes_of_its_tab() {
    let bytes: Vec<u8> = (0..16u8).map(|byte| byte * 17).collect();
    assert_eq!(filename(&bytes).unwrap(), "00112233445566778899aabbccddeeff.json");
    assert_eq!(
        filename(&vec![0; 3]).unwrap_err().message,
        "invalid length: expected 16 bytes, found 3"
    );
}

#[test]
fn a_bookmark_restores_the_exact_attachment() {
    for (shell_type, shell) in
        [(ShellType::Bash, "bash"), (ShellType::Zsh, "zsh"), (ShellType::Fish, "fish")]
    {
        let attachment = Attachment {
            workspace_id: "a".repeat(32),
            generation: "b".repeat(32),
            shell_type,
            recipe: recipe(&["-p", "22", "lab"]),
        };
        let record = WorkspaceBookmark::from_attachment(&attachment).unwrap();
        assert_eq!(record.shell, shell);
        let restored = record.attach().unwrap();
        assert_eq!(restored.workspace_id, attachment.workspace_id);
        assert_eq!(restored.generation, attachment.generation);
        assert_eq!(restored.shell_type, shell_type);
        assert_eq!(restored.recipe.arguments, attachment.recipe.arguments);
    }
    let mut attachment = Attachment {
        workspace_id: "a".repeat(32),
        generation: "b".repeat(32),
        shell_type: ShellType::PowerShell,
        recipe: recipe(&["lab"]),
    };
    assert_eq!(
        WorkspaceBookmark::from_attachment(&attachment).unwrap_err().message,
        "Unsupported persistent workspace shell"
    );
    attachment.shell_type = ShellType::Bash;
    attachment.workspace_id = "x".to_owned();
    assert!(WorkspaceBookmark::from_attachment(&attachment).is_err());
}

#[test]
fn a_profile_holds_the_scripts_of_its_shell() {
    let profile = profile_for_shell(ShellType::Zsh, b"init".to_vec(), b"rest".to_vec()).unwrap();
    assert_eq!(profile.shell, "zsh");
    assert_eq!(profile.init_script, b"init");
    assert_eq!(profile.bootstrap_script, b"rest");
    assert_eq!(
        ShellType::Fish.init_asset(),
        Some("bundled/bootstrap/fish_init_shell.sh")
    );
    assert_eq!(
        profile_for_shell(ShellType::PowerShell, vec![], vec![]).unwrap_err().message,
        "Persistent Unix workspaces do not support PowerShell"
    );
}

#[test]
fn what_belongs_to_the_lost_connection_leaves_the_recovery_as_it_is() {
    let (id, generation) = ("a".repeat(32), "b".repeat(32));
    let plain = recipe(&["-p", "2222", "host"]).recovery_command(&id, &generation).unwrap();
    let entries: [&[&str]; 13] = [
        &["-M"],
        &["-N"],
        &["-n"],
        &["-T"],
        &["-t"],
        &["-S", "/tmp/socket"],
        &["-S/tmp/socket"],
        &["-D", "1080"],
        &["-L1:host:2"],
        &["-R", "1:host:2"],
        &["-o", "stdinnull=yes"],
        &["-oRemoteCommand top"],
        &["-o", "LOCALFORWARD 1 host:2"],
    ];
    for entry in entries {
        let mut arguments = entry.to_vec();
        arguments.extend(["-p", "2222", "host"]);
        assert_eq!(recipe(&arguments).recovery_command(&id, &generation).unwrap(), plain);
    }
    assert_ne!(
        recipe(&["-A", "-p", "2222", "host"]).recovery_command(&id, &generation).unwrap(),
        plain
    );
}

#[test]
fn normalized_arguments_are_parsed_alike() {
    let given = ["-vvAp2222", "-oUser=x", "-J", "jump", "--", "host"].map(str::to_owned).to_vec();
    let parsed = parse_arguments(&given).unwrap();
    let mut normalized = Vec::new();
    for (flag, value) in &parsed.options {
        normalized.push(format!("-{flag}"));
        normalized.extend(value.clone());
    }
    normalized.push("--".to_owned());
    normalized.push(parsed.destination.clone());
    let again = parse_arguments(&normalized).unwrap();
    assert_eq!(again.options, parsed.options);
    assert_eq!(again.destination, "host");
}

#[test]
fn a_record_gives_its_recipe_back_unless_it_is_cut() {
    let written = recipe(&["-F", "config with spaces", "-o", "User=\u{e9}", "host"]);
    let mut record = b"EWSSH1\0".to_vec();
    for field in std::iter::once(&written.working_directory).chain(&written.arguments) {
        record.extend_from_slice(field.as_bytes());
        record.push(0);
    }
    let read = SshRecipe::decode(&record).unwrap();
    assert_eq!(read.working_directory, written.working_directory);
    assert_eq!(read.arguments, written.arguments);
    record.pop();
    assert!(SshRecipe::decode(&record).is_err());
}
