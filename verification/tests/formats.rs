//! What is read from Git, from disk, and from callers, and what is said back.

use change_capsule::capabilities::Capabilities;
use change_capsule::digest::{lower_hex_len, sha256_hex, unhex_text};
use change_capsule::execution::{check_command, exit_code, tail_text, Execution};
use change_capsule::files::{
    check_created_directory, check_exact_file, check_export_destination, check_json_input,
    check_json_size, check_lock_file, check_prepared, check_reservation_size, destination_error,
    directory_to_create, entry_exists, is_unchecked_worktree_shape, json_input_error,
    noclobber_error, overwrite_error, publication_order, reject_symlink_or_non_file_if_present,
    validate_empty_private_directory, validate_unmaterialized, EmptyProbe, EntryKind, FileName,
    ShapeProbe,
};
use change_capsule::git::{
    clean, commits_ahead, delete_branch_if_matches, delete_ref_if_matches, dirty_submodules,
    finish_command, git_variable,
    head_ref, hidden_index_entries, output_text, parents, parse_changed_gitlinks, parse_nul_paths,
    parse_nul_strings, parse_worktrees, ref_head, render_command, repository_error,
    resolved_commit, sparse_checkout, CapturedOutput, GitExit, WorktreeRecord,
};
use change_capsule::inventory::{IgnoredEntry, InventoryRun, OpenedFile};
use change_capsule::links::Links;
use change_capsule::options::{collect_links, render_argument, TimeLimit};
use change_capsule::paths::simplify;
use change_capsule::runs::{CommitRun, CommitStep, SnapshotRun, SnapshotSource, SnapshotStep};
use change_capsule::signature::{private_key_error, public_key_error};
use change_capsule::store::{
    check_bounded_read, check_declared_version, decode_versioned_json, StateStore,
};
use change_capsule::text::{
    blank, decimal_text, parse_u64, signed_decimal_text, strip_prefix, trimmed,
};
use change_capsule::validate::{parse_link, project_key, validate_author, validate_links};
use change_capsule::{
    commands, default_state_root, Author, CapsuleManager, CloseOptions, CreateOptions, Error,
    EvidenceInput, GitPath, IntegrateOptions, IoFault, NativePath,
};

const COMMIT: &str = "1111111111111111111111111111111111111111";
const OTHER: &str = "2222222222222222222222222222222222222222";

fn path(text: &str) -> NativePath {
    NativePath::new(text)
}

fn io(fault: IoFault) -> Error {
    Error::Io { path: path("/somewhere"), fault, detail: "refused".to_owned() }
}

fn texts(arguments: Vec<Vec<u8>>) -> Vec<String> {
    arguments.into_iter().map(|a| String::from_utf8(a).expect("text argument")).collect()
}

#[test]
fn git_path_raw_encoding_is_strictly_canonical() {
    assert!(GitPath::UnixBytes { unix_bytes_hex: "ff".to_owned() }.is_valid_encoding());
    for invalid in ["FF", "666f6f", "f", "00", "zz", "61"] {
        assert!(
            !GitPath::UnixBytes { unix_bytes_hex: invalid.to_owned() }.is_valid_encoding(),
            "{invalid}"
        );
    }
}

#[test]
fn non_utf8_git_inventory_paths_round_trip_losslessly() {
    let raw = b"bad-\xff-name".to_vec();
    let encoded = GitPath::from_raw(raw.clone());
    assert_eq!(encoded, GitPath::UnixBytes { unix_bytes_hex: hex::encode(&raw) });
    assert_eq!(encoded.to_path().expect("path").bytes, raw);
    assert_eq!(GitPath::from_raw(b"plain".to_vec()), GitPath::Utf8("plain".to_owned()));
    assert_eq!(parse_nul_paths(b"a\0bad-\xff\0").len(), 2);
}

#[test]
fn digests_have_their_known_values() {
    assert_eq!(
        sha256_hex(b"abc"),
        "ba7816bf8f01cfea414140de5dae2223b00361a396177a9cb410ff61f20015ad"
    );
    assert_eq!(unhex_text("00ff"), Some(vec![0, 255]));
    assert_eq!(unhex_text("0F"), None);
    assert_eq!(lower_hex_len("abc1"), Some(4));
    assert_eq!(lower_hex_len("xyz"), None);
    assert_eq!(
        project_key(&path("/repo/.git")).expect("key").len(),
        project_key(&path("/other/.git")).expect("key").len()
    );
}

#[test]
fn texts_are_trimmed_counted_and_parsed_exactly() {
    assert_eq!(trimmed(" \t a b \u{2003}\n"), "a b");
    assert!(blank("\u{a0}\t"));
    assert!(!blank("x"));
    assert_eq!(decimal_text(0), "0");
    assert_eq!(decimal_text(u64::MAX), "18446744073709551615");
    assert_eq!(signed_decimal_text(i32::MIN), "-2147483648");
    assert_eq!(parse_u64("+7"), Some(7));
    assert_eq!(parse_u64("18446744073709551616"), None);
    assert_eq!(parse_u64(""), None);
    assert_eq!(strip_prefix("refs/heads/x", "refs/heads/"), Some("x".to_owned()));
}

#[test]
fn errors_say_what_happened_and_have_stable_kinds() {
    let cases: Vec<(Error, &str, &str)> = vec![
        (Error::NotRepository(path("/x")), "not a Git repository: /x", "not_repository"),
        (Error::NotFound("cap-1".to_owned()), "capsule not found: cap-1", "not_found"),
        (Error::InvalidId("x".to_owned()), "invalid capsule id: x", "invalid_input"),
        (Error::InvalidInput("no".to_owned()), "invalid input: no", "invalid_input"),
        (
            Error::IdempotencyConflict,
            "idempotency key is already bound to a different creation request",
            "idempotency_conflict",
        ),
        (Error::IdempotencyNotFound, "idempotency reservation not found", "idempotency_not_found"),
        (
            Error::InvalidState {
                id: "cap-1".to_owned(),
                state: "closed".to_owned(),
                expected: "active".to_owned(),
            },
            "capsule cap-1 is closed; expected active",
            "invalid_state",
        ),
        (Error::UnsafeState("odd".to_owned()), "unsafe state path: odd", "safety"),
        (
            Error::ForeignWorktree(path("/w")),
            "refusing to remove a foreign or replaced worktree: /w",
            "safety",
        ),
        (
            Error::UnsealedChanges("cap-1".to_owned()),
            "capsule has unsealed changes; close it first or pass --force: cap-1",
            "unsealed_result",
        ),
        (
            Error::ResultDrift("cap-1".to_owned()),
            "closed capsule has drifted since its result was sealed: cap-1",
            "unsealed_result",
        ),
        (
            Error::DirtyIntegrationTarget(path("/t")),
            "integration target is not clean: /t",
            "dirty_target",
        ),
        (
            Error::Git { command: "git x".to_owned(), status: -1, stderr: "bad".to_owned() },
            "Git command failed (git x, exit -1): bad",
            "git",
        ),
        (
            Error::GitOutputTooLarge { command: "git x".to_owned(), cap: 9 },
            "Git output exceeded the 9-byte bound for: git x",
            "git",
        ),
        (
            Error::NonUtf8Path(NativePath::from_bytes(b"a\xff".to_vec())),
            "unsupported non-UTF-8 path: \"a\u{fffd}\"",
            "unsupported_path",
        ),
        (
            Error::SchemaVersion { found: 2, supported: 5 },
            "state schema version 2 is incompatible with supported version 5",
            "schema_version",
        ),
        (
            Error::ArtifactNotFound("x".to_owned()),
            "artifact not found: x",
            "artifact_not_found",
        ),
        (Error::PolicyViolation("x".to_owned()), "policy violation: x", "policy"),
        (Error::Verification("x".to_owned()), "bundle verification failed: x", "verification"),
        (io(IoFault::Other), "I/O error at /somewhere: refused", "internal"),
        (
            Error::Json { path: path("/j"), detail: "eof".to_owned() },
            "invalid JSON at /j: eof",
            "internal",
        ),
        (Error::CaptureWorker, "internal worker failed while capturing Git output", "internal"),
    ];
    for (error, message, kind) in cases {
        assert_eq!(error.message(), message);
        assert_eq!(error.kind(), kind);
        assert_eq!(error.clone(), error);
    }
}

#[test]
fn paths_are_compared_by_components() {
    assert!(path("/a//b/").same_path(&path("/a/./b")));
    assert!(!path("/a/b").same_path(&path("a/b")));
    assert!(path("/a/b/c").is_within(&path("/a/b")));
    assert!(!path("/a/bc").is_within(&path("/a/b")));
    assert!(!path("a/../b").is_confined());
    assert!(path("a/b").is_confined());
    assert_eq!(path("/a").join("b").bytes, b"/a/b".to_vec());
    assert_eq!(path("/a").join("/b").bytes, b"/b".to_vec());
    assert_eq!(simplify(path("\\\\?\\C:\\work")).bytes, b"C:\\work".to_vec());
    assert_eq!(simplify(path("\\\\?\\C:")).bytes, b"C:".to_vec());
    assert_eq!(
        simplify(path("\\\\?\\UNC\\server\\share")).bytes,
        b"\\\\?\\UNC\\server\\share".to_vec()
    );
    assert_eq!(simplify(path("/plain")).bytes, b"/plain".to_vec());
}

#[test]
fn duplicate_link_keys_are_rejected_instead_of_silently_overwritten() {
    let pair = |k: &str, v: &str| (k.to_owned(), v.to_owned());
    assert!(matches!(
        collect_links(&vec![pair("task", "one"), pair("task", "two")]),
        Err(Error::InvalidInput(_))
    ));
    let links = collect_links(&vec![pair("b", "2"), pair("a", "1")]).expect("links");
    assert_eq!(links.key(0), "a");
    assert_eq!(links.value(1), "2");
    assert_eq!(parse_link("task=issue=42"), Ok(pair("task", "issue=42")));
    assert!(parse_link("task").is_err());
    assert!(validate_links(&Links::single("task", "x")).is_ok());
    assert!(validate_links(&Links::single("a b", "x")).is_err());
    let mut many = Links::new();
    for n in 0..33 {
        many.insert(&format!("k{n}"), "v");
    }
    assert!(CreateOptions::new(path("/repo")).with_links(many).validate().is_err());
}

#[test]
fn options_build_what_they_say() {
    let options = CreateOptions::new(path("/repo"))
        .with_base("main")
        .with_label("candidate")
        .with_links(Links::single("task", "1"));
    assert_eq!(options.base, "main");
    assert_eq!(options.label.as_deref(), Some("candidate"));
    assert_eq!(options.links.get("task"), Some("1"));
    assert_eq!(CreateOptions::new(path("/repo")).base, "HEAD");
    assert!(CloseOptions::executed().require_executed_evidence);
    assert!(!CloseOptions::executed().require_successful_evidence);
    assert!(!CloseOptions::default().require_executed_evidence);
    let limited = EvidenceInput::run(vec!["sleep".to_owned(), "1".to_owned()])
        .with_timeout(TimeLimit { seconds: 1, nanoseconds: 0 });
    assert!(matches!(limited, EvidenceInput::Run { timeout: Some(limit), .. } if limit.seconds == 1));
    assert_eq!(render_argument("plain"), "plain");
    assert_eq!(render_argument("a b"), "'a b'");
    assert_eq!(render_argument("it's"), "'it'\\''s'");
    assert_eq!(
        EvidenceInput::run(vec!["sh".to_owned(), "-c".to_owned(), "exit 1".to_owned()]).command_line(),
        "sh -c 'exit 1'"
    );
    assert_eq!(
        IntegrateOptions::new(path("/repo"), Author::new("n", "e@x"))
            .with_message("m")
            .message
            .as_deref(),
        Some("m")
    );
    assert!(validate_author("Name", "a@example.test").is_ok());
    assert!(validate_author("", "a@example.test").is_err());
    assert!(validate_author("Na\nme", "a@example.test").is_err());
}

#[test]
fn worktree_listings_are_parsed_exactly() {
    let listing = b"worktree /repo\0HEAD 1111111111111111111111111111111111111111\0branch refs/heads/main\0\0worktree /state/w\0HEAD 2222222222222222222222222222222222222222\0detached\0\0";
    let records = parse_worktrees(listing).expect("parse");
    assert_eq!(records.len(), 2);
    assert_eq!(records[0].path, path("/repo"));
    assert_eq!(records[0].branch.as_deref(), Some("main"));
    assert_eq!(records[0].head.as_deref(), Some(COMMIT));
    assert_eq!(records[1].branch, None);
    assert!(!records[1].bare);
    assert_eq!(parse_nul_strings(b"a\0b\0").expect("strings"), vec!["a", "b"]);
    assert!(parse_nul_strings(b"a\xff\0").is_err());
}

#[test]
fn gitlinks_are_found_in_raw_index_differences() {
    let line = format!(":000000 160000 {COMMIT} {OTHER} A\0embedded\0:100644 100644 {COMMIT} {OTHER} M\0file\0");
    assert_eq!(parse_changed_gitlinks(line.as_bytes()).expect("parse"), vec!["embedded"]);
    assert!(parse_changed_gitlinks(b":bad\0").is_err());
}

#[test]
fn git_values_are_checked_before_they_are_believed() {
    assert_eq!(sparse_checkout("true\n").expect("value"), true);
    assert_eq!(sparse_checkout("false").expect("value"), false);
    assert!(sparse_checkout("maybe").is_err());
    assert_eq!(commits_ahead("12\n").expect("count"), 12);
    assert!(commits_ahead("many").is_err());
    assert_eq!(
        parents(&format!("{OTHER} {COMMIT}\n"), OTHER).expect("parents"),
        vec![COMMIT.to_owned()]
    );
    assert!(parents(&format!("{COMMIT}\n"), OTHER).is_err());
    assert!(parents("", OTHER).is_err());
    assert_eq!(ref_head(""), None);
    assert_eq!(ref_head(&format!("{COMMIT}\n")).as_deref(), Some(COMMIT));
    assert_eq!(head_ref("refs/heads/main\n").expect("ref"), "refs/heads/main");
    assert!(head_ref("").is_err());
    assert_eq!(resolved_commit(&format!("{COMMIT}\n")).expect("commit"), COMMIT);
    assert!(resolved_commit("HEAD").is_err());
    assert!(hidden_index_entries(b"H a\0S b\0"));
    assert!(hidden_index_entries(b"h a\0"));
    assert!(!hidden_index_entries(b"H a\0M b\0"));
    assert!(matches!(
        repository_error(
            &path("/x"),
            Error::Git { command: "git".to_owned(), status: 128, stderr: String::new() }
        ),
        Error::NotRepository(_)
    ));
    assert!(git_variable(b"GIT_DIR"));
    assert!(!git_variable(b"PATH"));
    assert!(output_text(b"\xff".to_vec()).is_err());
    let rendered =
        render_command(&path("/usr/bin/git"), &vec![b"rev-parse".to_vec(), b"HEAD".to_vec()]);
    assert!(rendered.contains("rev-parse HEAD"), "{rendered}");
}

#[test]
fn refs_are_only_deleted_where_they_are_expected() {
    let at = |c: &str| Some(c.to_owned());
    assert_eq!(delete_ref_if_matches("refs/x", &None, COMMIT).expect("absent"), false);
    assert_eq!(delete_ref_if_matches("refs/x", &at(COMMIT), COMMIT).expect("present"), true);
    assert!(matches!(
        delete_ref_if_matches("refs/x", &at(OTHER), COMMIT),
        Err(Error::UnsafeState(message)) if message.contains("refusing to delete ref refs/x")
    ));
    let checked_out = vec![WorktreeRecord {
        path: path("/w"),
        branch: Some("capsule/x".to_owned()),
        head: at(COMMIT),
        bare: false,
    }];
    assert!(matches!(
        delete_branch_if_matches("capsule/x", &at(COMMIT), COMMIT, &checked_out),
        Err(Error::UnsafeState(message)) if message.contains("checked-out branch")
    ));
    assert_eq!(
        delete_branch_if_matches("capsule/x", &at(COMMIT), COMMIT, &Vec::new()).expect("free"),
        true
    );
}

#[test]
fn command_output_is_bounded_and_failures_are_reported() {
    let mut captured = CapturedOutput::new();
    captured.push(b"abc", 4);
    captured.push(b"def", 4);
    let captured = captured.finish(4);
    assert!(captured.exceeded);
    let exit = |success: bool, stdout: CapturedOutput| GitExit {
        success,
        code: Some(if success { 0 } else { 128 }),
        stdout,
        stderr: b"fatal: no\n".to_vec(),
    };
    assert!(matches!(
        finish_command("git x".to_owned(), exit(true, captured), None, 4),
        Err(Error::GitOutputTooLarge { cap: 4, .. })
    ));
    let mut small = CapturedOutput::new();
    small.push(b"ok", 4);
    assert_eq!(
        finish_command("git x".to_owned(), exit(true, small.finish(4)), None, 4).expect("output"),
        b"ok".to_vec()
    );
    assert!(matches!(
        finish_command("git x".to_owned(), exit(false, CapturedOutput::new().finish(4)), None, 4),
        Err(Error::Git { status: 128, .. })
    ));
}

#[test]
fn git_is_asked_with_hardened_arguments() {
    let hardened = texts(commands::hardening(&path("/hooks")));
    assert!(hardened.iter().any(|a| a == "core.hooksPath=/hooks"), "{hardened:?}");
    assert_eq!(texts(commands::head_commit()), vec!["rev-parse", "HEAD"]);
    assert_eq!(
        texts(commands::add_worktree(&path("/w"), "capsule/x", COMMIT)),
        vec!["worktree", "add", "--no-checkout", "-b", "capsule/x", "/w", COMMIT]
    );
    assert_eq!(
        texts(commands::create_ref("refs/x", COMMIT)),
        vec!["update-ref", "refs/x", COMMIT, "0000000000000000000000000000000000000000"]
    );
    assert_eq!(
        texts(commands::remove_worktree(&path("/w"), true)),
        vec!["worktree", "remove", "--force", "/w"]
    );
    let checkout = |sparse| -> Vec<Vec<String>> {
        commands::finish_worktree_creation(COMMIT, sparse).into_iter().map(texts).collect()
    };
    assert_eq!(checkout(false), vec![vec!["reset", "--hard", COMMIT]]);
    assert_eq!(
        checkout(true),
        vec![vec!["sparse-checkout", "disable"], vec!["reset", "--hard", COMMIT]]
    );
    assert_eq!(commands::branch_ref("capsule/x"), "refs/heads/capsule/x");
    assert_eq!(commands::range_from(COMMIT), format!("{COMMIT}..HEAD"));
    let identity = commands::identity_env("Name", "a@example.test");
    assert!(identity.iter().any(|v| v.key == "GIT_AUTHOR_NAME" && v.value == b"Name".to_vec()));
    assert_eq!(commands::index_env(&path("/i")).key, "GIT_INDEX_FILE");
}

#[test]
fn snapshots_refuse_embedded_repositories() {
    let run = SnapshotRun::start(COMMIT, SnapshotSource::Worktree);
    assert_eq!(texts(run.call().arguments), vec!["read-tree", COMMIT]);
    let next = |step: Result<SnapshotStep, Error>| match step.expect("step") {
        SnapshotStep::Next(run) => run,
        SnapshotStep::Finished(_) => panic!("finished early"),
    };
    let run = next(run.advance(Ok(Vec::new())));
    let run = next(run.advance(Ok(Vec::new())));
    let raw = format!(":000000 160000 {COMMIT} {OTHER} A\0embedded\0");
    let run = next(run.advance(Ok(raw.into_bytes())));
    let refused = run.advance(Err(Error::Git {
        command: "git submodule status".to_owned(),
        status: 1,
        stderr: String::new(),
    }));
    assert!(refused.is_err(), "an unregistered embedded repository is no submodule");

    let run = SnapshotRun::start(COMMIT, SnapshotSource::Commit(OTHER.to_owned()));
    let run = next(run.advance(Ok(b"patch".to_vec())));
    match run.advance(Ok(b"a\0b\0".to_vec())).expect("finish") {
        SnapshotStep::Finished(snapshot) => {
            assert_eq!(snapshot.patch, b"patch".to_vec());
            assert_eq!(snapshot.changed_paths.len(), 2);
        }
        SnapshotStep::Next(_) => panic!("not finished"),
    }
}

#[test]
fn commits_are_prepared_without_touching_any_branch() {
    let mut run = CommitRun::start(COMMIT, b"patch", "message");
    let mut arguments = Vec::new();
    let tree = format!("{OTHER}\n").into_bytes();
    let mut finished = None;
    for _ in 0..8 {
        let call = run.call();
        let first = texts(call.arguments)[0].clone();
        arguments.push(first.clone());
        match run.advance(Ok(tree.clone())).expect("advance") {
            CommitStep::Next(next) => run = next,
            CommitStep::Finished(commit) => {
                finished = Some(commit);
                break;
            }
        }
    }
    assert_eq!(finished.as_deref(), Some(OTHER));
    assert_eq!(arguments, vec!["read-tree", "apply", "write-tree", "commit-tree"]);
}

#[test]
fn ignored_content_is_inventoried_losslessly() {
    let take = |name: GitPath, content: &[u8]| {
        let mut run = InventoryRun::start(vec![name]);
        let relative = run.next_path().expect("next").expect("one path");
        let found = path("/w").join_path(&relative);
        let run = run
            .accept(
                &relative,
                &found,
                IgnoredEntry::File {
                    listed: content.len() as u64,
                    opened: Ok(OpenedFile {
                        regular: true,
                        size: content.len() as u64,
                        content: Ok(content.to_vec()),
                        size_after: Ok(content.len() as u64),
                    }),
                },
            )
            .expect("accept");
        let mut run = run;
        assert!(run.next_path().expect("next").is_none());
        run.finish()
    };
    let first = take(GitPath::Utf8("ignored.log".to_owned()), b"one");
    let second = take(GitPath::Utf8("ignored.log".to_owned()), b"two");
    let third = take(GitPath::from_raw(b"bad-\xff".to_vec()), b"one");
    assert_eq!(first.bytes, 3);
    assert_ne!(first.content_sha256, second.content_sha256);
    assert_ne!(first.content_sha256, third.content_sha256);

    let mut run = InventoryRun::start(vec![GitPath::Utf8("ignored.log".to_owned())]);
    let relative = run.next_path().expect("next").expect("one path");
    let moved = run.accept(
        &relative,
        &path("/w/ignored.log"),
        IgnoredEntry::File {
            listed: 3,
            opened: Ok(OpenedFile {
                regular: true,
                size: 4,
                content: Ok(b"four".to_vec()),
                size_after: Ok(4),
            }),
        },
    );
    assert!(matches!(
        moved,
        Err(Error::UnsafeState(message)) if message.contains("changed while it was inspected")
    ));
    let mut escaping = InventoryRun::start(vec![GitPath::Utf8("../outside".to_owned())]);
    assert!(escaping.next_path().is_err());
}

#[test]
fn executions_are_observed_exactly() {
    let run = Execution::observe(b"out", b"", Some(0), None).expect("observe");
    assert_eq!(run.exit_code(), 0);
    assert_eq!(run.output_bytes(), 3);
    assert_eq!(run.tail(), "out");
    let mut preimage = b"change-capsule evidence output v1\0".to_vec();
    preimage.extend_from_slice(&3u64.to_be_bytes());
    preimage.extend_from_slice(b"out");
    preimage.extend_from_slice(&0u64.to_be_bytes());
    assert_eq!(run.output_sha256(), sha256_hex(&preimage));
    let split = Execution::observe(b"ou", b"t", Some(0), None).expect("observe");
    assert_ne!(split.output_sha256(), run.output_sha256());
    assert_eq!(exit_code(None, Some(9)), 137);
    assert_eq!(exit_code(None, None), -1);
    assert_eq!(tail_text(b"out\n", b"  err\x07or\n"), "error");
    assert_eq!(tail_text(b"\xffx", b""), "\u{fffd}x");
    let huge = vec![b'x'; 8 * 1024 * 1024 + 1];
    assert!(Execution::observe(&huge, b"", Some(0), None).is_err());
    assert!(check_command(&Vec::new()).is_err());
    assert!(check_command(&vec!["true".to_owned()]).is_ok());
}

#[test]
fn bounded_reads_reject_non_files() {
    assert!(matches!(
        check_bounded_read(&path("/dir"), false, 0, 0, 1024),
        Err(Error::UnsafeState(_))
    ));
    assert!(check_bounded_read(&path("/f"), true, 10, 10, 1024).is_ok());
    assert!(check_bounded_read(&path("/f"), true, 2048, 1024, 1024).is_err());
    assert!(check_bounded_read(&path("/f"), true, 10, 2048, 1024).is_err());
}

#[test]
fn unsupported_schema_versions_fail_closed() {
    assert!(decode_versioned_json(&path("/f"), b"{\"schema_version\":5}").is_ok());
    assert!(matches!(
        decode_versioned_json(&path("/f"), b"{\"schema_version\":2}"),
        Err(Error::SchemaVersion { found: 2, supported: 5 })
    ));
    assert!(matches!(
        decode_versioned_json(&path("/f"), b"{}"),
        Err(Error::UnsafeState(message)) if message.contains("no valid schema_version")
    ));
    assert!(matches!(decode_versioned_json(&path("/f"), b"not json"), Err(Error::Json { .. })));
    assert!(matches!(
        decode_versioned_json(&path("/f"), b"{\"schema_version\":4294967296}"),
        Err(Error::UnsafeState(_))
    ));
    assert!(check_declared_version(&path("/f"), Ok(Some(5))).is_ok());
}

#[test]
fn state_lives_below_one_private_root() {
    let store = StateStore::new(path("/state"));
    assert_eq!(store.capsules_dir(), path("/state/capsules"));
    assert_eq!(store.locks_dir(), path("/state/locks"));
    assert_eq!(
        store.idempotency_record_path(&"a".repeat(64)).expect("path"),
        path(&format!("/state/idempotency/{}.json", "a".repeat(64)))
    );
    assert!(store.idempotency_record_path("raw key").is_err());
    assert!(store.project_lock_path("../x").is_err());
    assert!(store.capsule_dir("../x").is_err());
    assert_eq!(
        default_state_root(Some(path("/home/cap")), None, None).expect("root"),
        path("/home/cap")
    );
    assert_eq!(
        default_state_root(None, Some(path("/xdg")), Some(path("/home/u"))).expect("root"),
        path("/xdg/change-capsule")
    );
    assert_eq!(
        default_state_root(None, None, Some(path("/home/u"))).expect("root"),
        path("/home/u/.local/state/change-capsule")
    );
    assert!(default_state_root(None, None, None).is_err());
    assert_eq!(
        CapsuleManager::open_default(Some(path("/home/cap")), None, None)
            .expect("manager")
            .state_root(),
        &path("/home/cap")
    );
}

#[test]
fn directories_are_judged_by_what_is_really_there() {
    assert_eq!(entry_exists(Ok(EntryKind::Symlink)).expect("entry"), true);
    assert_eq!(entry_exists(Err(io(IoFault::NotFound))).expect("entry"), false);
    assert!(entry_exists(Err(io(IoFault::Other))).is_err());
    assert_eq!(directory_to_create(&path("/d"), Err(io(IoFault::NotFound))).expect("new"), true);
    assert_eq!(directory_to_create(&path("/d"), Ok(EntryKind::Directory)).expect("old"), false);
    assert!(directory_to_create(&path("/d"), Ok(EntryKind::Symlink)).is_err());
    assert!(check_created_directory(&path("/d"), Ok(EntryKind::File)).is_err());
    assert!(reject_symlink_or_non_file_if_present(&path("/f"), Ok(EntryKind::Symlink)).is_err());
    assert!(
        reject_symlink_or_non_file_if_present(&path("/f"), Err(io(IoFault::NotFound))).is_ok()
    );
    let probe = |has_entry: bool, shared: bool| EmptyProbe {
        found: Ok(EntryKind::Directory),
        has_entry: Ok(has_entry),
        shared: Ok(shared),
    };
    assert!(validate_empty_private_directory(&path("/d"), probe(false, false)).is_ok());
    assert!(validate_empty_private_directory(&path("/d"), probe(true, false)).is_err());
    assert!(validate_empty_private_directory(&path("/d"), probe(false, true)).is_err());
    assert!(validate_unmaterialized(&path("/d"), Ok(false), probe(true, true)).is_ok());
    assert!(validate_unmaterialized(&path("/d"), Ok(true), probe(true, false)).is_err());
    assert!(check_prepared(&path("/d"), Ok(()), false, probe(true, true)).is_ok());
    assert!(check_prepared(
        &path("/d"),
        Err(io(IoFault::AlreadyExists)),
        true,
        probe(false, false)
    )
    .is_ok());
    assert!(check_prepared(
        &path("/d"),
        Err(io(IoFault::AlreadyExists)),
        false,
        probe(false, false)
    )
    .is_err());
}

#[test]
fn writes_are_bounded_and_never_clobber() {
    assert!(check_json_size(&path("/f"), 10, 10).is_ok());
    assert!(check_json_size(&path("/f"), 11, 10).is_err());
    assert!(check_reservation_size(1).is_ok());
    assert!(check_reservation_size(262_145).is_err());
    assert!(!matches!(
        noclobber_error(&path("/f"), io(IoFault::AlreadyExists)),
        Error::Io { .. }
    ));
    assert!(matches!(noclobber_error(&path("/f"), io(IoFault::Other)), Error::Io { .. }));
    assert!(check_export_destination(&path("/r"), Ok(false)).is_ok());
    assert!(check_export_destination(&path("/r"), Ok(true)).is_err());
    assert!(!matches!(
        destination_error(&path("/r"), io(IoFault::AlreadyExists)),
        Error::Io { .. }
    ));
    let name = |n: &str| FileName { bytes: n.as_bytes().to_vec() };
    let order = publication_order(
        vec![name("result.patch"), name("bundle.json"), name("result.json")],
        b"bundle.json",
    );
    assert_eq!(order, vec![name("result.json"), name("result.patch")]);
    let shape = |entries: Vec<FileName>, git_entry: EntryKind| {
        is_unchecked_worktree_shape(ShapeProbe {
            found: Ok(EntryKind::Directory),
            entries: Ok(entries),
            git_entry: Ok(git_entry),
        })
        .expect("shape")
    };
    assert!(shape(vec![name(".git")], EntryKind::File));
    assert!(!shape(vec![name(".git"), name("x")], EntryKind::File));
    assert!(!shape(vec![name(".git")], EntryKind::Directory));
}

#[test]
fn capabilities_current_json_is_an_exact_static_contract() {
    let current = Capabilities::current();
    assert_eq!(current.capability_schema_version, 1);
    assert_eq!(current.product, "change-capsule");
    assert_eq!(current.product_version, "0.3.0");
    assert_eq!(current.protocol_versions, vec![1]);
    assert_eq!(
        current.features,
        vec![
            "cli.structured-errors.v1",
            "create.v1",
            "create.idempotent.v1",
            "idempotency.lookup.v1",
            "recover.targeted.v1",
            "diff.sha256.v1",
            "receipt.export.v1",
            "receipt.verify.v1",
            "receipt.attest.intoto.v1",
            "evidence.executed.v1",
        ]
    );
    assert_eq!(current.schemas.durable_read_write, vec![5]);
    assert_eq!(current.schemas.receipt_verify, vec![5]);
    assert_eq!(current.schemas.bundle, vec![1]);
    assert_eq!(current.schemas.idempotency_record, vec![1]);
    assert_eq!(current.limits.label_bytes, 256);
    assert_eq!(current.limits.links, 32);
    assert_eq!(current.limits.link_key_bytes, 64);
    assert_eq!(current.limits.link_value_bytes, 4096);
    assert_eq!(current.limits.idempotency_key_bytes, 256);
}

#[test]
fn key_inputs_require_exact_length_without_trailing_bytes() {
    let key = path("/keys/private");
    assert!(check_exact_file(&key, "Ed25519 private seed", true, 32, 32).is_ok());
    for (regular, size) in [(false, 32), (true, 31), (true, 33)] {
        assert_eq!(
            check_exact_file(&key, "Ed25519 private seed", regular, size, 32)
                .expect_err("refused")
                .message(),
            "invalid input: Ed25519 private seed must be a regular non-link file containing exactly 32 raw bytes: /keys/private"
        );
    }
    assert_eq!(
        overwrite_error(&key, "key", io(IoFault::AlreadyExists)),
        Error::InvalidInput("refusing to overwrite key file: /keys/private".to_owned())
    );
    assert_eq!(overwrite_error(&key, "key", io(IoFault::Other)), io(IoFault::Other));
    let failed = Error::InvalidInput("no".to_owned());
    assert!(public_key_error(&path("/p"), &failed).message().contains(
        "public key publication failed at /p; no private key was published: invalid input: no; remove"
    ));
    assert!(private_key_error(&path("/p"), &key, &failed).message().contains(
        "public key was published at /p; private key publication failed at /keys/private: invalid input: no; remove"
    ));
}

#[test]
fn documents_of_the_caller_are_bounded() {
    let document = path("/policy.json");
    assert!(check_json_input(&document, true, 64, 64, 64).is_ok());
    assert_eq!(
        check_json_input(&document, true, 65, 0, 64),
        Err(Error::InvalidInput(
            "JSON input must be a regular non-link file no larger than 64 bytes: /policy.json"
                .to_owned()
        ))
    );
    assert!(check_json_input(&document, false, 1, 1, 64).is_err());
    assert_eq!(
        check_json_input(&document, true, 64, 65, 64),
        Err(Error::InvalidInput("JSON input exceeds 64 bytes: /policy.json".to_owned()))
    );
    assert_eq!(
        json_input_error(&document, "expected value"),
        Error::InvalidInput("invalid JSON input at /policy.json: expected value".to_owned())
    );
    assert!(check_lock_file(&path("/state/locks/global.lock"), true).is_ok());
    assert_eq!(
        check_lock_file(&path("/state/locks/global.lock"), false),
        Err(Error::UnsafeState(
            "lock is not a regular file: /state/locks/global.lock".to_owned()
        ))
    );
}

#[test]
fn export_and_backup_refuse_dangling_symlink_destinations() {
    // A dangling link is something, though it leads nowhere.
    let present = || entry_exists(Ok(EntryKind::Symlink));
    assert!(matches!(
        check_export_destination(&path("/export-link"), present()),
        Err(Error::InvalidInput(message)) if message.contains("already exists")
    ));
    assert!(matches!(
        CapsuleManager::open(path("/state")).backup_state(
            &path("/backup-link"),
            Ok(Some(path("/backup-link"))),
            present(),
            Ok(Vec::new()),
        ),
        Err(Error::InvalidInput(message)) if message.contains("already exists")
    ));
}

#[test]
fn worktree_status_tells_clean_dirty_and_submodules_apart() {
    assert!(clean(b""));
    assert!(!clean(b" M shared.txt\0"));
    assert!(!dirty_submodules(b" M shared.txt\0", b" M shared.txt\0"));
    assert!(dirty_submodules(b" M module\0", b""));
}

/// A path in a field of the inventory, as the digest covers it.
fn field(name: &str, value: &str) -> Vec<u8> {
    let mut all = (name.len() as u64).to_be_bytes().to_vec();
    all.extend_from_slice(name.as_bytes());
    all.extend_from_slice(b"unix-bytes");
    all.extend_from_slice(&(value.len() as u64).to_be_bytes());
    all.extend_from_slice(value.as_bytes());
    all
}

#[test]
fn a_whole_walk_covers_the_tree_in_order() {
    let file = |content: &[u8]| IgnoredEntry::File {
        listed: content.len() as u64,
        opened: Ok(OpenedFile {
            regular: true,
            size: content.len() as u64,
            content: Ok(content.to_vec()),
            size_after: Ok(content.len() as u64),
        }),
    };
    let names = |all: &[&str]| IgnoredEntry::Directory {
        entries: Ok(all.iter().map(|n| FileName { bytes: n.as_bytes().to_vec() }).collect()),
    };
    let read = |relative: &str| match relative {
        "out" => names(&["z", "a", "sub"]),
        "out/a" => file(b"first"),
        "out/sub" => names(&["b"]),
        "out/sub/b" => file(b""),
        "out/z" => IgnoredEntry::Link { target: Ok(path("a")), size: 1 },
        "log" => file(b"last"),
        other => panic!("unexpected path {other}"),
    };
    // The second root lies below the first: nothing is looked at twice.
    let roots = ["out", "out/sub", "log"];
    let mut run =
        InventoryRun::start(roots.iter().map(|r| GitPath::Utf8((*r).to_owned())).collect());
    let mut order = Vec::new();
    while let Some(relative) = run.next_path().expect("next") {
        let name = relative.display();
        run = run
            .accept(&relative, &path("/w").join_path(&relative), read(&name))
            .expect("accept");
        order.push(name);
    }
    assert_eq!(order, vec!["out", "out/a", "out/sub", "out/sub/b", "out/z", "log"]);

    let mut covered = b"change-capsule ignored-content inventory v2\0".to_vec();
    let mut entry = |relative: &str, rest: &[u8]| {
        covered.extend_from_slice(&field("relative", relative));
        covered.extend_from_slice(rest);
    };
    let content = |bytes: &[u8]| {
        let mut all = b"file".to_vec();
        all.extend_from_slice(&(bytes.len() as u64).to_be_bytes());
        all.extend_from_slice(bytes);
        all
    };
    entry("out", b"dir");
    entry("out/a", &content(b"first"));
    entry("out/sub", b"dir");
    entry("out/sub/b", &content(b""));
    let mut link = b"link".to_vec();
    link.extend_from_slice(&field("target", "a"));
    entry("out/z", &link);
    entry("log", &content(b"last"));
    let inventory = run.finish();
    assert_eq!(inventory.bytes, 10);
    assert_eq!(inventory.content_sha256, sha256_hex(&covered));
}
