use codex_toolkit::marketplace_cmd::{
    expand_tilde_path, marketplace_root_for_manifest_path, parse_marketplace_source,
    stage_failure, stage_local_source, stage_marketplace_source, ExpandedPath, LocalKind,
    LocalPlan, MarketplaceCmdError, MarketplaceInstallMetadata, MarketplaceSource, StageFailure,
    StagePlan,
};
use codex_toolkit::marketplace_cmd_flow::{
    CmdAction, CmdAnswer, CmdFlow, CmdPlaces, CmdStep,
};
use codex_toolkit::marketplace_config::MarketplaceConfigUpdate;
use codex_toolkit::marketplace_destination::{DestinationReport, ResolvedPath};
use codex_toolkit::path::{LocalPath, PathComponent};
use std::path::{Component, Path};

fn local_path(path: &Path) -> LocalPath {
    let components = path
        .components()
        .map(|component| match component {
            Component::Prefix(prefix) => {
                PathComponent::Prefix(prefix.as_os_str().as_encoded_bytes().to_vec())
            }
            Component::RootDir => PathComponent::RootDir,
            Component::CurDir => PathComponent::CurDir,
            Component::ParentDir => PathComponent::ParentDir,
            Component::Normal(name) => PathComponent::Normal(name.as_encoded_bytes().to_vec()),
        })
        .collect();
    LocalPath { components }
}

fn resolved(text: &str) -> ResolvedPath {
    ResolvedPath { path: local_path(Path::new(text)), shown: text.to_string() }
}

fn canonical(text: String) -> Result<ResolvedPath, MarketplaceCmdError> {
    match Path::new(&text).canonicalize() {
        Ok(path) => {
            Ok(ResolvedPath { path: local_path(&path), shown: path.display().to_string() })
        }
        Err(error) => {
            Err(stage_failure(StageFailure::ResolveSource { path: text }, error.to_string()))
        }
    }
}

fn parse(
    source: &str,
    explicit_ref: Option<&str>,
) -> Result<MarketplaceSource, MarketplaceCmdError> {
    parse_marketplace_source(source, explicit_ref.map(str::to_string), canonical)
}

#[test]
fn marketplace_cmd_github_shorthand_parses_ref_suffix() {
    assert_eq!(
        parse("owner/repo@main", None).unwrap(),
        MarketplaceSource::Git {
            url: "https://github.com/owner/repo.git".to_string(),
            ref_name: Some("main".to_string()),
        }
    );
}

#[test]
fn marketplace_cmd_git_url_parses_fragment_ref() {
    assert_eq!(
        parse("https://example.com/team/repo.git#v1", None).unwrap(),
        MarketplaceSource::Git {
            url: "https://example.com/team/repo.git".to_string(),
            ref_name: Some("v1".to_string()),
        }
    );
}

#[test]
fn marketplace_cmd_explicit_ref_overrides_source_ref() {
    assert_eq!(
        parse("owner/repo@main", Some("release")).unwrap(),
        MarketplaceSource::Git {
            url: "https://github.com/owner/repo.git".to_string(),
            ref_name: Some("release".to_string()),
        }
    );
}

#[test]
fn marketplace_cmd_github_shorthand_and_git_url_normalize_to_same_source() {
    let shorthand = parse("owner/repo", None).unwrap();
    let git_url = parse("https://github.com/owner/repo.git", None).unwrap();

    assert_eq!(shorthand, git_url);
    assert_eq!(
        shorthand,
        MarketplaceSource::Git {
            url: "https://github.com/owner/repo.git".to_string(),
            ref_name: None,
        }
    );
}

#[test]
fn marketplace_cmd_github_url_with_trailing_slash_normalizes_without_extra_path_segment() {
    assert_eq!(
        parse("https://github.com/owner/repo/", None).unwrap(),
        MarketplaceSource::Git {
            url: "https://github.com/owner/repo.git".to_string(),
            ref_name: None,
        }
    );
}

#[test]
fn marketplace_cmd_non_github_https_source_parses_as_git_url() {
    assert_eq!(
        parse("https://gitlab.com/owner/repo", None).unwrap(),
        MarketplaceSource::Git {
            url: "https://gitlab.com/owner/repo".to_string(),
            ref_name: None,
        }
    );
}

#[test]
fn marketplace_cmd_file_url_source_is_rejected() {
    let err = parse("file:///tmp/marketplace.git", None).unwrap_err();

    assert!(
        err.message.contains("invalid marketplace source format"),
        "unexpected error: {}",
        err.message
    );
}

#[test]
fn local_path_source_parses() {
    let source = parse(".", None).unwrap();

    let MarketplaceSource::Path { path } = source else {
        panic!("expected local path source");
    };
    assert!(path.path.is_absolute());
}

#[test]
fn manifest_url_source_parses() {
    assert_eq!(
        parse("https://example.com/.agents/plugins/marketplace.json", None).unwrap(),
        MarketplaceSource::ManifestUrl {
            url: "https://example.com/.agents/plugins/marketplace.json".to_string(),
        }
    );
}

#[test]
fn non_git_sources_reject_ref_override() {
    let err = parse("./marketplace", Some("main")).unwrap_err();

    assert!(
        err.message.contains("--ref is only supported for git marketplace sources"),
        "unexpected error: {}",
        err.message
    );
}

#[test]
fn non_git_sources_reject_sparse_checkout() {
    let path = canonical(".".to_string()).unwrap();
    let err = stage_marketplace_source(
        &MarketplaceSource::Path { path },
        &vec!["plugins/foo".to_string()],
        "/tmp",
    )
    .unwrap_err();

    assert!(
        err.message.contains("--sparse is only supported for git marketplace sources"),
        "unexpected error: {}",
        err.message
    );
}

#[test]
fn marketplace_cmd_ssh_url_parses_as_git_url() {
    assert_eq!(
        parse("ssh://git@github.com/owner/repo.git#main", None).unwrap(),
        MarketplaceSource::Git {
            url: "ssh://git@github.com/owner/repo.git".to_string(),
            ref_name: Some("main".to_string()),
        }
    );
}

#[test]
fn manifests_are_found_behind_queries_and_slashes() {
    for url in [
        "http://e.com/marketplace.json?x=1",
        "https://e.com/my-marketplace.json/",
        "https://e.com/marketplace.json//?a/b",
    ] {
        assert_eq!(parse(url, None).unwrap(), MarketplaceSource::ManifestUrl { url: url.to_string() });
    }
    assert_eq!(
        parse("https://e.com/?marketplace.json", None).unwrap(),
        MarketplaceSource::Git {
            url: "https://e.com/?marketplace.json".to_string(),
            ref_name: None,
        }
    );
    assert_eq!(
        parse("https://e.com/marketplace.json#v1", None).unwrap_err().message,
        "--ref is only supported for git marketplace sources"
    );
}

#[test]
fn sources_that_are_none_are_refused() {
    assert_eq!(
        parse("  ", None).unwrap_err(),
        MarketplaceCmdError::plain("marketplace source must not be empty".to_string())
    );
    assert_eq!(
        parse("owner", None).unwrap_err(),
        MarketplaceCmdError::plain("invalid marketplace source format: owner".to_string())
    );
    let missing = parse("./no/such/marketplace", None).unwrap_err();
    assert_eq!(missing.message, "failed to resolve local marketplace source ./no/such/marketplace");
    assert!(missing.cause.is_some());
}

#[test]
fn sources_are_shown_as_they_are_written() {
    assert_eq!(parse("owner/repo@main", None).unwrap().display(), "https://github.com/owner/repo.git#main");
    assert_eq!(parse("owner/repo", None).unwrap().display(), "https://github.com/owner/repo.git");
    assert_eq!(MarketplaceSource::Path { path: resolved("/x") }.display(), "/x");
    let url = "https://e.com/marketplace.json";
    assert_eq!(parse(url, None).unwrap().display(), url);
}

#[test]
fn a_tilde_stands_for_the_home_directory() {
    let below = |variable: &str, rest: &str| ExpandedPath::Below {
        variable: variable.to_string(),
        rest: rest.to_string(),
    };
    let written = |path: &str| ExpandedPath::AsWritten { path: path.to_string() };
    assert_eq!(expand_tilde_path("~/a/b", true, true), below("HOME", "a/b"));
    assert_eq!(expand_tilde_path("~/a/b", false, true), below("USERPROFILE", "a/b"));
    assert_eq!(expand_tilde_path("~/a/b", false, false), written("~/a/b"));
    assert_eq!(expand_tilde_path("./a", true, true), written("./a"));
    assert_eq!(expand_tilde_path("~/", true, false), below("HOME", ""));
}

#[test]
fn each_source_is_staged_in_its_way() {
    let none = Vec::new();
    let git = parse("owner/repo", None).unwrap();
    let Ok(StagePlan::Clone { commands }) = stage_marketplace_source(&git, &none, "/staged") else {
        panic!("a git source is cloned");
    };
    assert_eq!(commands.len(), 1);
    assert_eq!(commands[0].args, ["clone", "https://github.com/owner/repo.git", "/staged"]);
    let sparse = vec!["plugins/foo".to_string()];
    assert!(stage_marketplace_source(&git, &sparse, "/staged").is_ok());

    let path = MarketplaceSource::Path { path: resolved("/x") };
    assert_eq!(
        stage_marketplace_source(&path, &none, "/staged").unwrap(),
        StagePlan::CopyLocal { path: resolved("/x") }
    );
    let manifest = parse("https://e.com/marketplace.json", None).unwrap();
    assert_eq!(
        stage_marketplace_source(&manifest, &none, "/staged").unwrap(),
        StagePlan::Download { url: "https://e.com/marketplace.json".to_string() }
    );
    assert!(stage_marketplace_source(&manifest, &sparse, "/staged").is_err());
}

#[test]
fn a_manifest_in_its_place_has_the_marketplace_around_it() {
    let root = |text: &str| marketplace_root_for_manifest_path(&local_path(Path::new(text)));
    assert_eq!(
        root("/m/.agents/plugins/marketplace.json"),
        Some(local_path(Path::new("/m")))
    );
    assert_eq!(root("/.agents/plugins/marketplace.json"), Some(local_path(Path::new("/"))));
    assert_eq!(root(".agents/plugins/marketplace.json"), Some(local_path(Path::new(""))));
    assert_eq!(root("/m/agents/plugins/marketplace.json"), None);
    assert_eq!(root("/m/.agents/plugin/marketplace.json"), None);
    assert_eq!(root("/m/.agents/plugins/market.json"), None);
    assert_eq!(root("plugins/marketplace.json"), None);
}

#[test]
fn local_sources_are_staged_by_what_they_are() {
    let plain = resolved("/m/x.json");
    let placed = resolved("/m/.agents/plugins/marketplace.json");
    assert_eq!(
        stage_local_source(&resolved("/m"), Ok(LocalKind::Directory)).unwrap(),
        LocalPlan::CopyTree { root: local_path(Path::new("/m")) }
    );
    assert_eq!(
        stage_local_source(&placed, Ok(LocalKind::File)).unwrap(),
        LocalPlan::CopyTree { root: local_path(Path::new("/m")) }
    );
    assert_eq!(
        stage_local_source(&plain, Ok(LocalKind::File)).unwrap(),
        LocalPlan::CopyManifest
    );
    assert_eq!(
        stage_local_source(&plain, Ok(LocalKind::Other)).unwrap_err(),
        MarketplaceCmdError::plain(
            "local marketplace source must be a file or directory: /m/x.json".to_string()
        )
    );
    assert_eq!(
        stage_local_source(&plain, Err("gone".to_string())).unwrap_err(),
        MarketplaceCmdError::caused(
            "failed to read local marketplace source metadata /m/x.json".to_string(),
            "gone".to_string()
        )
    );
}

#[test]
fn failures_of_staging_tell_where() {
    let text = |text: &str| text.to_string();
    for (failure, message) in [
        (
            StageFailure::CurrentDirectory,
            "failed to read current working directory for local marketplace source",
        ),
        (
            StageFailure::ResolveSource { path: text("p") },
            "failed to resolve local marketplace source p",
        ),
        (
            StageFailure::CopyManifest { from: text("a"), to: text("b") },
            "failed to copy local marketplace manifest a to b",
        ),
        (
            StageFailure::DownloadManifest { url: text("u") },
            "failed to download marketplace manifest from u",
        ),
        (
            StageFailure::ReadDownload { url: text("u") },
            "failed to read downloaded marketplace manifest from u",
        ),
        (
            StageFailure::WriteManifest { to: text("t") },
            "failed to write downloaded marketplace manifest to t",
        ),
    ] {
        assert_eq!(
            stage_failure(failure, text("why")),
            MarketplaceCmdError::caused(text(message), text("why"))
        );
    }
}

#[test]
fn records_name_the_type_of_the_source() {
    let sparse = vec!["plugins/foo".to_string()];
    let git = parse("owner/repo@main", None).unwrap();
    let metadata = MarketplaceInstallMetadata::from_source(&git, &sparse);
    assert_eq!(metadata.config_source_type(), "git");
    assert_eq!(metadata.config_source(), "https://github.com/owner/repo.git");
    assert_eq!(metadata.ref_name(), Some("main"));
    assert_eq!(metadata.sparse_paths(), sparse);

    let path = MarketplaceSource::Path { path: resolved("/x") };
    let metadata = MarketplaceInstallMetadata::from_source(&path, &sparse);
    assert_eq!(metadata.config_source_type(), "path");
    assert_eq!(metadata.config_source(), "/x");
    assert_eq!(metadata.ref_name(), None);
    assert!(metadata.sparse_paths().is_empty());

    let manifest = parse("https://e.com/marketplace.json", None).unwrap();
    let metadata = MarketplaceInstallMetadata::from_source(&manifest, &sparse);
    assert_eq!(metadata.config_source_type(), "manifest_url");
    assert_eq!(metadata.config_source(), "https://e.com/marketplace.json");
    assert_eq!(metadata.ref_name(), None);
    assert!(metadata.sparse_paths().is_empty());
}

fn begin() -> CmdStep {
    CmdFlow::begin(
        MarketplaceSource::Path { path: resolved("/src") },
        Vec::new(),
        "openai-curated".to_string(),
        Ok(CmdPlaces {
            install_root: "/home/plugins".to_string(),
            staging_root: "/home/plugins/.staging".to_string(),
        }),
    )
}

fn next(step: CmdStep, answer: CmdAnswer) -> CmdStep {
    match step {
        CmdStep::Continue(flow) => flow.advance(answer),
        CmdStep::Finished(result) => panic!("{result:?}"),
    }
}

fn pending(step: &CmdStep) -> &CmdAction {
    match step {
        CmdStep::Continue(flow) => &flow.pending,
        CmdStep::Finished(result) => panic!("{result:?}"),
    }
}

fn error_of(step: CmdStep) -> MarketplaceCmdError {
    match step {
        CmdStep::Finished(Err(error)) => error,
        other => panic!("{other:?}"),
    }
}

fn caused(message: &str) -> MarketplaceCmdError {
    MarketplaceCmdError::caused(message.to_string(), "broken".to_string())
}

fn plain(message: &str) -> MarketplaceCmdError {
    MarketplaceCmdError::plain(message.to_string())
}

fn done() -> CmdAnswer {
    CmdAnswer::Done(Ok(()))
}

fn broken() -> CmdAnswer {
    CmdAnswer::Done(Err("broken".to_string()))
}

fn named(name: &str) -> CmdAnswer {
    CmdAnswer::Validated { name: Ok(name.to_string()), segment: Ok(()) }
}

fn inside() -> CmdAnswer {
    CmdAnswer::Destination(DestinationReport {
        shown: "/home/plugins/debug".to_string(),
        install_root: Ok(resolved("/home/plugins")),
        parent: Some(Ok(local_path(Path::new("/home/plugins")))),
    })
}

fn staged() -> CmdStep {
    let step = begin();
    assert_eq!(pending(&step), &CmdAction::CreateInstallRoot);
    let step = next(step, done());
    assert_eq!(pending(&step), &CmdAction::CreateStagingRoot);
    let step = next(step, done());
    assert_eq!(pending(&step), &CmdAction::CreateStagedDir);
    let step = next(step, done());
    assert_eq!(pending(&step), &CmdAction::StageSource);
    let step = next(step, CmdAnswer::Staged(Ok(())));
    assert_eq!(pending(&step), &CmdAction::ValidateStaged);
    step
}

fn installed() -> CmdStep {
    let step = next(next(staged(), named("debug")), inside());
    let step = next(step, CmdAnswer::DestinationExists(false));
    let step = next(step, done());
    assert!(matches!(pending(&step), CmdAction::ReadClock { .. }));
    step
}

#[test]
fn the_command_installs_records_and_reports() {
    let step = next(installed(), CmdAnswer::Clock(Ok(1_775_779_200)));
    assert!(matches!(
        pending(&step),
        CmdAction::RecordEntry { target, update }
            if target.name == "debug"
                && target.dir_name == "debug"
                && update == &MarketplaceConfigUpdate {
                    last_updated: "2026-04-10T00:00:00Z".to_string(),
                    source_type: "path".to_string(),
                    source: "/src".to_string(),
                    ref_name: None,
                    sparse_paths: Vec::new(),
                }
    ));
    assert_eq!(
        next(step, done()),
        CmdStep::Finished(Ok(vec![
            "Added marketplace `debug` from /src.".to_string(),
            "Installed marketplace root: /home/plugins/debug".to_string(),
        ]))
    );
}

#[test]
fn the_command_leaves_what_is_installed_alone() {
    let found = || {
        let step = next(next(staged(), named("debug")), inside());
        next(step, CmdAnswer::DestinationExists(true))
    };
    assert!(matches!(pending(&found()), CmdAction::ValidateInstalled { .. }));
    assert_eq!(
        next(found(), done()),
        CmdStep::Finished(Ok(vec![
            "Marketplace `debug` is already added.".to_string(),
            "Installed marketplace root: /home/plugins/debug".to_string(),
        ]))
    );
    assert_eq!(
        error_of(next(found(), broken())),
        caused("failed to validate installed marketplace at /home/plugins/debug")
    );
}

#[test]
fn the_command_tells_where_it_failed() {
    let no_home = CmdFlow::begin(
        MarketplaceSource::Path { path: resolved("/src") },
        Vec::new(),
        "openai-curated".to_string(),
        Err("broken".to_string()),
    );
    assert_eq!(error_of(no_home), caused("failed to resolve CODEX_HOME"));
    assert_eq!(
        error_of(next(begin(), broken())),
        caused("failed to create marketplace install directory /home/plugins")
    );
    assert_eq!(
        error_of(next(next(begin(), done()), broken())),
        caused("failed to create marketplace staging directory /home/plugins/.staging")
    );
    let step = next(next(begin(), done()), done());
    assert_eq!(
        error_of(next(step, broken())),
        caused("failed to create temporary marketplace directory in /home/plugins/.staging")
    );
    let step = next(next(next(begin(), done()), done()), done());
    assert_eq!(error_of(next(step, CmdAnswer::Staged(Err(plain("sparse"))))), plain("sparse"));
    let step = next(next(staged(), named("debug")), inside());
    let step = next(step, CmdAnswer::DestinationExists(false));
    assert_eq!(
        error_of(next(step, broken())),
        caused("failed to install marketplace at /home/plugins/debug")
    );
}

#[test]
fn the_command_refuses_names_it_cannot_use() {
    let answer = |name: Result<&str, &str>, segment: Result<(), &str>| CmdAnswer::Validated {
        name: name.map(str::to_string).map_err(str::to_string),
        segment: segment.map_err(str::to_string),
    };
    assert_eq!(
        error_of(next(staged(), answer(Err("broken"), Ok(())))),
        caused("failed to validate marketplace from /src")
    );
    assert_eq!(
        error_of(next(staged(), answer(Ok("x"), Err("broken")))),
        caused("failed to validate marketplace from /src")
    );
    assert_eq!(
        error_of(next(staged(), named("openai-curated"))),
        plain("marketplace `openai-curated` is reserved and cannot be added from /src")
    );
    assert_eq!(
        error_of(next(staged(), named("."))),
        plain("marketplace name `.` cannot be used as an install directory")
    );
}

#[test]
fn the_command_keeps_to_the_install_root() {
    let report = |install_root: Result<ResolvedPath, String>,
                  parent: Option<Result<LocalPath, String>>| {
        let report = DestinationReport { shown: "/d".to_string(), install_root, parent };
        let step = next(staged(), named("debug"));
        error_of(next(step, CmdAnswer::Destination(report)))
    };
    let failed = || "broken".to_string();
    assert_eq!(
        report(Err(failed()), None),
        caused("failed to resolve marketplace install root /home/plugins")
    );
    assert_eq!(
        report(Ok(resolved("/real")), None),
        plain("marketplace destination has no parent")
    );
    assert_eq!(
        report(Ok(resolved("/real")), Some(Err(failed()))),
        caused("failed to resolve marketplace destination parent /d")
    );
    assert_eq!(
        report(Ok(resolved("/real")), Some(Ok(local_path(Path::new("/re/al"))))),
        plain("marketplace destination /d is outside install root /real")
    );
}

#[test]
fn the_command_rolls_back_what_it_cannot_record() {
    let unrecorded = || next(next(installed(), CmdAnswer::Clock(Ok(0))), broken());
    assert!(matches!(pending(&unrecorded()), CmdAction::RollBack { .. }));
    assert_eq!(
        error_of(next(unrecorded(), done())),
        caused("failed to add marketplace `debug` to user config.toml")
    );
    assert_eq!(
        error_of(next(unrecorded(), CmdAnswer::Done(Err("stuck".to_string())))),
        plain("failed to add marketplace `debug` to user config.toml; additionally failed to roll back installed marketplace at /home/plugins/debug: stuck")
    );
    let step = next(installed(), CmdAnswer::Clock(Err("broken".to_string())));
    assert_eq!(error_of(next(step, done())), caused("system clock is before Unix epoch"));
}
