use codex_toolkit::marketplace_add::{
    parse_marketplace_source, MarketplaceAddError, MarketplaceAddOutcome, MarketplaceAddRequest,
    MarketplaceInstallMetadata, MarketplaceSource,
};
use codex_toolkit::marketplace_add_flow::{
    AddAction, AddAnswer, AddFlow, AddPlace, AddPlaces, AddStep, ConfigRead,
};
use codex_toolkit::marketplace_config::{
    marketplaces_in, read_marketplaces, MarketplaceConfigEntry, MarketplaceConfigUpdate,
};
use codex_toolkit::marketplace_destination::{DestinationReport, ResolvedPath};
use codex_toolkit::path::{LocalPath, PathComponent};

fn git(url: &str, ref_name: Option<&str>) -> MarketplaceSource {
    MarketplaceSource::Git { url: url.to_string(), ref_name: ref_name.map(str::to_string) }
}

#[test]
fn marketplace_add_github_shorthand_parses_ref_suffix() {
    assert_eq!(
        parse_marketplace_source("owner/repo@main", None).unwrap(),
        MarketplaceSource::Git {
            url: "https://github.com/owner/repo.git".to_string(),
            ref_name: Some("main".to_string()),
        }
    );
}

#[test]
fn marketplace_add_git_url_parses_fragment_ref() {
    assert_eq!(
        parse_marketplace_source("https://example.com/team/repo.git#v1", None).unwrap(),
        MarketplaceSource::Git {
            url: "https://example.com/team/repo.git".to_string(),
            ref_name: Some("v1".to_string()),
        }
    );
}

#[test]
fn marketplace_add_explicit_ref_overrides_source_ref() {
    assert_eq!(
        parse_marketplace_source("owner/repo@main", Some("release".to_string())).unwrap(),
        MarketplaceSource::Git {
            url: "https://github.com/owner/repo.git".to_string(),
            ref_name: Some("release".to_string()),
        }
    );
}

#[test]
fn marketplace_add_github_shorthand_and_git_url_normalize_to_same_source() {
    let shorthand = parse_marketplace_source("owner/repo", None).unwrap();
    let git_url = parse_marketplace_source("https://github.com/owner/repo.git", None).unwrap();

    assert_eq!(shorthand, git_url);
    assert_eq!(
        shorthand,
        MarketplaceSource::Git {
            url: "https://github.com/owner/repo.git".to_string(),
            ref_name: None,
        }
    );
}

#[test]
fn marketplace_add_github_url_with_trailing_slash_normalizes_without_extra_path_segment() {
    assert_eq!(
        parse_marketplace_source("https://github.com/owner/repo/", None).unwrap(),
        MarketplaceSource::Git {
            url: "https://github.com/owner/repo.git".to_string(),
            ref_name: None,
        }
    );
}

#[test]
fn marketplace_add_non_github_https_source_parses_as_git_url() {
    assert_eq!(
        parse_marketplace_source("https://gitlab.com/owner/repo", None).unwrap(),
        MarketplaceSource::Git {
            url: "https://gitlab.com/owner/repo".to_string(),
            ref_name: None,
        }
    );
}

#[test]
fn marketplace_add_file_url_source_is_rejected() {
    let err = parse_marketplace_source("file:///tmp/marketplace.git", None).unwrap_err();

    assert!(
        err.message().contains("invalid marketplace source format"),
        "unexpected error: {}",
        err.message()
    );
    assert_eq!(
        err,
        MarketplaceAddError::InvalidRequest(
            "invalid marketplace source format: file:///tmp/marketplace.git".to_string()
        )
    );
}

#[test]
fn parse_marketplace_source_rejects_local_directory_source() {
    let err = parse_marketplace_source("./marketplace", None).unwrap_err();

    assert_eq!(
        err.message(),
        "local marketplace sources are not supported yet; use an HTTP(S) Git URL, SSH Git URL, or GitHub owner/repo"
    );
}

#[test]
fn marketplace_add_ssh_url_parses_as_git_url() {
    assert_eq!(
        parse_marketplace_source("ssh://git@github.com/owner/repo.git#main", None).unwrap(),
        MarketplaceSource::Git {
            url: "ssh://git@github.com/owner/repo.git".to_string(),
            ref_name: Some("main".to_string()),
        }
    );
}

#[test]
fn scp_like_urls_keep_their_at_sign() {
    assert_eq!(
        parse_marketplace_source("git@github.com:owner/repo.git", None).unwrap(),
        git("git@github.com:owner/repo.git", None)
    );
}

#[test]
fn odd_sources() {
    for (text, expected) in [
        ("  owner/repo  ", Ok(git("https://github.com/owner/repo.git", None))),
        ("owner/repo@", Ok(git("https://github.com/owner/repo.git", None))),
        ("owner/repo# ", Ok(git("https://github.com/owner/repo.git", None))),
        ("https://github.com/o/r#a b", Ok(git("https://github.com/o/r.git", Some("a b")))),
        ("https://github.com/o/r.git//", Ok(git("https://github.com/o/r.git", None))),
        ("https://user@example.com/r", Ok(git("https://user@example.com/r", None))),
        ("", Err("marketplace source must not be empty")),
        ("   ", Err("marketplace source must not be empty")),
        ("owner", Err("invalid marketplace source format: owner")),
        ("owner/repo/x", Err("invalid marketplace source format: owner/repo/x")),
        ("own er/repo", Err("invalid marketplace source format: own er/repo")),
        ("owner/", Err("invalid marketplace source format: owner/")),
        (" a/b@c@d ", Err("invalid marketplace source format: a/b@c@d")),
    ] {
        let parsed = parse_marketplace_source(text, None);
        match expected {
            Ok(source) => assert_eq!(parsed.unwrap(), source, "{text:?}"),
            Err(message) => assert_eq!(parsed.unwrap_err().message(), message, "{text:?}"),
        }
    }
    let local = "local marketplace sources are not supported yet; use an HTTP(S) Git URL, SSH Git URL, or GitHub owner/repo";
    for text in [".", "..", "./x", "../x", "/x", "~/x", "./repo"] {
        assert_eq!(parse_marketplace_source(text, None).unwrap_err().message(), local);
    }
}

#[test]
fn the_display_of_a_source_names_its_ref() {
    assert_eq!(git("https://e.com/r", None).display(), "https://e.com/r");
    assert_eq!(git("https://e.com/r", Some("v1")).display(), "https://e.com/r#v1");
}

#[test]
fn metadata_matches_the_entry_that_records_it() {
    let source = git("https://github.com/owner/repo.git", Some("main"));
    let paths = vec!["plugins/foo".to_string()];
    let metadata = MarketplaceInstallMetadata::from_source(&source, &paths);
    assert_eq!(metadata.config_source_type(), "git");
    assert_eq!(metadata.config_source(), "https://github.com/owner/repo.git");
    assert_eq!(metadata.ref_name(), Some("main"));
    assert_eq!(metadata.sparse_paths(), &paths);

    let entry = MarketplaceConfigEntry {
        source_type: Some("git".to_string()),
        source: Some("https://github.com/owner/repo.git".to_string()),
        ref_name: Some("main".to_string()),
        sparse_paths: paths.clone(),
    };
    assert!(metadata.matches_config(&entry));
    for other in [
        MarketplaceConfigEntry { source_type: Some("path".to_string()), ..entry.clone() },
        MarketplaceConfigEntry { source_type: None, ..entry.clone() },
        MarketplaceConfigEntry { source: Some("x".to_string()), ..entry.clone() },
        MarketplaceConfigEntry { source: None, ..entry.clone() },
        MarketplaceConfigEntry { ref_name: None, ..entry.clone() },
        MarketplaceConfigEntry { ref_name: Some("dev".to_string()), ..entry.clone() },
        MarketplaceConfigEntry { sparse_paths: Vec::new(), ..entry.clone() },
    ] {
        assert!(!metadata.matches_config(&other), "{other:?}");
    }
}

const CONFIG: &str = r#"
model = "x"

[marketplaces.debug]
last_updated = "1970-01-01T00:00:00Z"
source_type = "git"
source = "https://github.com/owner/repo.git"

[marketplaces.other]
source_type = "git"
source = "https://github.com/owner/repo.git"
ref = "main"
sparse_paths = ["a", 1, "b"]

[marketplaces.again]
source_type = "git"
source = "https://github.com/owner/repo.git"
sparse_paths = "none"
"#;

#[test]
fn a_configuration_names_its_marketplaces() {
    let entries = read_marketplaces(CONFIG).unwrap();
    let names: Vec<&str> = entries.iter().map(|(name, _)| name.as_str()).collect();
    assert_eq!(names, ["again", "debug", "other"]);
    assert_eq!(
        entries[2].1,
        MarketplaceConfigEntry {
            source_type: Some("git".to_string()),
            source: Some("https://github.com/owner/repo.git".to_string()),
            ref_name: Some("main".to_string()),
            sparse_paths: vec!["a".to_string(), "b".to_string()],
        }
    );
    assert_eq!(entries[0].1.sparse_paths, Vec::<String>::new());
    assert_eq!(entries[1].1.ref_name, None);
}

#[test]
fn a_document_names_its_marketplaces() {
    let mut entry = toml::map::Map::new();
    entry.insert("source".to_string(), toml::Value::String("x".to_string()));
    entry.insert("ref".to_string(), toml::Value::Integer(3));
    let mut marketplaces = toml::map::Map::new();
    marketplaces.insert("debug".to_string(), toml::Value::Table(entry));
    let mut document = toml::map::Map::new();
    document.insert("marketplaces".to_string(), toml::Value::Table(marketplaces));
    assert_eq!(
        marketplaces_in(&toml::Value::Table(document)),
        vec![(
            "debug".to_string(),
            MarketplaceConfigEntry {
                source_type: None,
                source: Some("x".to_string()),
                ref_name: None,
                sparse_paths: Vec::new(),
            }
        )]
    );
    assert_eq!(marketplaces_in(&toml::Value::Integer(3)), Vec::new());
}

#[test]
fn a_configuration_without_marketplaces_names_none() {
    assert_eq!(read_marketplaces("").unwrap(), Vec::new());
    assert_eq!(read_marketplaces("marketplaces = 3").unwrap(), Vec::new());
    assert_eq!(
        read_marketplaces("[marketplaces]\nx = 1").unwrap(),
        vec![(
            "x".to_string(),
            MarketplaceConfigEntry {
                source_type: None,
                source: None,
                ref_name: None,
                sparse_paths: Vec::new(),
            }
        )]
    );
    assert!(read_marketplaces("= broken").is_err());
}

fn local(text: &str) -> LocalPath {
    let mut components = vec![PathComponent::RootDir];
    for name in text.split('/').filter(|name| !name.is_empty()) {
        components.push(PathComponent::Normal(name.as_bytes().to_vec()));
    }
    LocalPath { components }
}

fn request(source: &str) -> MarketplaceAddRequest {
    MarketplaceAddRequest { source: source.to_string(), ref_name: None, sparse_paths: Vec::new() }
}

fn begin(source: &str) -> AddStep {
    AddFlow::begin(
        request(source),
        "openai-curated".to_string(),
        AddPlaces {
            install_root: "/home/plugins".to_string(),
            config: "/home/config.toml".to_string(),
            staging_root: "/home/plugins/.staging".to_string(),
        },
    )
}

fn next(step: AddStep, answer: AddAnswer) -> AddStep {
    match step {
        AddStep::Continue(flow) => flow.advance(answer),
        AddStep::Finished(result) => panic!("{result:?}"),
    }
}

fn pending(step: &AddStep) -> &AddAction {
    match step {
        AddStep::Continue(flow) => &flow.pending,
        AddStep::Finished(result) => panic!("{result:?}"),
    }
}

fn error_of(step: AddStep) -> MarketplaceAddError {
    match step {
        AddStep::Finished(Err(error)) => error,
        other => panic!("{other:?}"),
    }
}

fn done() -> AddAnswer {
    AddAnswer::Done(Ok(()))
}

fn broken() -> AddAnswer {
    AddAnswer::Done(Err("broken".to_string()))
}

fn staged(name: &str) -> AddAnswer {
    AddAnswer::Staged { name: Ok(name.to_string()), segment: Ok(()) }
}

fn inside() -> AddAnswer {
    AddAnswer::Destination(DestinationReport {
        shown: "/home/plugins/debug".to_string(),
        install_root: Ok(ResolvedPath {
            path: local("/home/plugins"),
            shown: "/home/plugins".to_string(),
        }),
        parent: Some(Ok(local("/home/plugins"))),
    })
}

/// A flow that has cloned its source and is to validate it.
fn cloned() -> AddStep {
    let step = begin("owner/repo");
    assert_eq!(pending(&step), &AddAction::CreateInstallRoot);
    let step = next(step, done());
    assert_eq!(pending(&step), &AddAction::ReadConfig);
    let step = next(step, AddAnswer::Config(ConfigRead::Missing));
    assert_eq!(pending(&step), &AddAction::CreateStagingRoot);
    let step = next(step, done());
    assert_eq!(pending(&step), &AddAction::CreateStagedDir);
    let step = next(step, done());
    assert_eq!(pending(&step), &AddAction::CloneSource);
    let step = next(step, AddAnswer::Cloned(Ok(())));
    assert_eq!(pending(&step), &AddAction::ValidateStaged);
    step
}

/// A flow that has installed its source and is to record it.
fn installed() -> AddStep {
    let step = next(next(cloned(), staged("debug")), inside());
    let step = next(step, AddAnswer::DestinationExists(false));
    let step = next(step, done());
    assert!(matches!(
        pending(&step),
        AddAction::ReadClock { target }
            if target.name == "debug" && matches!(target.place, AddPlace::Fresh { .. })
    ));
    step
}

#[test]
fn a_new_marketplace_is_installed_and_recorded() {
    let step = next(installed(), AddAnswer::Clock(Ok(1_775_779_200)));
    assert!(matches!(
        pending(&step),
        AddAction::RecordEntry { target, update }
            if target.name == "debug"
                && update == &MarketplaceConfigUpdate {
                    last_updated: "2026-04-10T00:00:00Z".to_string(),
                    source_type: "git".to_string(),
                    source: "https://github.com/owner/repo.git".to_string(),
                    ref_name: None,
                    sparse_paths: Vec::new(),
                }
    ));
    let step = next(step, done());
    assert!(matches!(pending(&step), AddAction::ResolveInstalledRoot { .. }));
    let step = next(step, AddAnswer::Root(Ok(local("/home/plugins/debug"))));
    assert_eq!(
        step,
        AddStep::Finished(Ok(MarketplaceAddOutcome {
            marketplace_name: "debug".to_string(),
            source_display: "https://github.com/owner/repo.git".to_string(),
            installed_root: local("/home/plugins/debug"),
            already_added: false,
        }))
    );
}

#[test]
fn a_recorded_source_is_already_added() {
    let step = next(begin("owner/repo"), done());
    let step =
        next(step, AddAnswer::Config(ConfigRead::Text { text: CONFIG.to_string() }));
    assert_eq!(
        pending(&step),
        &AddAction::ValidateCandidate { dir: "again".to_string(), rest: vec!["debug".to_string()] }
    );
    let step = next(
        step,
        AddAnswer::Validated { shown: String::new(), name: Err("gone".to_string()) },
    );
    assert_eq!(
        pending(&step),
        &AddAction::ValidateCandidate { dir: "debug".to_string(), rest: Vec::new() }
    );
    let valid = || AddAnswer::Validated {
        shown: "/home/plugins/debug".to_string(),
        name: Ok("debug".to_string()),
    };
    let step = next(step, valid());
    assert_eq!(pending(&step), &AddAction::ValidateExisting { dir: "debug".to_string() });
    let step = next(step, valid());
    let step = next(step, AddAnswer::Clock(Ok(0)));
    let step = next(step, done());
    let step = next(step, AddAnswer::Root(Ok(local("/home/plugins/debug"))));
    assert_eq!(
        step,
        AddStep::Finished(Ok(MarketplaceAddOutcome {
            marketplace_name: "debug".to_string(),
            source_display: "https://github.com/owner/repo.git".to_string(),
            installed_root: local("/home/plugins/debug"),
            already_added: true,
        }))
    );
}

#[test]
fn candidates_that_are_gone_lead_to_a_fetch() {
    let gone = || AddAnswer::Validated { shown: String::new(), name: Err("gone".to_string()) };
    let step = next(begin("owner/repo"), done());
    let step =
        next(step, AddAnswer::Config(ConfigRead::Text { text: CONFIG.to_string() }));
    let step = next(next(step, gone()), gone());
    assert_eq!(pending(&step), &AddAction::CreateStagingRoot);
}

#[test]
fn an_existing_marketplace_that_turns_invalid_is_an_error() {
    let valid = AddAnswer::Validated { shown: String::new(), name: Ok("debug".to_string()) };
    let step = next(begin("owner/repo@main"), done());
    let text = CONFIG.replace("[\"a\", 1, \"b\"]", "[]");
    let step = next(step, AddAnswer::Config(ConfigRead::Text { text }));
    let step = next(step, valid);
    let step = next(
        step,
        AddAnswer::Validated { shown: "/x/other".to_string(), name: Err("bad".to_string()) },
    );
    assert_eq!(
        error_of(step),
        MarketplaceAddError::Internal(
            "failed to validate installed marketplace at /x/other: bad".to_string()
        )
    );
}

#[test]
fn a_source_that_cannot_be_read_ends_at_once() {
    assert_eq!(
        error_of(begin("")),
        MarketplaceAddError::InvalidRequest("marketplace source must not be empty".to_string())
    );
}

#[test]
fn a_configuration_that_cannot_be_read_is_an_error() {
    let step = next(begin("owner/repo"), done());
    let step = next(step, AddAnswer::Config(ConfigRead::Failed { error: "denied".to_string() }));
    assert_eq!(
        error_of(step),
        MarketplaceAddError::Internal(
            "failed to read user config /home/config.toml: denied".to_string()
        )
    );

    let step = next(begin("owner/repo"), done());
    let step = next(step, AddAnswer::Config(ConfigRead::Text { text: "= x".to_string() }));
    assert!(error_of(step)
        .message()
        .starts_with("failed to parse user config /home/config.toml: "));
}

#[test]
fn steps_that_fail_tell_where() {
    assert_eq!(
        error_of(next(begin("owner/repo"), broken())).message(),
        "failed to create marketplace install directory /home/plugins: broken"
    );
    let step = next(next(begin("owner/repo"), done()), AddAnswer::Config(ConfigRead::Missing));
    assert_eq!(
        error_of(next(step, broken())).message(),
        "failed to create marketplace staging directory /home/plugins/.staging: broken"
    );
    let step = next(next(begin("owner/repo"), done()), AddAnswer::Config(ConfigRead::Missing));
    let step = next(step, done());
    assert_eq!(
        error_of(next(step, broken())).message(),
        "failed to create temporary marketplace directory in /home/plugins/.staging: broken"
    );
    let step = next(next(begin("owner/repo"), done()), AddAnswer::Config(ConfigRead::Missing));
    let step = next(next(step, done()), done());
    let failed = MarketplaceAddError::Internal("git clone failed".to_string());
    assert_eq!(error_of(next(step, AddAnswer::Cloned(Err(failed.clone())))), failed);
    let step = next(next(cloned(), staged("debug")), inside());
    let step = next(step, AddAnswer::DestinationExists(false));
    assert_eq!(
        error_of(next(step, broken())).message(),
        "failed to install marketplace at /home/plugins/debug: broken"
    );
    let step = next(next(installed(), AddAnswer::Clock(Ok(0))), done());
    assert_eq!(
        error_of(next(step, AddAnswer::Root(Err("broken".to_string())))).message(),
        "failed to resolve installed marketplace root: broken"
    );
}

#[test]
fn staged_marketplaces_need_a_valid_free_name() {
    for (name, segment, message) in [
        (Err("no manifest"), Ok(()), "no manifest"),
        (Ok("a b"), Err("invalid marketplace name"), "invalid marketplace name"),
        (
            Ok("openai-curated"),
            Ok(()),
            "marketplace 'openai-curated' is reserved and cannot be added from https://github.com/owner/repo.git",
        ),
        (Ok("..."), Ok(()), "marketplace name '...' cannot be used as an install directory"),
    ] {
        let answer = AddAnswer::Staged {
            name: name.map(str::to_string).map_err(str::to_string),
            segment: segment.map_err(str::to_string),
        };
        assert_eq!(
            error_of(next(cloned(), answer)),
            MarketplaceAddError::InvalidRequest(message.to_string())
        );
    }
    assert_eq!(
        pending(&next(cloned(), staged(".a b/c."))),
        &AddAction::ResolveDestination {
            name: ".a b/c.".to_string(),
            dir_name: "a-b-c".to_string(),
        }
    );
}

#[test]
fn destinations_must_lie_in_the_install_root() {
    let root = || Ok(ResolvedPath { path: local("/home/plugins"), shown: "/real".to_string() });
    let failed = || "broken".to_string();
    for (install_root, parent, error) in [
        (
            Err(failed()),
            None,
            MarketplaceAddError::Internal(
                "failed to resolve marketplace install root /home/plugins: broken".to_string(),
            ),
        ),
        (
            root(),
            None,
            MarketplaceAddError::Internal("marketplace destination has no parent".to_string()),
        ),
        (
            root(),
            Some(Err(failed())),
            MarketplaceAddError::Internal(
                "failed to resolve marketplace destination parent /d: broken".to_string(),
            ),
        ),
        (
            root(),
            Some(Ok(local("/home/other"))),
            MarketplaceAddError::InvalidRequest(
                "marketplace destination /d is outside install root /real".to_string(),
            ),
        ),
    ] {
        let report = DestinationReport { shown: "/d".to_string(), install_root, parent };
        let step = next(cloned(), staged("debug"));
        assert_eq!(error_of(next(step, AddAnswer::Destination(report))), error);
    }
}

#[test]
fn a_destination_that_is_taken_is_refused() {
    let step = next(next(cloned(), staged("debug")), inside());
    assert_eq!(
        error_of(next(step, AddAnswer::DestinationExists(true))),
        MarketplaceAddError::InvalidRequest(
            "marketplace 'debug' is already added from a different source; remove it before adding https://github.com/owner/repo.git".to_string()
        )
    );
}

#[test]
fn what_cannot_be_recorded_is_rolled_back() {
    let unrecorded = "failed to add marketplace 'debug' to user config.toml: broken";
    let step = next(next(installed(), AddAnswer::Clock(Ok(0))), broken());
    assert!(matches!(
        pending(&step),
        AddAction::RollBack { dir_name, shown, .. }
            if dir_name == "debug" && shown == "/home/plugins/debug"
    ));
    assert_eq!(
        error_of(next(step, done())),
        MarketplaceAddError::Internal(unrecorded.to_string())
    );

    let step = next(installed(), AddAnswer::Clock(Err("too early".to_string())));
    assert_eq!(
        error_of(next(step, done())),
        MarketplaceAddError::Internal("system clock is before Unix epoch: too early".to_string())
    );

    let step = next(next(installed(), AddAnswer::Clock(Ok(0))), broken());
    assert_eq!(
        error_of(next(step, AddAnswer::Done(Err("stuck".to_string())))),
        MarketplaceAddError::Internal(format!(
            "{unrecorded}; additionally failed to roll back installed marketplace at /home/plugins/debug: stuck"
        ))
    );
}

#[test]
fn an_answer_of_another_action_changes_nothing() {
    let step = next(begin("owner/repo"), AddAnswer::DestinationExists(true));
    assert_eq!(step, begin("owner/repo"));
}

#[test]
fn adding_again_finds_the_first_addition() {
    let step = next(installed(), AddAnswer::Clock(Ok(7)));
    let AddAction::RecordEntry { target, update } = pending(&step) else {
        panic!("the addition is recorded");
    };
    let text = format!(
        "[marketplaces.a-gone-one]\nsource_type = \"{0}\"\nsource = \"{1}\"\n[marketplaces.{2}]\nsource_type = \"{0}\"\nsource = \"{1}\"\n",
        update.source_type, update.source, target.name
    );
    let step = next(next(step, done()), AddAnswer::Root(Ok(local("/home/plugins/debug"))));
    let AddStep::Finished(Ok(first)) = step else {
        panic!("the addition succeeds");
    };

    let step = next(next(begin("owner/repo"), done()), AddAnswer::Config(ConfigRead::Text { text }));
    let gone = AddAnswer::Validated { shown: String::new(), name: Err("gone".to_string()) };
    let step = next(step, gone);
    let valid = || AddAnswer::Validated { shown: String::new(), name: Ok("debug".to_string()) };
    let step = next(next(step, valid()), valid());
    let step = next(next(step, AddAnswer::Clock(Ok(8))), done());
    let step = next(step, AddAnswer::Root(Ok(local("/home/plugins/debug"))));
    assert_eq!(
        step,
        AddStep::Finished(Ok(MarketplaceAddOutcome { already_added: true, ..first }))
    );
}
