//! The command that adds a marketplace: which sources it takes, and how each is
//! staged and recorded.

use crate::marketplace_destination::ResolvedPath;
use crate::marketplace_git::{
    clone_commands, clone_git_source, commands_of, CommandModel, GitCommand,
};
use crate::marketplace_source::{
    bare_github_url, github_shorthand, github_url, http_git_url, is_git_url, is_ssh_git_url,
    law_github_urls_have_one_normal_form, law_names_hold_letters_digits_and_marks,
    law_shorthand_is_read_as_written, law_slashes_behind_a_url_are_dropped,
    law_sources_are_told_by_how_they_are_written, law_ssh_urls_are_read_as_written,
    law_urls_are_read_as_written, local_path, looks_like_github_shorthand, looks_like_local_path,
    looks_like_manifest_url, manifest_url, normal_git_url, normalize_git_url, or_else, plain_ref,
    shorthand_ref, shorthand_segment, source_and_ref, split_source_ref, ssh_git_url, with_ref,
    written_as_name, written_as_path, written_as_shorthand, written_for_http, written_for_ssh,
};
use crate::path::{file_name_of, parent_of, ComponentModel, LocalPath};
use crate::text::{
    borrowed, chars_of, copy_optional_text, copy_texts, ends_with, has_prefix, join,
    law_a_prefix_leaves_a_rest, law_prefixes_come_first, law_suffixes_come_last,
    lemma_nothing_to_trim, lemma_rsplit_last, lemma_trim, starts_with, string_of, trim, trimmed,
    white_space,
};
use vstd::prelude::*;
use vstd::utf8::encode_utf8;

verus! {

/// Where the manifest of a marketplace lies below its root.
pub const MANIFEST_PATH: &'static str = ".agents/plugins/marketplace.json";

/// An error of the command: what failed, and why where that is known.
#[derive(Clone, Debug, PartialEq, Eq)]
pub struct MarketplaceCmdError {
    pub message: String,
    pub cause: Option<String>,
}

pub struct CmdErrorModel {
    pub message: Seq<char>,
    pub cause: Option<Seq<char>>,
}

impl View for MarketplaceCmdError {
    type V = CmdErrorModel;

    open spec fn view(&self) -> CmdErrorModel {
        CmdErrorModel { message: self.message@, cause: self.cause.deep_view() }
    }
}

pub open spec fn plain_error(message: Seq<char>) -> CmdErrorModel {
    CmdErrorModel { message, cause: None }
}

pub open spec fn caused_error(message: Seq<char>, cause: Seq<char>) -> CmdErrorModel {
    CmdErrorModel { message, cause: Some(cause) }
}

impl MarketplaceCmdError {
    pub fn plain(message: String) -> (r: Self)
        ensures
            r@ == plain_error(message@),
    {
        MarketplaceCmdError { message, cause: None }
    }

    pub fn caused(message: String, cause: String) -> (r: Self)
        ensures
            r@ == caused_error(message@, cause@),
    {
        MarketplaceCmdError { message, cause: Some(cause) }
    }
}

/// Where a marketplace comes from.
#[derive(Debug, PartialEq, Eq)]
pub enum MarketplaceSource {
    Git { url: String, ref_name: Option<String> },
    Path { path: ResolvedPath },
    ManifestUrl { url: String },
}

pub enum CmdSourceModel {
    Git { url: Seq<char>, ref_name: Option<Seq<char>> },
    Path { path: Seq<ComponentModel>, shown: Seq<char> },
    ManifestUrl { url: Seq<char> },
}

impl View for MarketplaceSource {
    type V = CmdSourceModel;

    open spec fn view(&self) -> CmdSourceModel {
        match *self {
            MarketplaceSource::Git { url, ref_name } => CmdSourceModel::Git {
                url: url@,
                ref_name: ref_name.deep_view(),
            },
            MarketplaceSource::Path { path } => CmdSourceModel::Path {
                path: path.path@,
                shown: path.shown@,
            },
            MarketplaceSource::ManifestUrl { url } => CmdSourceModel::ManifestUrl { url: url@ },
        }
    }
}

impl CmdSourceModel {
    /// The source as it is shown to the user.
    pub open spec fn display(self) -> Seq<char> {
        match self {
            CmdSourceModel::Git { url, ref_name } => match ref_name {
                Some(name) => url + "#"@ + name,
                None => url,
            },
            CmdSourceModel::Path { shown, .. } => shown,
            CmdSourceModel::ManifestUrl { url } => url,
        }
    }
}

impl MarketplaceSource {
    /// The source as it is shown to the user.
    pub fn display(&self) -> (r: String)
        ensures
            r@ == self@.display(),
    {
        match self {
            MarketplaceSource::Git { url, ref_name } => match ref_name {
                Some(name) => url.clone().concat("#").concat(name.as_str()),
                None => url.clone(),
            },
            MarketplaceSource::Path { path } => path.shown.clone(),
            MarketplaceSource::ManifestUrl { url } => url.clone(),
        }
    }
}

/// What a text stands for, before local paths are resolved.
#[derive(Debug, PartialEq, Eq)]
pub enum WrittenSource {
    Git { url: String, ref_name: Option<String> },
    Local { path: String },
    ManifestUrl { url: String },
}

pub enum WrittenModel {
    Git { url: Seq<char>, ref_name: Option<Seq<char>> },
    Local { path: Seq<char> },
    ManifestUrl { url: Seq<char> },
}

impl View for WrittenSource {
    type V = WrittenModel;

    open spec fn view(&self) -> WrittenModel {
        match *self {
            WrittenSource::Git { url, ref_name } => WrittenModel::Git {
                url: url@,
                ref_name: ref_name.deep_view(),
            },
            WrittenSource::Local { path } => WrittenModel::Local { path: path@ },
            WrittenSource::ManifestUrl { url } => WrittenModel::ManifestUrl { url: url@ },
        }
    }
}

/// What a text stands for, or why it is no source. An explicit ref comes before
/// the one in the text; only sources of git have one.
pub open spec fn written_source(source: Seq<char>, explicit_ref: Option<Seq<char>>) -> Result<
    WrittenModel,
    CmdErrorModel,
> {
    let text = trim(source);
    let (base, parsed_ref) = source_and_ref(text);
    let ref_name = or_else(explicit_ref, parsed_ref);
    if text.len() == 0 {
        Err(plain_error("marketplace source must not be empty"@))
    } else if local_path(base) || manifest_url(base) {
        if ref_name is Some {
            Err(plain_error("--ref is only supported for git marketplace sources"@))
        } else if local_path(base) {
            Ok(WrittenModel::Local { path: base })
        } else {
            Ok(WrittenModel::ManifestUrl { url: base })
        }
    } else if ssh_git_url(base) || http_git_url(base) {
        Ok(WrittenModel::Git { url: normal_git_url(base), ref_name })
    } else if github_shorthand(base) {
        Ok(WrittenModel::Git { url: github_url(base), ref_name })
    } else {
        Err(plain_error("invalid marketplace source format: "@ + text))
    }
}

pub open spec fn written_outcome(r: Result<WrittenSource, MarketplaceCmdError>) -> Result<
    WrittenModel,
    CmdErrorModel,
> {
    match r {
        Ok(source) => Ok(source@),
        Err(e) => Err(e@),
    }
}

/// What a text stands for, before local paths are resolved.
pub fn read_source(source: &str, explicit_ref: Option<String>) -> (r: Result<
    WrittenSource,
    MarketplaceCmdError,
>)
    ensures
        written_outcome(r) == written_source(source@, explicit_ref.deep_view()),
{
    let text = trimmed(source);
    if text.as_str().is_empty() {
        return Err(
            MarketplaceCmdError::plain("marketplace source must not be empty".to_owned()),
        );
    }
    let (base_source, parsed_ref) = split_source_ref(text.as_str());
    let ref_name = match explicit_ref {
        Some(name) => Some(name),
        None => parsed_ref,
    };
    let local = looks_like_local_path(base_source.as_str());
    if local || looks_like_manifest_url(base_source.as_str()) {
        if ref_name.is_some() {
            return Err(
                MarketplaceCmdError::plain(
                    "--ref is only supported for git marketplace sources".to_owned(),
                ),
            );
        }
        if local {
            return Ok(WrittenSource::Local { path: base_source });
        }
        return Ok(WrittenSource::ManifestUrl { url: base_source });
    }
    if is_ssh_git_url(base_source.as_str()) || is_git_url(base_source.as_str()) {
        return Ok(WrittenSource::Git { url: normalize_git_url(base_source.as_str()), ref_name });
    }
    if looks_like_github_shorthand(base_source.as_str()) {
        let url = "https://github.com/".to_owned().concat(base_source.as_str()).concat(".git");
        return Ok(WrittenSource::Git { url, ref_name });
    }
    Err(
        MarketplaceCmdError::plain(
            "invalid marketplace source format: ".to_owned().concat(text.as_str()),
        ),
    )
}

/// `given` is what `resolve` made of the local path `path`.
pub open spec fn resolved_by<F: Fn(String) -> Result<ResolvedPath, MarketplaceCmdError>>(
    resolve: F,
    path: Seq<char>,
    given: Result<ResolvedPath, MarketplaceCmdError>,
) -> bool {
    exists|text: String| text@ == path && #[trigger] call_ensures(resolve, (text,), given)
}

/// The source that a text stands for. Local paths are resolved by `resolve`.
pub fn parse_marketplace_source<F: Fn(String) -> Result<ResolvedPath, MarketplaceCmdError>>(
    source: &str,
    explicit_ref: Option<String>,
    resolve: F,
) -> (r: Result<MarketplaceSource, MarketplaceCmdError>)
    requires
        forall|text: String| call_requires(resolve, (text,)),
    ensures
        match written_source(source@, explicit_ref.deep_view()) {
            Err(error) => r matches Err(e) && e@ == error,
            Ok(WrittenModel::Git { url, ref_name }) => r matches Ok(s) && s@ == (
            CmdSourceModel::Git { url, ref_name }),
            Ok(WrittenModel::ManifestUrl { url }) => r matches Ok(s) && s@ == (
            CmdSourceModel::ManifestUrl { url }),
            Ok(WrittenModel::Local { path }) => match r {
                Ok(s) => s matches MarketplaceSource::Path { path: given } && resolved_by(
                    resolve,
                    path,
                    Ok(given),
                ),
                Err(e) => resolved_by(resolve, path, Err(e)),
            },
        },
{
    match read_source(source, explicit_ref) {
        Err(error) => Err(error),
        Ok(WrittenSource::Git { url, ref_name }) => Ok(MarketplaceSource::Git { url, ref_name }),
        Ok(WrittenSource::ManifestUrl { url }) => Ok(MarketplaceSource::ManifestUrl { url }),
        Ok(WrittenSource::Local { path }) => match resolve(path) {
            Ok(path) => Ok(MarketplaceSource::Path { path }),
            Err(error) => Err(error),
        },
    }
}

/// A local path as it is written, or one below the directory that an environment
/// variable names.
#[derive(Debug, PartialEq, Eq)]
pub enum ExpandedPath {
    AsWritten { path: String },
    Below { variable: String, rest: String },
}

pub enum ExpandedModel {
    AsWritten { path: Seq<char> },
    Below { variable: Seq<char>, rest: Seq<char> },
}

impl View for ExpandedPath {
    type V = ExpandedModel;

    open spec fn view(&self) -> ExpandedModel {
        match *self {
            ExpandedPath::AsWritten { path } => ExpandedModel::AsWritten { path: path@ },
            ExpandedPath::Below { variable, rest } => ExpandedModel::Below {
                variable: variable@,
                rest: rest@,
            },
        }
    }
}

/// `~/` stands for the home directory, where one is set.
pub open spec fn expanded(source: Seq<char>, home: bool, user_profile: bool) -> ExpandedModel {
    if starts_with(source, "~/"@) && (home || user_profile) {
        ExpandedModel::Below {
            variable: if home {
                "HOME"@
            } else {
                "USERPROFILE"@
            },
            rest: source.subrange(2, source.len() as int),
        }
    } else {
        ExpandedModel::AsWritten { path: source }
    }
}

/// Expands `~/`. `home` and `user_profile` say whether the variables `HOME` and
/// `USERPROFILE` are set.
pub fn expand_tilde_path(source: &str, home: bool, user_profile: bool) -> (r: ExpandedPath)
    ensures
        r@ == expanded(source@, home, user_profile),
{
    if !has_prefix(source, "~/") || !(home || user_profile) {
        return ExpandedPath::AsWritten { path: source.to_owned() };
    }
    proof {
        reveal_strlit("~/");
    }
    let chars = chars_of(source);
    ExpandedPath::Below {
        variable: if home {
            "HOME".to_owned()
        } else {
            "USERPROFILE".to_owned()
        },
        rest: string_of(chars.as_slice(), 2, chars.len()),
    }
}

/// How a source is staged.
#[derive(Debug, PartialEq, Eq)]
pub enum StagePlan {
    /// Run these commands, up to the first that fails.
    Clone { commands: Vec<GitCommand> },
    /// Copy what lies at the path.
    CopyLocal { path: ResolvedPath },
    /// Download the manifest.
    Download { url: String },
}

pub enum PlanModel {
    Clone { commands: Seq<CommandModel> },
    CopyLocal { path: Seq<ComponentModel>, shown: Seq<char> },
    Download { url: Seq<char> },
}

impl View for StagePlan {
    type V = PlanModel;

    open spec fn view(&self) -> PlanModel {
        match *self {
            StagePlan::Clone { commands } => PlanModel::Clone { commands: commands_of(commands@) },
            StagePlan::CopyLocal { path } => PlanModel::CopyLocal {
                path: path.path@,
                shown: path.shown@,
            },
            StagePlan::Download { url } => PlanModel::Download { url: url@ },
        }
    }
}

/// How a source is staged. Sparse paths are for sources of git only.
pub open spec fn stage_plan(
    source: CmdSourceModel,
    sparse_paths: Seq<Seq<char>>,
    staged_root: Seq<char>,
) -> Result<PlanModel, CmdErrorModel> {
    if sparse_paths.len() > 0 && !(source is Git) {
        Err(plain_error("--sparse is only supported for git marketplace sources"@))
    } else {
        match source {
            CmdSourceModel::Git { url, ref_name } => Ok(
                PlanModel::Clone {
                    commands: clone_commands(url, ref_name, sparse_paths, staged_root),
                },
            ),
            CmdSourceModel::Path { path, shown } => Ok(PlanModel::CopyLocal { path, shown }),
            CmdSourceModel::ManifestUrl { url } => Ok(PlanModel::Download { url }),
        }
    }
}

/// How a source is staged in the directory that `staged_root` shows.
pub fn stage_marketplace_source(
    source: &MarketplaceSource,
    sparse_paths: &Vec<String>,
    staged_root: &str,
) -> (r: Result<StagePlan, MarketplaceCmdError>)
    ensures
        match stage_plan(source@, sparse_paths.deep_view(), staged_root@) {
            Ok(plan) => r matches Ok(p) && p@ == plan,
            Err(error) => r matches Err(e) && e@ == error,
        },
{
    if sparse_paths.len() > 0 && !matches!(source, MarketplaceSource::Git { .. }) {
        return Err(
            MarketplaceCmdError::plain(
                "--sparse is only supported for git marketplace sources".to_owned(),
            ),
        );
    }
    match source {
        MarketplaceSource::Git { url, ref_name } => Ok(
            StagePlan::Clone {
                commands: clone_git_source(
                    url.as_str(),
                    borrowed(ref_name),
                    sparse_paths,
                    staged_root,
                ),
            },
        ),
        MarketplaceSource::Path { path } => Ok(
            StagePlan::CopyLocal {
                path: ResolvedPath { path: path.path.duplicate(), shown: path.shown.clone() },
            },
        ),
        MarketplaceSource::ManifestUrl { url } => Ok(StagePlan::Download { url: url.clone() }),
    }
}

/// What a path of the file system is.
#[derive(Clone, Copy, Debug, PartialEq, Eq, Structural)]
pub enum LocalKind {
    Directory,
    File,
    Other,
}

pub open spec fn named(name: Seq<char>) -> ComponentModel {
    ComponentModel::Normal(encode_utf8(name))
}

/// The root of the marketplace whose manifest lies at the path:
/// `<root>/.agents/plugins/marketplace.json`.
pub open spec fn manifest_root(path: Seq<ComponentModel>) -> Option<Seq<ComponentModel>> {
    let n = path.len() as int;
    if n >= 3 && path[n - 3] == named(".agents"@) && path[n - 2] == named("plugins"@) && path[n - 1]
        == named("marketplace.json"@) {
        Some(path.take(n - 3))
    } else {
        None
    }
}

/// The root of the marketplace whose manifest lies at the path.
pub fn marketplace_root_for_manifest_path(path: &LocalPath) -> (r: Option<LocalPath>)
    ensures
        match r {
            Some(root) => manifest_root(path@) == Some(root@),
            None => manifest_root(path@) is None,
        },
{
    let n = path.components.len();
    if n >= 3 && path.components[n - 3].is_named(".agents") && path.components[n - 2].is_named(
        "plugins",
    ) && path.components[n - 1].is_named("marketplace.json") {
        return Some(path.leading(n - 3));
    }
    None
}

/// How what lies at a local path is staged.
#[derive(Debug, PartialEq, Eq)]
pub enum LocalPlan {
    /// Copy all that lies below the root.
    CopyTree { root: LocalPath },
    /// Copy the file to the place of the manifest.
    CopyManifest,
}

/// How what lies at a local path is staged: a directory whole, a manifest in its
/// place with the marketplace around it, another file as the manifest.
pub open spec fn local_plan(
    path: Seq<ComponentModel>,
    shown: Seq<char>,
    kind: Result<LocalKind, String>,
) -> Result<Option<Seq<ComponentModel>>, CmdErrorModel> {
    match kind {
        Err(error) => Err(
            caused_error("failed to read local marketplace source metadata "@ + shown, error@),
        ),
        Ok(LocalKind::Directory) => Ok(Some(path)),
        Ok(LocalKind::Other) => Err(
            plain_error("local marketplace source must be a file or directory: "@ + shown),
        ),
        Ok(LocalKind::File) => Ok(manifest_root(path)),
    }
}

/// The tree that a plan copies, if it copies one.
pub open spec fn tree_of(plan: LocalPlan) -> Option<Seq<ComponentModel>> {
    match plan {
        LocalPlan::CopyTree { root } => Some(root@),
        LocalPlan::CopyManifest => None,
    }
}

/// How what lies at a local path is staged. `kind` is what the file system says
/// of the path.
pub fn stage_local_source(source: &ResolvedPath, kind: Result<LocalKind, String>) -> (r: Result<
    LocalPlan,
    MarketplaceCmdError,
>)
    ensures
        match local_plan(source.path@, source.shown@, kind) {
            Ok(tree) => r matches Ok(plan) && tree_of(plan) == tree,
            Err(error) => r matches Err(e) && e@ == error,
        },
{
    match kind {
        Err(error) => Err(
            MarketplaceCmdError::caused(
                "failed to read local marketplace source metadata ".to_owned().concat(
                    source.shown.as_str(),
                ),
                error,
            ),
        ),
        Ok(LocalKind::Directory) => Ok(LocalPlan::CopyTree { root: source.path.duplicate() }),
        Ok(LocalKind::Other) => Err(
            MarketplaceCmdError::plain(
                "local marketplace source must be a file or directory: ".to_owned().concat(
                    source.shown.as_str(),
                ),
            ),
        ),
        Ok(LocalKind::File) => match marketplace_root_for_manifest_path(&source.path) {
            Some(root) => Ok(LocalPlan::CopyTree { root }),
            None => Ok(LocalPlan::CopyManifest),
        },
    }
}

/// A step of staging that failed outside. Files and directories are given as
/// they are shown.
#[derive(Debug, PartialEq, Eq)]
pub enum StageFailure {
    /// The working directory could not be read.
    CurrentDirectory,
    ResolveSource { path: String },
    CopyManifest { from: String, to: String },
    /// The manifest did not come, or came with an error status.
    DownloadManifest { url: String },
    /// The manifest broke off.
    ReadDownload { url: String },
    WriteManifest { to: String },
}

/// What is said of a step of staging that failed.
pub open spec fn stage_failure_text(failure: StageFailure) -> Seq<char> {
    match failure {
        StageFailure::CurrentDirectory => {
            "failed to read current working directory for local marketplace source"@
        },
        StageFailure::ResolveSource { path } => {
            "failed to resolve local marketplace source "@ + path@
        },
        StageFailure::CopyManifest { from, to } => {
            "failed to copy local marketplace manifest "@ + from@ + " to "@ + to@
        },
        StageFailure::DownloadManifest { url } => {
            "failed to download marketplace manifest from "@ + url@
        },
        StageFailure::ReadDownload { url } => {
            "failed to read downloaded marketplace manifest from "@ + url@
        },
        StageFailure::WriteManifest { to } => {
            "failed to write downloaded marketplace manifest to "@ + to@
        },
    }
}

/// The error that tells of a step of staging that failed.
pub fn stage_failure(failure: StageFailure, cause: String) -> (r: MarketplaceCmdError)
    ensures
        r@ == caused_error(stage_failure_text(failure), cause@),
{
    let message = match failure {
        StageFailure::CurrentDirectory => {
            "failed to read current working directory for local marketplace source".to_owned()
        },
        StageFailure::ResolveSource { path } => {
            "failed to resolve local marketplace source ".to_owned().concat(path.as_str())
        },
        StageFailure::CopyManifest { from, to } => {
            "failed to copy local marketplace manifest ".to_owned().concat(from.as_str()).concat(
                " to ",
            ).concat(to.as_str())
        },
        StageFailure::DownloadManifest { url } => {
            "failed to download marketplace manifest from ".to_owned().concat(url.as_str())
        },
        StageFailure::ReadDownload { url } => {
            "failed to read downloaded marketplace manifest from ".to_owned().concat(url.as_str())
        },
        StageFailure::WriteManifest { to } => {
            "failed to write downloaded marketplace manifest to ".to_owned().concat(to.as_str())
        },
    };
    MarketplaceCmdError::caused(message, cause)
}

/// What is recorded of where a marketplace came from.
#[derive(Clone, Debug, PartialEq, Eq)]
pub enum InstalledMarketplaceSource {
    Git { url: String, ref_name: Option<String>, sparse_paths: Vec<String> },
    Path { path: String },
    ManifestUrl { url: String },
}

#[derive(Clone, Debug, PartialEq, Eq)]
pub struct MarketplaceInstallMetadata {
    pub source: InstalledMarketplaceSource,
}

/// The type of a source, the source, its ref and its paths, as they are recorded.
pub struct CmdMetadataModel {
    pub source_type: Seq<char>,
    pub source: Seq<char>,
    pub ref_name: Option<Seq<char>>,
    pub sparse_paths: Seq<Seq<char>>,
}

impl View for MarketplaceInstallMetadata {
    type V = CmdMetadataModel;

    open spec fn view(&self) -> CmdMetadataModel {
        match self.source {
            InstalledMarketplaceSource::Git { url, ref_name, sparse_paths } => CmdMetadataModel {
                source_type: "git"@,
                source: url@,
                ref_name: ref_name.deep_view(),
                sparse_paths: sparse_paths.deep_view(),
            },
            InstalledMarketplaceSource::Path { path } => CmdMetadataModel {
                source_type: "path"@,
                source: path@,
                ref_name: None,
                sparse_paths: Seq::empty(),
            },
            InstalledMarketplaceSource::ManifestUrl { url } => CmdMetadataModel {
                source_type: "manifest_url"@,
                source: url@,
                ref_name: None,
                sparse_paths: Seq::empty(),
            },
        }
    }
}

/// What is recorded of a source: refs and sparse paths of git sources only.
pub open spec fn cmd_metadata_of(
    source: CmdSourceModel,
    sparse_paths: Seq<Seq<char>>,
) -> CmdMetadataModel {
    match source {
        CmdSourceModel::Git { url, ref_name } => CmdMetadataModel {
            source_type: "git"@,
            source: url,
            ref_name,
            sparse_paths,
        },
        CmdSourceModel::Path { shown, .. } => CmdMetadataModel {
            source_type: "path"@,
            source: shown,
            ref_name: None,
            sparse_paths: Seq::empty(),
        },
        CmdSourceModel::ManifestUrl { url } => CmdMetadataModel {
            source_type: "manifest_url"@,
            source: url,
            ref_name: None,
            sparse_paths: Seq::empty(),
        },
    }
}

impl MarketplaceInstallMetadata {
    pub fn from_source(source: &MarketplaceSource, sparse_paths: &Vec<String>) -> (r: Self)
        ensures
            r@ == cmd_metadata_of(source@, sparse_paths.deep_view()),
    {
        let source = match source {
            MarketplaceSource::Git { url, ref_name } => InstalledMarketplaceSource::Git {
                url: url.clone(),
                ref_name: copy_optional_text(ref_name),
                sparse_paths: copy_texts(sparse_paths),
            },
            MarketplaceSource::Path { path } => InstalledMarketplaceSource::Path {
                path: path.shown.clone(),
            },
            MarketplaceSource::ManifestUrl { url } => InstalledMarketplaceSource::ManifestUrl {
                url: url.clone(),
            },
        };
        MarketplaceInstallMetadata { source }
    }

    pub fn config_source_type(&self) -> (r: &'static str)
        ensures
            r@ == self@.source_type,
    {
        match &self.source {
            InstalledMarketplaceSource::Git { .. } => "git",
            InstalledMarketplaceSource::Path { .. } => "path",
            InstalledMarketplaceSource::ManifestUrl { .. } => "manifest_url",
        }
    }

    pub fn config_source(&self) -> (r: String)
        ensures
            r@ == self@.source,
    {
        match &self.source {
            InstalledMarketplaceSource::Git { url, .. } => url.clone(),
            InstalledMarketplaceSource::Path { path } => path.clone(),
            InstalledMarketplaceSource::ManifestUrl { url } => url.clone(),
        }
    }

    pub fn ref_name(&self) -> (r: Option<&str>)
        ensures
            r.deep_view() == self@.ref_name,
    {
        match &self.source {
            InstalledMarketplaceSource::Git { ref_name, .. } => borrowed(ref_name),
            _ => None,
        }
    }

    pub fn sparse_paths(&self) -> (r: Vec<String>)
        ensures
            r.deep_view() == self@.sparse_paths,
    {
        match &self.source {
            InstalledMarketplaceSource::Git { sparse_paths, .. } => copy_texts(sparse_paths),
            _ => {
                let none: Vec<String> = Vec::new();
                assert(none.deep_view() =~= Seq::<Seq<char>>::empty());
                none
            },
        }
    }
}

/// `owner/repo@ref`, the URL of the GitHub repository and the same URL without
/// `.git`, or with a slash behind it, name one source. Owners `.` and `..` are
/// left out, which make it a local path; so is, where `.git` is left out, a
/// repository whose own name ends in `.git` or is that of a manifest.
pub proof fn law_github_forms_name_one_source(
    owner: Seq<char>,
    repo: Seq<char>,
    ref_name: Option<Seq<char>>,
    explicit_ref: Option<Seq<char>>,
)
    requires
        shorthand_segment(owner),
        shorthand_segment(repo),
        owner != "."@,
        owner != ".."@,
        shorthand_ref(ref_name),
    ensures
        ({
            let base = owner.push('/') + repo;
            let source: Result<WrittenModel, CmdErrorModel> = Ok(
                WrittenModel::Git {
                    url: github_url(base),
                    ref_name: or_else(explicit_ref, ref_name),
                },
            );
            &&& written_source(with_ref(base, '@', ref_name), explicit_ref) == source
            &&& written_source(with_ref(github_url(base), '#', ref_name), explicit_ref) == source
            &&& !ends_with(repo, ".git"@) && !ends_with(repo, "marketplace.json"@) ==> {
                &&& written_source(with_ref(bare_github_url(base), '#', ref_name), explicit_ref)
                    == source
                &&& written_source(
                    with_ref(bare_github_url(base).push('/'), '#', ref_name),
                    explicit_ref,
                ) == source
            }
        }),
{
    let base = owner.push('/') + repo;
    law_shorthand_is_read_as_written(owner, repo, ref_name);
    law_github_urls_have_one_normal_form(owner, repo);
    law_urls_are_read_as_written(github_url(base), ref_name);
    law_urls_are_read_as_written(bare_github_url(base), ref_name);
    law_urls_are_read_as_written(bare_github_url(base).push('/'), ref_name);
}

/// An explicit ref comes before the one in a git source and changes nothing else
/// of it; a local path and a manifest refuse it.
pub proof fn law_explicit_ref_wins_or_is_refused(source: Seq<char>, name: Seq<char>)
    ensures
        match written_source(source, None) {
            Ok(WrittenModel::Git { url, .. }) => written_source(source, Some(name)) == Ok::<
                WrittenModel,
                CmdErrorModel,
            >(WrittenModel::Git { url, ref_name: Some(name) }),
            Ok(_) => written_source(source, Some(name)) == Err::<WrittenModel, CmdErrorModel>(
                plain_error("--ref is only supported for git marketplace sources"@),
            ),
            Err(error) => written_source(source, Some(name)) == Err::<WrittenModel, CmdErrorModel>(
                error,
            ),
        },
{
}

/// White space around a source does not matter.
pub proof fn law_space_around_a_source_is_ignored(source: Seq<char>, name: Option<Seq<char>>)
    ensures
        written_source(trim(source), name) == written_source(source, name),
{
    lemma_trim(source);
    lemma_nothing_to_trim(trim(source));
}

/// A manifest in its place lies three levels below the root of its marketplace,
/// A URL of SSH or HTTP, with or without a ref behind `#`, is the source with that
/// URL, without its trailing slashes, and exactly that ref; an explicit ref takes
/// its place. A URL of GitHub is given `.git` where it does not end so. A URL of a
/// manifest is left out.
pub proof fn law_git_urls_are_read_as_written(
    stem: Seq<char>,
    slashes: nat,
    ref_name: Option<Seq<char>>,
    explicit_ref: Option<Seq<char>>,
)
    requires
        stem.len() > 0 ==> stem.last() != '/',
        ({
            let url = stem + Seq::new(slashes, |i: int| '/');
            &&& written_for_ssh(url) || written_for_http(url)
            &&& !url.contains('#')
            &&& ref_name is None ==> !white_space(url.last())
            &&& !manifest_url(url)
        }),
        plain_ref(ref_name),
    ensures
        written_source(
            with_ref(stem + Seq::new(slashes, |i: int| '/'), '#', ref_name),
            explicit_ref,
        ) == Ok::<WrittenModel, CmdErrorModel>(
            WrittenModel::Git {
                url: if (exists|path: Seq<char>| stem == #[trigger] ("https://github.com/"@ + path))
                    && !(exists|rest: Seq<char>| stem == #[trigger] (rest + ".git"@)) {
                    stem + ".git"@
                } else {
                    stem
                },
                ref_name: if explicit_ref is Some {
                    explicit_ref
                } else {
                    ref_name
                },
            },
        ),
{
    let url = stem + Seq::new(slashes, |i: int| '/');
    law_sources_are_told_by_how_they_are_written(url);
    law_slashes_behind_a_url_are_dropped(stem, slashes);
    if written_for_ssh(url) {
        law_ssh_urls_are_read_as_written(url, ref_name);
    } else {
        law_urls_are_read_as_written(url, ref_name);
    }
}

/// `owner/repo`, with or without a ref behind `#`, is the repository of GitHub and
/// exactly that ref; an explicit ref takes its place. Behind `@` the ref is the
/// same. Owners `.` and `..` are left out, which make it a local path.
pub proof fn law_shorthand_names_a_repository_of_github(
    owner: Seq<char>,
    repo: Seq<char>,
    ref_name: Option<Seq<char>>,
    explicit_ref: Option<Seq<char>>,
)
    requires
        written_as_name(owner),
        written_as_name(repo),
        owner != "."@,
        owner != ".."@,
        plain_ref(ref_name),
    ensures
        ({
            let source: Result<WrittenModel, CmdErrorModel> = Ok(
                WrittenModel::Git {
                    url: "https://github.com/"@ + (owner.push('/') + repo) + ".git"@,
                    ref_name: if explicit_ref is Some {
                        explicit_ref
                    } else {
                        ref_name
                    },
                },
            );
            let base = owner.push('/') + repo;
            &&& written_source(with_ref(base, '#', ref_name), explicit_ref) == source
            &&& shorthand_ref(ref_name) ==> written_source(
                with_ref(base, '@', ref_name),
                explicit_ref,
            ) == source
        }),
{
    let base = owner.push('/') + repo;
    law_names_hold_letters_digits_and_marks(owner);
    law_names_hold_letters_digits_and_marks(repo);
    law_shorthand_is_read_as_written(owner, repo, None);
    if shorthand_ref(ref_name) {
        law_shorthand_is_read_as_written(owner, repo, ref_name);
    }
    match ref_name {
        Some(name) => {
            let text = with_ref(base, '#', ref_name);
            lemma_rsplit_last(base, '#', name);
            lemma_nothing_to_trim(name);
            lemma_trim(base);
            assert(text[0] == base[0]);
            lemma_nothing_to_trim(text);
        },
        None => {},
    }
}

/// A source that is not blank is refused as malformed exactly where it is written
/// as none of these: a local path, a URL of HTTP or SSH, or `owner/repo`. A blank
/// one is refused as empty.
pub proof fn law_sources_are_malformed_only_if_written_in_no_form(
    source: Seq<char>,
    explicit_ref: Option<Seq<char>>,
)
    ensures
        ({
            let (base, _) = source_and_ref(trim(source));
            let known = written_as_path(base) || written_for_http(base) || written_for_ssh(base)
                || written_as_shorthand(base);
            &&& trim(source).len() == 0 ==> written_source(source, explicit_ref) == Err::<
                WrittenModel,
                CmdErrorModel,
            >(CmdErrorModel { message: "marketplace source must not be empty"@, cause: None })
            &&& trim(source).len() > 0 && !known ==> written_source(source, explicit_ref) == Err::<
                WrittenModel,
                CmdErrorModel,
            >(CmdErrorModel {
                message: "invalid marketplace source format: "@ + trim(source),
                cause: None,
            })
            &&& trim(source).len() > 0 && known && !written_as_path(base) && !manifest_url(base) ==> written_source(
                source,
                explicit_ref,
            ) is Ok
        }),
{
    let (base, _) = source_and_ref(trim(source));
    law_sources_are_told_by_how_they_are_written(base);
}

/// A local path and the URL of a manifest stand for themselves. They have no ref:
/// with one, in the source or explicit, they are refused.
pub proof fn law_paths_and_manifests_stand_for_themselves(
    source: Seq<char>,
    explicit_ref: Option<Seq<char>>,
)
    requires
        trim(source).len() > 0,
        ({
            let base = source_and_ref(trim(source)).0;
            written_as_path(base) || manifest_url(base)
        }),
    ensures
        ({
            let (base, ref_name) = source_and_ref(trim(source));
            written_source(source, explicit_ref) == if explicit_ref is Some || ref_name is Some {
                Err::<WrittenModel, CmdErrorModel>(
                    CmdErrorModel {
                        message: "--ref is only supported for git marketplace sources"@,
                        cause: None,
                    },
                )
            } else if written_as_path(base) {
                Ok(WrittenModel::Local { path: base })
            } else {
                Ok(WrittenModel::ManifestUrl { url: base })
            }
        }),
{
    law_sources_are_told_by_how_they_are_written(source_and_ref(trim(source)).0);
}

/// and its file and the two directories above it have the names of that place.
pub proof fn law_a_manifest_lies_three_levels_down(
    path: Seq<ComponentModel>,
    root: Seq<ComponentModel>,
)
    ensures
        manifest_root(path) == Some(root) <==> {
            &&& file_name_of(path) == Some(encode_utf8("marketplace.json"@))
            &&& parent_of(path) matches Some(plugins)
            &&& file_name_of(plugins) == Some(encode_utf8("plugins"@))
            &&& parent_of(plugins) matches Some(agents)
            &&& file_name_of(agents) == Some(encode_utf8(".agents"@))
            &&& parent_of(agents) == Some(root)
        },
{
    let n = path.len() as int;
    if n >= 3 {
        assert(path.take(n - 3) =~= path.drop_last().drop_last().drop_last());
        assert(path.drop_last().last() == path[n - 2]);
        assert(path.drop_last().drop_last().last() == path[n - 3]);
    }
}

/// Records tell sources apart: of two sources with the same record, both are of
/// git with the same URL, ref and paths, both are local paths that are shown the
/// same, or both are the same manifest.
pub proof fn law_records_tell_sources_apart(
    a: CmdSourceModel,
    a_paths: Seq<Seq<char>>,
    b: CmdSourceModel,
    b_paths: Seq<Seq<char>>,
)
    requires
        cmd_metadata_of(a, a_paths) == cmd_metadata_of(b, b_paths),
    ensures
        match (a, b) {
            (CmdSourceModel::Git { .. }, CmdSourceModel::Git { .. }) => a == b && a_paths
                == b_paths,
            (
                CmdSourceModel::Path { shown: first, .. },
                CmdSourceModel::Path { shown: second, .. },
            ) => first == second,
            (CmdSourceModel::ManifestUrl { .. }, CmdSourceModel::ManifestUrl { .. }) => a == b,
            _ => false,
        },
{
    reveal_strlit("git");
    reveal_strlit("path");
    reveal_strlit("manifest_url");
    assert("git"@.len() == 3 && "path"@.len() == 4 && "manifest_url"@.len() == 12);
}

/// What is shown of a git source is read as that source.
pub proof fn law_a_shown_git_source_is_read_back(url: Seq<char>, ref_name: Option<Seq<char>>)
    requires
        written_for_ssh(url) || written_for_http(url),
        !manifest_url(url),
        !url.contains('#'),
        url.last() != '/',
        (exists|path: Seq<char>| url == #[trigger] ("https://github.com/"@ + path)) ==> (exists|
            rest: Seq<char>,
        | url == #[trigger] (rest + ".git"@)),
        ref_name is None ==> !white_space(url.last()),
        plain_ref(ref_name),
    ensures
        written_source((CmdSourceModel::Git { url, ref_name }).display(), None) == Ok::<
            WrittenModel,
            CmdErrorModel,
        >(WrittenModel::Git { url, ref_name }),
{
    let none = Seq::new(0nat, |i: int| '/');
    assert(url + none =~= url);
    law_git_urls_are_read_as_written(url, 0, ref_name, None);
    reveal_strlit("#");
    if let Some(name) = ref_name {
        assert(url + "#"@ + name =~= url.push('#') + name);
    }
}

/// What stands behind `~/` lies below the home directory, which `HOME` names, or
/// else `USERPROFILE`. Without either, and without `~/`, a path stays as it is
/// written.
pub proof fn law_tilde_paths_lie_below_the_home_directory(
    source: Seq<char>,
    rest: Seq<char>,
    home: bool,
    user_profile: bool,
)
    ensures
        home ==> expanded("~/"@ + rest, home, user_profile) == (ExpandedModel::Below {
            variable: "HOME"@,
            rest,
        }),
        !home && user_profile ==> expanded("~/"@ + rest, home, user_profile) == (
        ExpandedModel::Below { variable: "USERPROFILE"@, rest }),
        (!home && !user_profile) || !(exists|below: Seq<char>| source == #[trigger] ("~/"@ + below))
            ==> expanded(source, home, user_profile) == (ExpandedModel::AsWritten { path: source }),
{
    reveal_strlit("~/");
    law_prefixes_come_first("~/"@, rest);
    let text = "~/"@ + rest;
    assert(text.subrange(2, text.len() as int) =~= rest);
    if starts_with(source, "~/"@) {
        law_a_prefix_leaves_a_rest(source, "~/"@);
    }
}

/// A git source is cloned with its URL, its ref and the sparse paths; a local path
/// is copied, and a manifest downloaded, from where it is. The two have no sparse
/// paths: with such, they are refused.
pub proof fn law_sources_are_staged_from_where_they_are(
    url: Seq<char>,
    ref_name: Option<Seq<char>>,
    path: Seq<ComponentModel>,
    shown: Seq<char>,
    sparse_paths: Seq<Seq<char>>,
    staged_root: Seq<char>,
)
    ensures
        stage_plan(CmdSourceModel::Git { url, ref_name }, sparse_paths, staged_root) == Ok::<
            PlanModel,
            CmdErrorModel,
        >(PlanModel::Clone { commands: clone_commands(url, ref_name, sparse_paths, staged_root) }),
        sparse_paths.len() == 0 ==> stage_plan(
            CmdSourceModel::Path { path, shown },
            sparse_paths,
            staged_root,
        ) == Ok::<PlanModel, CmdErrorModel>(PlanModel::CopyLocal { path, shown }),
        sparse_paths.len() == 0 ==> stage_plan(
            CmdSourceModel::ManifestUrl { url },
            sparse_paths,
            staged_root,
        ) == Ok::<PlanModel, CmdErrorModel>(PlanModel::Download { url }),
        sparse_paths.len() > 0 ==> ({
            let refused: Result<PlanModel, CmdErrorModel> = Err(
                CmdErrorModel {
                    message: "--sparse is only supported for git marketplace sources"@,
                    cause: None,
                },
            );
            &&& stage_plan(CmdSourceModel::Path { path, shown }, sparse_paths, staged_root)
                == refused
            &&& stage_plan(CmdSourceModel::ManifestUrl { url }, sparse_paths, staged_root)
                == refused
        }),
{
}

/// A directory is copied whole. A file is copied with all of its marketplace where it
/// is the manifest in its place below the marketplace's root, and alone where it is
/// not. What is neither is refused, and so is what cannot be looked at.
pub proof fn law_local_sources_are_copied_with_their_marketplace(
    path: Seq<ComponentModel>,
    root: Seq<ComponentModel>,
    shown: Seq<char>,
    error: String,
)
    ensures
        local_plan(path, shown, Ok(LocalKind::Directory)) == Ok::<
            Option<Seq<ComponentModel>>,
            CmdErrorModel,
        >(Some(path)),
        local_plan(
            root.push(ComponentModel::Normal(encode_utf8(".agents"@))).push(
                ComponentModel::Normal(encode_utf8("plugins"@)),
            ).push(ComponentModel::Normal(encode_utf8("marketplace.json"@))),
            shown,
            Ok(LocalKind::File),
        ) == Ok::<Option<Seq<ComponentModel>>, CmdErrorModel>(Some(root)),
        local_plan(path, shown, Ok(LocalKind::File)) matches Ok(Some(found)) ==> path == found.push(
            ComponentModel::Normal(encode_utf8(".agents"@)),
        ).push(ComponentModel::Normal(encode_utf8("plugins"@))).push(
            ComponentModel::Normal(encode_utf8("marketplace.json"@)),
        ),
        local_plan(path, shown, Ok(LocalKind::File)) is Ok,
        local_plan(path, shown, Ok(LocalKind::Other)) == Err::<
            Option<Seq<ComponentModel>>,
            CmdErrorModel,
        >(
            CmdErrorModel {
                message: "local marketplace source must be a file or directory: "@ + shown,
                cause: None,
            },
        ),
        local_plan(path, shown, Err(error)) == Err::<Option<Seq<ComponentModel>>, CmdErrorModel>(
            CmdErrorModel {
                message: "failed to read local marketplace source metadata "@ + shown,
                cause: Some(error@),
            },
        ),
{
    let manifest = root.push(named(".agents"@)).push(named("plugins"@)).push(
        named("marketplace.json"@),
    );
    assert(manifest.take(manifest.len() - 3) =~= root);
    if let Some(found) = manifest_root(path) {
        assert(path =~= found.push(named(".agents"@)).push(named("plugins"@)).push(
            named("marketplace.json"@),
        ));
    }
}

/// What is recorded of a source is its type and its text, as it is; of git also the
/// ref and the sparse paths.
pub proof fn law_sources_are_recorded_as_they_are(
    url: Seq<char>,
    ref_name: Option<Seq<char>>,
    path: Seq<ComponentModel>,
    sparse_paths: Seq<Seq<char>>,
)
    ensures
        cmd_metadata_of(CmdSourceModel::Git { url, ref_name }, sparse_paths) == (CmdMetadataModel {
            source_type: "git"@,
            source: url,
            ref_name,
            sparse_paths,
        }),
        cmd_metadata_of(CmdSourceModel::Path { path, shown: url }, sparse_paths).source_type
            == "path"@,
        cmd_metadata_of(CmdSourceModel::Path { path, shown: url }, sparse_paths).source == url,
        cmd_metadata_of(CmdSourceModel::ManifestUrl { url }, sparse_paths).source_type
            == "manifest_url"@,
        cmd_metadata_of(CmdSourceModel::ManifestUrl { url }, sparse_paths).source == url,
{
}

/// What failed while a source was staged is told with the places that it was about.
pub proof fn law_staging_failures_name_their_places(first: String, second: String)
    ensures
        ends_with(stage_failure_text(StageFailure::ResolveSource { path: first }), first@),
        ends_with(
            stage_failure_text(StageFailure::CopyManifest { from: first, to: second }),
            first@ + " to "@ + second@,
        ),
        ends_with(stage_failure_text(StageFailure::DownloadManifest { url: first }), first@),
        ends_with(stage_failure_text(StageFailure::ReadDownload { url: first }), first@),
        ends_with(stage_failure_text(StageFailure::WriteManifest { to: first }), first@),
{
    law_suffixes_come_last("failed to resolve local marketplace source "@, first@);
    let copy = "failed to copy local marketplace manifest "@;
    assert(copy + first@ + " to "@ + second@ =~= copy + (first@ + " to "@ + second@));
    law_suffixes_come_last(copy, first@ + " to "@ + second@);
    law_suffixes_come_last("failed to download marketplace manifest from "@, first@);
    law_suffixes_come_last("failed to read downloaded marketplace manifest from "@, first@);
    law_suffixes_come_last("failed to write downloaded marketplace manifest to "@, first@);
}

/// The place of a manifest below the root of its marketplace is the one in which it
/// is looked for.
pub proof fn law_the_manifest_is_looked_for_in_its_place(root: Seq<ComponentModel>)
    ensures
        MANIFEST_PATH@ == join(seq![".agents"@, "plugins"@, "marketplace.json"@], "/"@),
        manifest_root(
            root + seq![".agents"@, "plugins"@, "marketplace.json"@].map_values(
                |name: Seq<char>| ComponentModel::Normal(encode_utf8(name)),
            ),
        ) == Some(root),
{
    reveal_strlit(".agents/plugins/marketplace.json");
    reveal_strlit(".agents");
    reveal_strlit("plugins");
    reveal_strlit("marketplace.json");
    reveal_strlit("/");
    let parts = seq![".agents"@, "plugins"@, "marketplace.json"@];
    assert(parts.drop_last() =~= seq![".agents"@, "plugins"@]);
    assert(parts.drop_last().drop_last() =~= seq![".agents"@]);
    assert(join(seq![".agents"@], "/"@) == ".agents"@);
    assert(join(seq![".agents"@, "plugins"@], "/"@) == ".agents"@ + "/"@ + "plugins"@);
    assert(join(parts, "/"@) =~= MANIFEST_PATH@);
    let names = parts.map_values(|name: Seq<char>| ComponentModel::Normal(encode_utf8(name)));
    let path = root + names;
    assert(path.take(path.len() - 3) =~= root);
}

} // verus!
