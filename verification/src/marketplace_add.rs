//! Adding a marketplace: what is asked for, where it comes from, and what is
//! recorded of it.

use crate::marketplace_config::{EntryModel, MarketplaceConfigEntry};
use crate::marketplace_source::{
    bare_github_url, github_shorthand, github_url, http_git_url, is_git_url, is_ssh_git_url,
    law_github_urls_have_one_normal_form, law_names_hold_letters_digits_and_marks,
    law_shorthand_is_read_as_written, law_slashes_behind_a_url_are_dropped,
    law_sources_are_told_by_how_they_are_written, law_ssh_urls_are_read_as_written,
    law_urls_are_read_as_written, local_path, looks_like_github_shorthand, looks_like_local_path,
    normal_git_url, normalize_git_url, or_else, plain_ref, shorthand_ref, shorthand_segment,
    source_and_ref, split_source_ref, ssh_git_url, with_ref, written_as_name, written_as_path,
    written_as_shorthand, written_for_http, written_for_ssh,
};
use crate::path::{ComponentModel, LocalPath};
use crate::text::{
    borrowed, copy_optional_text, copy_texts, ends_with, lemma_nothing_to_trim, lemma_rsplit_last,
    lemma_trim, same_optional_text, same_texts, trim, trimmed, white_space,
};
use vstd::prelude::*;

verus! {

#[derive(Clone, Debug, PartialEq, Eq)]
pub struct MarketplaceAddRequest {
    pub source: String,
    pub ref_name: Option<String>,
    pub sparse_paths: Vec<String>,
}

#[derive(Debug, PartialEq, Eq)]
pub struct MarketplaceAddOutcome {
    pub marketplace_name: String,
    pub source_display: String,
    pub installed_root: LocalPath,
    pub already_added: bool,
}

pub struct OutcomeModel {
    pub marketplace_name: Seq<char>,
    pub source_display: Seq<char>,
    pub installed_root: Seq<ComponentModel>,
    pub already_added: bool,
}

impl View for MarketplaceAddOutcome {
    type V = OutcomeModel;

    open spec fn view(&self) -> OutcomeModel {
        OutcomeModel {
            marketplace_name: self.marketplace_name@,
            source_display: self.source_display@,
            installed_root: self.installed_root@,
            already_added: self.already_added,
        }
    }
}

#[derive(Clone, Debug, PartialEq, Eq)]
pub enum MarketplaceAddError {
    InvalidRequest(String),
    Internal(String),
}

pub enum ErrorModel {
    InvalidRequest(Seq<char>),
    Internal(Seq<char>),
}

impl ErrorModel {
    /// The text of the error.
    pub open spec fn text(self) -> Seq<char> {
        match self {
            ErrorModel::InvalidRequest(text) => text,
            ErrorModel::Internal(text) => text,
        }
    }
}

impl View for MarketplaceAddError {
    type V = ErrorModel;

    open spec fn view(&self) -> ErrorModel {
        match *self {
            MarketplaceAddError::InvalidRequest(text) => ErrorModel::InvalidRequest(text@),
            MarketplaceAddError::Internal(text) => ErrorModel::Internal(text@),
        }
    }
}

impl MarketplaceAddError {
    /// The text of the error.
    pub fn message(&self) -> (r: &str)
        ensures
            r@ == self@.text(),
    {
        match self {
            MarketplaceAddError::InvalidRequest(text) => text.as_str(),
            MarketplaceAddError::Internal(text) => text.as_str(),
        }
    }
}

/// Where a marketplace is fetched from.
#[derive(Clone, Debug, PartialEq, Eq)]
pub enum MarketplaceSource {
    Git { url: String, ref_name: Option<String> },
}

pub struct SourceModel {
    pub url: Seq<char>,
    pub ref_name: Option<Seq<char>>,
}

impl View for MarketplaceSource {
    type V = SourceModel;

    open spec fn view(&self) -> SourceModel {
        let MarketplaceSource::Git { url, ref_name } = *self;
        SourceModel { url: url@, ref_name: ref_name.deep_view() }
    }
}

impl SourceModel {
    /// The source as it is shown to the user.
    pub open spec fn display(self) -> Seq<char> {
        match self.ref_name {
            Some(name) => self.url + "#"@ + name,
            None => self.url,
        }
    }
}

impl MarketplaceSource {
    /// The source as it is shown to the user.
    pub fn display(&self) -> (r: String)
        ensures
            r@ == self@.display(),
    {
        let MarketplaceSource::Git { url, ref_name } = self;
        match ref_name {
            Some(name) => url.clone().concat("#").concat(name.as_str()),
            None => url.clone(),
        }
    }
}

pub open spec fn empty_source_text() -> Seq<char> {
    "marketplace source must not be empty"@
}

pub open spec fn local_source_text() -> Seq<char> {
    "local marketplace sources are not supported yet; use an HTTP(S) Git URL, SSH Git URL, or GitHub owner/repo"@
}

pub open spec fn invalid_source_text(source: Seq<char>) -> Seq<char> {
    "invalid marketplace source format: "@ + source
}

/// The source that a text stands for, or why it is none. An explicit ref comes
/// before the one in the text.
pub open spec fn parsed_source(source: Seq<char>, explicit_ref: Option<Seq<char>>) -> Result<
    SourceModel,
    ErrorModel,
> {
    let text = trim(source);
    let (base, parsed_ref) = source_and_ref(text);
    let ref_name = or_else(explicit_ref, parsed_ref);
    if text.len() == 0 {
        Err(ErrorModel::InvalidRequest(empty_source_text()))
    } else if local_path(base) {
        Err(ErrorModel::InvalidRequest(local_source_text()))
    } else if ssh_git_url(base) || http_git_url(base) {
        Ok(SourceModel { url: normal_git_url(base), ref_name })
    } else if github_shorthand(base) {
        Ok(SourceModel { url: github_url(base), ref_name })
    } else {
        Err(ErrorModel::InvalidRequest(invalid_source_text(text)))
    }
}

/// The source or the error of `r`.
pub open spec fn parse_outcome(r: Result<MarketplaceSource, MarketplaceAddError>) -> Result<
    SourceModel,
    ErrorModel,
> {
    match r {
        Ok(source) => Ok(source@),
        Err(e) => Err(e@),
    }
}

/// The source that a text stands for.
pub fn parse_marketplace_source(source: &str, explicit_ref: Option<String>) -> (r: Result<
    MarketplaceSource,
    MarketplaceAddError,
>)
    ensures
        parse_outcome(r) == parsed_source(source@, explicit_ref.deep_view()),
{
    let text = trimmed(source);
    if text.as_str().is_empty() {
        return Err(
            MarketplaceAddError::InvalidRequest("marketplace source must not be empty".to_owned()),
        );
    }
    let (base_source, parsed_ref) = split_source_ref(text.as_str());
    let ref_name = match explicit_ref {
        Some(name) => Some(name),
        None => parsed_ref,
    };
    if looks_like_local_path(base_source.as_str()) {
        return Err(
            MarketplaceAddError::InvalidRequest(
                "local marketplace sources are not supported yet; use an HTTP(S) Git URL, SSH Git URL, or GitHub owner/repo".to_owned(),
            ),
        );
    }
    if is_ssh_git_url(base_source.as_str()) || is_git_url(base_source.as_str()) {
        return Ok(
            MarketplaceSource::Git { url: normalize_git_url(base_source.as_str()), ref_name },
        );
    }
    if looks_like_github_shorthand(base_source.as_str()) {
        let url = "https://github.com/".to_owned().concat(base_source.as_str()).concat(".git");
        return Ok(MarketplaceSource::Git { url, ref_name });
    }
    Err(
        MarketplaceAddError::InvalidRequest(
            "invalid marketplace source format: ".to_owned().concat(text.as_str()),
        ),
    )
}

/// What is recorded of where a marketplace came from.
#[derive(Clone, Debug, PartialEq, Eq)]
pub enum InstalledMarketplaceSource {
    Git { url: String, ref_name: Option<String>, sparse_paths: Vec<String> },
}

#[derive(Clone, Debug, PartialEq, Eq)]
pub struct MarketplaceInstallMetadata {
    pub source: InstalledMarketplaceSource,
}

pub struct MetadataModel {
    pub url: Seq<char>,
    pub ref_name: Option<Seq<char>>,
    pub sparse_paths: Seq<Seq<char>>,
}

impl View for MarketplaceInstallMetadata {
    type V = MetadataModel;

    open spec fn view(&self) -> MetadataModel {
        let InstalledMarketplaceSource::Git { url, ref_name, sparse_paths } = self.source;
        MetadataModel {
            url: url@,
            ref_name: ref_name.deep_view(),
            sparse_paths: sparse_paths.deep_view(),
        }
    }
}

/// What is recorded of a source and of the paths that are checked out of it.
pub open spec fn metadata_of(source: SourceModel, sparse_paths: Seq<Seq<char>>) -> MetadataModel {
    MetadataModel { url: source.url, ref_name: source.ref_name, sparse_paths }
}

/// `entry` records the same source, ref and paths.
pub open spec fn records(m: MetadataModel, entry: EntryModel) -> bool {
    &&& entry.source_type == Some("git"@)
    &&& entry.source == Some(m.url)
    &&& entry.ref_name == m.ref_name
    &&& entry.sparse_paths == m.sparse_paths
}

impl MarketplaceInstallMetadata {
    pub fn from_source(source: &MarketplaceSource, sparse_paths: &Vec<String>) -> (r: Self)
        ensures
            r@ == metadata_of(source@, sparse_paths.deep_view()),
    {
        let MarketplaceSource::Git { url, ref_name } = source;
        MarketplaceInstallMetadata {
            source: InstalledMarketplaceSource::Git {
                url: url.clone(),
                ref_name: copy_optional_text(ref_name),
                sparse_paths: copy_texts(sparse_paths),
            },
        }
    }

    pub fn config_source_type(&self) -> (r: &'static str)
        ensures
            r@ == "git"@,
    {
        "git"
    }

    pub fn config_source(&self) -> (r: String)
        ensures
            r@ == self@.url,
    {
        let InstalledMarketplaceSource::Git { url, .. } = &self.source;
        url.clone()
    }

    pub fn ref_name(&self) -> (r: Option<&str>)
        ensures
            r.deep_view() == self@.ref_name,
    {
        let InstalledMarketplaceSource::Git { ref_name, .. } = &self.source;
        borrowed(ref_name)
    }

    pub fn sparse_paths(&self) -> (r: &Vec<String>)
        ensures
            r.deep_view() == self@.sparse_paths,
    {
        let InstalledMarketplaceSource::Git { sparse_paths, .. } = &self.source;
        sparse_paths
    }

    /// Whether the configuration's entry records the same source, ref and paths.
    pub fn matches_config(&self, marketplace: &MarketplaceConfigEntry) -> (r: bool)
        ensures
            r == records(self@, marketplace@),
    {
        same_optional_text(borrowed(&marketplace.source_type), Some(self.config_source_type()))
            && same_optional_text(
            borrowed(&marketplace.source),
            Some(self.config_source().as_str()),
        ) && same_optional_text(borrowed(&marketplace.ref_name), self.ref_name()) && same_texts(
            &marketplace.sparse_paths,
            self.sparse_paths(),
        )
    }
}

/// `owner/repo@ref`, the URL of the GitHub repository and the same URL without
/// `.git`, or with a slash behind it, name one source. Owners `.` and `..` are
/// left out, which make it a local path; so is, where `.git` is left out, a
/// repository whose own name ends in `.git`.
pub proof fn law_github_forms_name_one_source(
    owner: Seq<char>,
    repo: Seq<char>,
    ref_name: Option<Seq<char>>,
    explicit_ref: Option<Seq<char>>,
)
    requires
        shorthand_segment(owner),
        shorthand_segment(repo),
        owner != "."@,
        owner != ".."@,
        shorthand_ref(ref_name),
    ensures
        ({
            let base = owner.push('/') + repo;
            let source: Result<SourceModel, ErrorModel> = Ok(
                SourceModel { url: github_url(base), ref_name: or_else(explicit_ref, ref_name) },
            );
            &&& parsed_source(with_ref(base, '@', ref_name), explicit_ref) == source
            &&& parsed_source(with_ref(github_url(base), '#', ref_name), explicit_ref) == source
            &&& !ends_with(repo, ".git"@) ==> {
                &&& parsed_source(with_ref(bare_github_url(base), '#', ref_name), explicit_ref)
                    == source
                &&& parsed_source(
                    with_ref(bare_github_url(base).push('/'), '#', ref_name),
                    explicit_ref,
                ) == source
            }
        }),
{
    let base = owner.push('/') + repo;
    law_shorthand_is_read_as_written(owner, repo, ref_name);
    law_github_urls_have_one_normal_form(owner, repo);
    law_urls_are_read_as_written(github_url(base), ref_name);
    law_urls_are_read_as_written(bare_github_url(base), ref_name);
    law_urls_are_read_as_written(bare_github_url(base).push('/'), ref_name);
}

/// A URL of SSH or HTTP, with or without a ref behind `#`, is the source with that
/// URL, without its trailing slashes, and exactly that ref; an explicit ref takes
/// its place. A URL of GitHub is given `.git` where it does not end so.
pub proof fn law_git_urls_are_read_as_written(
    stem: Seq<char>,
    slashes: nat,
    ref_name: Option<Seq<char>>,
    explicit_ref: Option<Seq<char>>,
)
    requires
        stem.len() > 0 ==> stem.last() != '/',
        ({
            let url = stem + Seq::new(slashes, |i: int| '/');
            &&& written_for_ssh(url) || written_for_http(url)
            &&& !url.contains('#')
            &&& ref_name is None ==> !white_space(url.last())
        }),
        plain_ref(ref_name),
    ensures
        parsed_source(
            with_ref(stem + Seq::new(slashes, |i: int| '/'), '#', ref_name),
            explicit_ref,
        ) == Ok::<SourceModel, ErrorModel>(
            SourceModel {
                url: if (exists|path: Seq<char>| stem == #[trigger] ("https://github.com/"@ + path))
                    && !(exists|rest: Seq<char>| stem == #[trigger] (rest + ".git"@)) {
                    stem + ".git"@
                } else {
                    stem
                },
                ref_name: if explicit_ref is Some {
                    explicit_ref
                } else {
                    ref_name
                },
            },
        ),
{
    let url = stem + Seq::new(slashes, |i: int| '/');
    law_sources_are_told_by_how_they_are_written(url);
    law_slashes_behind_a_url_are_dropped(stem, slashes);
    if written_for_ssh(url) {
        law_ssh_urls_are_read_as_written(url, ref_name);
    } else {
        law_urls_are_read_as_written(url, ref_name);
    }
}

/// `owner/repo`, with or without a ref behind `#`, is the repository of GitHub and
/// exactly that ref; an explicit ref takes its place. Behind `@` the ref is the
/// same. Owners `.` and `..` are left out, which make it a local path.
pub proof fn law_shorthand_names_a_repository_of_github(
    owner: Seq<char>,
    repo: Seq<char>,
    ref_name: Option<Seq<char>>,
    explicit_ref: Option<Seq<char>>,
)
    requires
        written_as_name(owner),
        written_as_name(repo),
        owner != "."@,
        owner != ".."@,
        plain_ref(ref_name),
    ensures
        ({
            let source: Result<SourceModel, ErrorModel> = Ok(
                SourceModel {
                    url: "https://github.com/"@ + (owner.push('/') + repo) + ".git"@,
                    ref_name: if explicit_ref is Some {
                        explicit_ref
                    } else {
                        ref_name
                    },
                },
            );
            let base = owner.push('/') + repo;
            &&& parsed_source(with_ref(base, '#', ref_name), explicit_ref) == source
            &&& shorthand_ref(ref_name) ==> parsed_source(
                with_ref(base, '@', ref_name),
                explicit_ref,
            ) == source
        }),
{
    let base = owner.push('/') + repo;
    law_names_hold_letters_digits_and_marks(owner);
    law_names_hold_letters_digits_and_marks(repo);
    law_shorthand_is_read_as_written(owner, repo, None);
    if shorthand_ref(ref_name) {
        law_shorthand_is_read_as_written(owner, repo, ref_name);
    }
    match ref_name {
        Some(name) => {
            let text = with_ref(base, '#', ref_name);
            lemma_rsplit_last(base, '#', name);
            lemma_nothing_to_trim(name);
            lemma_trim(base);
            assert(text[0] == base[0]);
            lemma_nothing_to_trim(text);
        },
        None => {},
    }
}

/// A source that is not blank is refused as malformed exactly where it is written
/// as none of these: a local path, a URL of HTTP or SSH, or `owner/repo`. A blank
/// one is refused as empty.
pub proof fn law_sources_are_malformed_only_if_written_in_no_form(
    source: Seq<char>,
    explicit_ref: Option<Seq<char>>,
)
    ensures
        ({
            let (base, _) = source_and_ref(trim(source));
            let known = written_as_path(base) || written_for_http(base) || written_for_ssh(base)
                || written_as_shorthand(base);
            &&& trim(source).len() == 0 ==> parsed_source(source, explicit_ref) == Err::<
                SourceModel,
                ErrorModel,
            >(ErrorModel::InvalidRequest("marketplace source must not be empty"@))
            &&& trim(source).len() > 0 && !known ==> parsed_source(source, explicit_ref) == Err::<
                SourceModel,
                ErrorModel,
            >(ErrorModel::InvalidRequest("invalid marketplace source format: "@ + trim(source)))
            &&& trim(source).len() > 0 && known && !written_as_path(base) ==> parsed_source(
                source,
                explicit_ref,
            ) is Ok
        }),
{
    let (base, _) = source_and_ref(trim(source));
    law_sources_are_told_by_how_they_are_written(base);
}

/// A local path is refused as one, whatever ref comes with it.
pub proof fn law_local_paths_are_refused(source: Seq<char>, explicit_ref: Option<Seq<char>>)
    requires
        trim(source).len() > 0,
        written_as_path(source_and_ref(trim(source)).0),
    ensures
        parsed_source(source, explicit_ref) == Err::<SourceModel, ErrorModel>(
            ErrorModel::InvalidRequest(
                "local marketplace sources are not supported yet; use an HTTP(S) Git URL, SSH Git URL, or GitHub owner/repo"@,
            ),
        ),
{
    law_sources_are_told_by_how_they_are_written(source_and_ref(trim(source)).0);
}

/// An explicit ref comes before the one in the source, and changes nothing else.
pub proof fn law_explicit_ref_wins(source: Seq<char>, name: Seq<char>)
    ensures
        match parsed_source(source, None) {
            Ok(parsed) => parsed_source(source, Some(name)) == Ok::<SourceModel, ErrorModel>(
                SourceModel { url: parsed.url, ref_name: Some(name) },
            ),
            Err(error) => parsed_source(source, Some(name)) == Err::<SourceModel, ErrorModel>(
                error,
            ),
        },
{
}

/// White space around a source does not matter.
pub proof fn law_space_around_a_source_is_ignored(source: Seq<char>, name: Option<Seq<char>>)
    ensures
        parsed_source(trim(source), name) == parsed_source(source, name),
{
    lemma_trim(source);
    lemma_nothing_to_trim(trim(source));
}

/// An entry records one source, one ref and one list of paths: metadata that it
/// matches is the same metadata.
pub proof fn law_an_entry_records_one_source(a: MetadataModel, b: MetadataModel, entry: EntryModel)
    requires
        records(a, entry),
        records(b, entry),
    ensures
        a == b,
{
}

/// What is shown of a source is read as that source: its URL, and behind `#` its
/// ref, if it has one.
pub proof fn law_a_shown_source_is_read_back(source: SourceModel)
    requires
        written_for_ssh(source.url) || written_for_http(source.url),
        !source.url.contains('#'),
        source.url.last() != '/',
        (exists|path: Seq<char>| source.url == #[trigger] ("https://github.com/"@ + path)) ==> (
        exists|rest: Seq<char>| source.url == #[trigger] (rest + ".git"@)),
        source.ref_name is None ==> !white_space(source.url.last()),
        plain_ref(source.ref_name),
    ensures
        parsed_source(source.display(), None) == Ok::<SourceModel, ErrorModel>(source),
{
    let none = Seq::new(0nat, |i: int| '/');
    assert(source.url + none =~= source.url);
    law_git_urls_are_read_as_written(source.url, 0, source.ref_name, None);
    reveal_strlit("#");
    if let Some(name) = source.ref_name {
        assert(source.url + "#"@ + name =~= source.url.push('#') + name);
    }
}

/// One entry records a source, a ref and a list of paths: two entries that record
/// the same are the same. It says `git`, and each of the three as it is.
pub proof fn law_a_source_is_recorded_in_one_way(
    m: MetadataModel,
    entry: EntryModel,
    other: EntryModel,
)
    ensures
        records(m, entry) && records(m, other) ==> entry == other,
        records(
            m,
            (EntryModel {
                source_type: Some("git"@),
                source: Some(m.url),
                ref_name: m.ref_name,
                sparse_paths: m.sparse_paths,
            }),
        ),
{
}

} // verus!
