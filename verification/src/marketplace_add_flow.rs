//! The steps from the request for a marketplace to the installed marketplace.
//!
//! [`AddFlow`] decides; its caller acts. A flow holds the action that is to be
//! done next. The caller does it and hands the answer back, until the flow ends.

use crate::calendar::{format_utc_timestamp, signed_seconds, utc_timestamp};
use crate::marketplace_add::{
    metadata_of, parse_marketplace_source, parsed_source, records, ErrorModel,
    MarketplaceAddError, MarketplaceAddOutcome, MarketplaceAddRequest,
    MarketplaceInstallMetadata, MarketplaceSource, MetadataModel, OutcomeModel, SourceModel,
};
use crate::marketplace_config::{
    configured_marketplaces, entry_written, named_entries, read_marketplaces, toml_document,
    EntryModel, MarketplaceConfigEntry, MarketplaceConfigUpdate, UpdateModel,
};
use crate::marketplace_destination::{
    check_destination, destination_check, law_a_destination_is_inside_below_the_root, CheckModel,
    DestinationCheck, DestinationReport,
};
use crate::marketplace_source::{safe_dir_name, safe_marketplace_dir_name};
use crate::path::{lies_in, ComponentModel, LocalPath};
use crate::text::{
    copy_texts, ends_with, law_prefixes_come_first, law_suffixes_come_last, same_text, starts_with,
};
use vstd::prelude::*;

verus! {

/// How the places that a flow works with are shown.
#[derive(Clone, Debug, PartialEq, Eq)]
pub struct AddPlaces {
    pub install_root: String,
    pub config: String,
    pub staging_root: String,
}

/// What stays the same while a flow runs.
#[derive(Clone, Debug, PartialEq, Eq)]
pub struct AddContext {
    pub source: MarketplaceSource,
    pub sparse_paths: Vec<String>,
    /// The name that no added marketplace may have.
    pub reserved_name: String,
    pub places: AddPlaces,
}

pub struct ContextModel {
    pub source: SourceModel,
    pub sparse_paths: Seq<Seq<char>>,
    pub reserved_name: Seq<char>,
    pub install_root: Seq<char>,
    pub config: Seq<char>,
    pub staging_root: Seq<char>,
}

impl View for AddContext {
    type V = ContextModel;

    open spec fn view(&self) -> ContextModel {
        ContextModel {
            source: self.source@,
            sparse_paths: self.sparse_paths.deep_view(),
            reserved_name: self.reserved_name@,
            install_root: self.places.install_root@,
            config: self.places.config@,
            staging_root: self.places.staging_root@,
        }
    }
}

/// Where a marketplace lies: one that was there before, in a directory of the
/// install root, or one that this flow installed.
#[derive(Debug, PartialEq, Eq)]
pub enum AddPlace {
    Existing { dir: String },
    Fresh { dir_name: String, shown: String },
}

pub enum PlaceModel {
    Existing { dir: Seq<char> },
    Fresh { dir_name: Seq<char>, shown: Seq<char> },
}

/// A marketplace that is to be recorded.
#[derive(Debug, PartialEq, Eq)]
pub struct AddTarget {
    pub name: String,
    pub place: AddPlace,
}

pub struct TargetModel {
    pub name: Seq<char>,
    pub place: PlaceModel,
}

impl View for AddTarget {
    type V = TargetModel;

    open spec fn view(&self) -> TargetModel {
        TargetModel {
            name: self.name@,
            place: match self.place {
                AddPlace::Existing { dir } => PlaceModel::Existing { dir: dir@ },
                AddPlace::Fresh { dir_name, shown } => PlaceModel::Fresh {
                    dir_name: dir_name@,
                    shown: shown@,
                },
            },
        }
    }
}

/// What is to be done next.
#[derive(Debug, PartialEq, Eq)]
pub enum AddAction {
    /// Create the install root, where it is missing.
    CreateInstallRoot,
    /// Read the user's configuration.
    ReadConfig,
    /// Validate the marketplace in `dir` of the install root. `rest` are the
    /// directories that come after it.
    ValidateCandidate { dir: String, rest: Vec<String> },
    /// Validate the marketplace in `dir` of the install root and read its name.
    ValidateExisting { dir: String },
    /// Read the seconds since the Unix epoch.
    ReadClock { target: AddTarget },
    /// Record the target in the user's configuration.
    RecordEntry { target: AddTarget, update: MarketplaceConfigUpdate },
    /// Create the staging root, where it is missing.
    CreateStagingRoot,
    /// Create a fresh directory in the staging root.
    CreateStagedDir,
    /// Clone the source into the staged directory.
    CloneSource,
    /// Validate the staged marketplace and its name.
    ValidateStaged,
    /// Resolve the install root and the destination `dir_name` in it.
    ResolveDestination { name: String, dir_name: String },
    /// Look whether the destination is there.
    CheckDestination { name: String, dir_name: String, shown: String },
    /// Move the staged directory to the destination.
    Install { name: String, dir_name: String, shown: String },
    /// Move the destination back to the staged directory, because of `error`.
    RollBack { dir_name: String, shown: String, error: MarketplaceAddError },
    /// Resolve the root of the target.
    ResolveInstalledRoot { target: AddTarget },
}

pub enum ActionModel {
    CreateInstallRoot,
    ReadConfig,
    ValidateCandidate { dir: Seq<char>, rest: Seq<Seq<char>> },
    ValidateExisting { dir: Seq<char> },
    ReadClock { target: TargetModel },
    RecordEntry { target: TargetModel, update: UpdateModel },
    CreateStagingRoot,
    CreateStagedDir,
    CloneSource,
    ValidateStaged,
    ResolveDestination { name: Seq<char>, dir_name: Seq<char> },
    CheckDestination { name: Seq<char>, dir_name: Seq<char>, shown: Seq<char> },
    Install { name: Seq<char>, dir_name: Seq<char>, shown: Seq<char> },
    RollBack { dir_name: Seq<char>, shown: Seq<char>, error: ErrorModel },
    ResolveInstalledRoot { target: TargetModel },
}

impl View for AddAction {
    type V = ActionModel;

    open spec fn view(&self) -> ActionModel {
        match *self {
            AddAction::CreateInstallRoot => ActionModel::CreateInstallRoot,
            AddAction::ReadConfig => ActionModel::ReadConfig,
            AddAction::ValidateCandidate { dir, rest } => ActionModel::ValidateCandidate {
                dir: dir@,
                rest: rest.deep_view(),
            },
            AddAction::ValidateExisting { dir } => ActionModel::ValidateExisting { dir: dir@ },
            AddAction::ReadClock { target } => ActionModel::ReadClock { target: target@ },
            AddAction::RecordEntry { target, update } => ActionModel::RecordEntry {
                target: target@,
                update: update@,
            },
            AddAction::CreateStagingRoot => ActionModel::CreateStagingRoot,
            AddAction::CreateStagedDir => ActionModel::CreateStagedDir,
            AddAction::CloneSource => ActionModel::CloneSource,
            AddAction::ValidateStaged => ActionModel::ValidateStaged,
            AddAction::ResolveDestination { name, dir_name } => ActionModel::ResolveDestination {
                name: name@,
                dir_name: dir_name@,
            },
            AddAction::CheckDestination { name, dir_name, shown } => {
                ActionModel::CheckDestination { name: name@, dir_name: dir_name@, shown: shown@ }
            },
            AddAction::Install { name, dir_name, shown } => ActionModel::Install {
                name: name@,
                dir_name: dir_name@,
                shown: shown@,
            },
            AddAction::RollBack { dir_name, shown, error } => ActionModel::RollBack {
                dir_name: dir_name@,
                shown: shown@,
                error: error@,
            },
            AddAction::ResolveInstalledRoot { target } => ActionModel::ResolveInstalledRoot {
                target: target@,
            },
        }
    }
}

/// What reading the user's configuration gave.
#[derive(Debug, PartialEq, Eq)]
pub enum ConfigRead {
    Missing,
    Failed { error: String },
    Text { text: String },
}

/// What came of an action.
#[derive(Debug, PartialEq, Eq)]
pub enum AddAnswer {
    /// Of the actions that create, record, install and roll back.
    Done(Result<(), String>),
    /// Of `ReadConfig`.
    Config(ConfigRead),
    /// Of `ValidateCandidate` and `ValidateExisting`: how the directory is
    /// shown, and the marketplace's name.
    Validated { shown: String, name: Result<String, String> },
    /// Of `ReadClock`.
    Clock(Result<u64, String>),
    /// Of `CloneSource`.
    Cloned(Result<(), MarketplaceAddError>),
    /// Of `ValidateStaged`: the marketplace's name, and what the check of the
    /// name says where there is one.
    Staged { name: Result<String, String>, segment: Result<(), String> },
    /// Of `ResolveDestination`.
    Destination(DestinationReport),
    /// Of `CheckDestination`.
    DestinationExists(bool),
    /// Of `ResolveInstalledRoot`.
    Root(Result<LocalPath, String>),
}

/// A marketplace that is being added.
#[derive(Debug, PartialEq, Eq)]
pub struct AddFlow {
    pub context: AddContext,
    pub pending: AddAction,
}

pub struct FlowModel {
    pub context: ContextModel,
    pub pending: ActionModel,
}

impl View for AddFlow {
    type V = FlowModel;

    open spec fn view(&self) -> FlowModel {
        FlowModel { context: self.context@, pending: self.pending@ }
    }
}

/// A flow goes on, or it has ended.
#[derive(Debug, PartialEq, Eq)]
pub enum AddStep {
    Continue(AddFlow),
    Finished(Result<MarketplaceAddOutcome, MarketplaceAddError>),
}

pub enum StepModel {
    Continue(FlowModel),
    Finished(Result<OutcomeModel, ErrorModel>),
}

impl View for AddStep {
    type V = StepModel;

    open spec fn view(&self) -> StepModel {
        match *self {
            AddStep::Continue(flow) => StepModel::Continue(flow@),
            AddStep::Finished(Ok(outcome)) => StepModel::Finished(Ok(outcome@)),
            AddStep::Finished(Err(error)) => StepModel::Finished(Err(error@)),
        }
    }
}

pub open spec fn goes_to(context: ContextModel, pending: ActionModel) -> StepModel {
    StepModel::Continue(FlowModel { context, pending })
}

pub open spec fn fails(text: Seq<char>) -> StepModel {
    StepModel::Finished(Err(ErrorModel::Internal(text)))
}

pub open spec fn refuses(text: Seq<char>) -> StepModel {
    StepModel::Finished(Err(ErrorModel::InvalidRequest(text)))
}

/// The names of the entries that record `m`, in the order of the entries.
pub open spec fn recorded_names(entries: Seq<(Seq<char>, EntryModel)>, m: MetadataModel) -> Seq<
    Seq<char>,
>
    decreases entries.len(),
{
    if entries.len() == 0 {
        Seq::empty()
    } else {
        let before = recorded_names(entries.drop_last(), m);
        if records(m, entries.last().1) {
            before.push(entries.last().0)
        } else {
            before
        }
    }
}

/// The directories are tried one after the other; when none is left, the
/// source is fetched.
pub open spec fn tries(context: ContextModel, dirs: Seq<Seq<char>>) -> StepModel {
    if dirs.len() == 0 {
        goes_to(context, ActionModel::CreateStagingRoot)
    } else {
        goes_to(
            context,
            ActionModel::ValidateCandidate {
                dir: dirs[0],
                rest: dirs.subrange(1, dirs.len() as int),
            },
        )
    }
}

pub open spec fn after_config(context: ContextModel, read: ConfigRead) -> StepModel {
    match read {
        ConfigRead::Missing => goes_to(context, ActionModel::CreateStagingRoot),
        ConfigRead::Failed { error } => fails(
            "failed to read user config "@ + context.config + ": "@ + error@,
        ),
        ConfigRead::Text { text } => match configured_marketplaces(text@) {
            Err(error) => fails(
                "failed to parse user config "@ + context.config + ": "@ + error,
            ),
            Ok(entries) => tries(
                context,
                recorded_names(entries, metadata_of(context.source, context.sparse_paths)),
            ),
        },
    }
}

/// A target that could not be recorded: one that was there before stays, one
/// that this flow installed goes back.
pub open spec fn not_recorded(
    context: ContextModel,
    target: TargetModel,
    error: ErrorModel,
) -> StepModel {
    match target.place {
        PlaceModel::Existing { dir } => StepModel::Finished(Err(error)),
        PlaceModel::Fresh { dir_name, shown } => goes_to(
            context,
            ActionModel::RollBack { dir_name, shown, error },
        ),
    }
}

/// The entry that records the flow's source at a time.
pub open spec fn update_at(context: ContextModel, seconds: u64) -> UpdateModel {
    UpdateModel {
        last_updated: utc_timestamp(signed_seconds(seconds) as int),
        source_type: "git"@,
        source: context.source.url,
        ref_name: context.source.ref_name,
        sparse_paths: context.sparse_paths,
    }
}

/// A staged marketplace goes on where its name is valid, is not the reserved
/// one and gives the name of a directory.
pub open spec fn after_staged(
    context: ContextModel,
    name: Result<String, String>,
    segment: Result<(), String>,
) -> StepModel {
    match (name, segment) {
        (Err(error), _) => refuses(error@),
        (Ok(_), Err(error)) => refuses(error@),
        (Ok(name), Ok(_)) => if name@ == context.reserved_name {
            refuses(
                "marketplace '"@ + context.reserved_name
                    + "' is reserved and cannot be added from "@ + context.source.display(),
            )
        } else if safe_dir_name(name@).len() == 0 {
            refuses(
                "marketplace name '"@ + name@ + "' cannot be used as an install directory"@,
            )
        } else {
            goes_to(
                context,
                ActionModel::ResolveDestination { name: name@, dir_name: safe_dir_name(name@) },
            )
        },
    }
}

pub open spec fn after_destination(
    context: ContextModel,
    name: Seq<char>,
    dir_name: Seq<char>,
    report: DestinationReport,
) -> StepModel {
    match destination_check(report) {
        CheckModel::InstallRootUnresolved { error } => fails(
            "failed to resolve marketplace install root "@ + context.install_root + ": "@ + error,
        ),
        CheckModel::NoParent => fails("marketplace destination has no parent"@),
        CheckModel::ParentUnresolved { error } => fails(
            "failed to resolve marketplace destination parent "@ + report.shown@ + ": "@ + error,
        ),
        CheckModel::Outside { install_root } => refuses(
            "marketplace destination "@ + report.shown@ + " is outside install root "@
                + install_root,
        ),
        CheckModel::Inside => goes_to(
            context,
            ActionModel::CheckDestination { name, dir_name, shown: report.shown@ },
        ),
    }
}

pub open spec fn outcome_of(
    context: ContextModel,
    target: TargetModel,
    root: LocalPath,
) -> OutcomeModel {
    OutcomeModel {
        marketplace_name: target.name,
        source_display: context.source.display(),
        installed_root: root@,
        already_added: target.place is Existing,
    }
}

/// What follows on an answer. One that is of another action changes nothing.
pub open spec fn step(flow: FlowModel, answer: AddAnswer) -> StepModel {
    let context = flow.context;
    match (flow.pending, answer) {
        (ActionModel::CreateInstallRoot, AddAnswer::Done(Ok(_))) => goes_to(
            context,
            ActionModel::ReadConfig,
        ),
        (ActionModel::CreateInstallRoot, AddAnswer::Done(Err(error))) => fails(
            "failed to create marketplace install directory "@ + context.install_root + ": "@
                + error@,
        ),
        (ActionModel::ReadConfig, AddAnswer::Config(read)) => after_config(context, read),
        (ActionModel::ValidateCandidate { dir, rest }, AddAnswer::Validated { shown, name }) => {
            match name {
                Ok(_) => goes_to(context, ActionModel::ValidateExisting { dir }),
                Err(_) => tries(context, rest),
            }
        },
        (ActionModel::ValidateExisting { dir }, AddAnswer::Validated { shown, name }) => {
            match name {
                Ok(name) => goes_to(
                    context,
                    ActionModel::ReadClock {
                        target: TargetModel { name: name@, place: PlaceModel::Existing { dir } },
                    },
                ),
                Err(error) => fails(
                    "failed to validate installed marketplace at "@ + shown@ + ": "@ + error@,
                ),
            }
        },
        (ActionModel::ReadClock { target }, AddAnswer::Clock(Ok(seconds))) => goes_to(
            context,
            ActionModel::RecordEntry { target, update: update_at(context, seconds) },
        ),
        (ActionModel::ReadClock { target }, AddAnswer::Clock(Err(error))) => not_recorded(
            context,
            target,
            ErrorModel::Internal("system clock is before Unix epoch: "@ + error@),
        ),
        (ActionModel::RecordEntry { target, update }, AddAnswer::Done(Ok(_))) => goes_to(
            context,
            ActionModel::ResolveInstalledRoot { target },
        ),
        (ActionModel::RecordEntry { target, update }, AddAnswer::Done(Err(error))) => not_recorded(
            context,
            target,
            ErrorModel::Internal(
                "failed to add marketplace '"@ + target.name + "' to user config.toml: "@ + error@,
            ),
        ),
        (ActionModel::CreateStagingRoot, AddAnswer::Done(Ok(_))) => goes_to(
            context,
            ActionModel::CreateStagedDir,
        ),
        (ActionModel::CreateStagingRoot, AddAnswer::Done(Err(error))) => fails(
            "failed to create marketplace staging directory "@ + context.staging_root + ": "@
                + error@,
        ),
        (ActionModel::CreateStagedDir, AddAnswer::Done(Ok(_))) => goes_to(
            context,
            ActionModel::CloneSource,
        ),
        (ActionModel::CreateStagedDir, AddAnswer::Done(Err(error))) => fails(
            "failed to create temporary marketplace directory in "@ + context.staging_root + ": "@
                + error@,
        ),
        (ActionModel::CloneSource, AddAnswer::Cloned(Ok(_))) => goes_to(
            context,
            ActionModel::ValidateStaged,
        ),
        (ActionModel::CloneSource, AddAnswer::Cloned(Err(error))) => StepModel::Finished(
            Err(error@),
        ),
        (ActionModel::ValidateStaged, AddAnswer::Staged { name, segment }) => after_staged(
            context,
            name,
            segment,
        ),
        (
            ActionModel::ResolveDestination { name, dir_name },
            AddAnswer::Destination(report),
        ) => after_destination(context, name, dir_name, report),
        (
            ActionModel::CheckDestination { name, dir_name, shown },
            AddAnswer::DestinationExists(exists),
        ) => if exists {
            refuses(
                "marketplace '"@ + name
                    + "' is already added from a different source; remove it before adding "@
                    + context.source.display(),
            )
        } else {
            goes_to(context, ActionModel::Install { name, dir_name, shown })
        },
        (ActionModel::Install { name, dir_name, shown }, AddAnswer::Done(Ok(_))) => goes_to(
            context,
            ActionModel::ReadClock {
                target: TargetModel { name, place: PlaceModel::Fresh { dir_name, shown } },
            },
        ),
        (ActionModel::Install { name, dir_name, shown }, AddAnswer::Done(Err(error))) => fails(
            "failed to install marketplace at "@ + shown + ": "@ + error@,
        ),
        (ActionModel::RollBack { dir_name, shown, error }, AddAnswer::Done(Ok(_))) => {
            StepModel::Finished(Err(error))
        },
        (ActionModel::RollBack { dir_name, shown, error }, AddAnswer::Done(Err(rollback))) => fails(
            error.text() + "; additionally failed to roll back installed marketplace at "@ + shown
                + ": "@ + rollback@,
        ),
        (ActionModel::ResolveInstalledRoot { target }, AddAnswer::Root(Ok(root))) => {
            StepModel::Finished(Ok(outcome_of(context, target, root)))
        },
        (ActionModel::ResolveInstalledRoot { target }, AddAnswer::Root(Err(error))) => fails(
            "failed to resolve installed marketplace root: "@ + error@,
        ),
        _ => StepModel::Continue(flow),
    }
}

/// How adding a marketplace begins: a source that cannot be read ends it at once.
pub open spec fn begun(
    request: MarketplaceAddRequest,
    reserved_name: Seq<char>,
    places: AddPlaces,
) -> StepModel {
    match parsed_source(request.source@, request.ref_name.deep_view()) {
        Err(error) => StepModel::Finished(Err(error)),
        Ok(source) => goes_to(
            ContextModel {
                source,
                sparse_paths: request.sparse_paths.deep_view(),
                reserved_name,
                install_root: places.install_root@,
                config: places.config@,
                staging_root: places.staging_root@,
            },
            ActionModel::CreateInstallRoot,
        ),
    }
}

/// The names of the entries that record the metadata, in the order of the entries.
pub fn matching_names(
    entries: &Vec<(String, MarketplaceConfigEntry)>,
    metadata: &MarketplaceInstallMetadata,
) -> (r: Vec<String>)
    ensures
        r.deep_view() == recorded_names(named_entries(entries@), metadata@),
{
    let mut names: Vec<String> = Vec::new();
    let mut i: usize = 0;
    assert(names.deep_view() =~= Seq::<Seq<char>>::empty());
    while i < entries.len()
        invariant
            i <= entries.len(),
            names.deep_view() == recorded_names(
                named_entries(entries@).subrange(0, i as int),
                metadata@,
            ),
        decreases entries.len() - i,
    {
        let ghost seen = named_entries(entries@).subrange(0, i + 1);
        let ghost before = names.deep_view();
        assert(seen.drop_last() =~= named_entries(entries@).subrange(0, i as int));
        assert(seen.last() == (entries@[i as int].0@, entries@[i as int].1@));
        if metadata.matches_config(&entries[i].1) {
            names.push(entries[i].0.clone());
            assert(names.deep_view() =~= before.push(entries@[i as int].0@));
        }
        i = i + 1;
    }
    assert(named_entries(entries@).subrange(0, entries.len() as int) =~= named_entries(entries@));
    names
}

fn internal(text: String) -> (r: AddStep)
    ensures
        r@ == fails(text@),
{
    AddStep::Finished(Err(MarketplaceAddError::Internal(text)))
}

fn invalid(text: String) -> (r: AddStep)
    ensures
        r@ == refuses(text@),
{
    AddStep::Finished(Err(MarketplaceAddError::InvalidRequest(text)))
}

impl AddContext {
    fn go_to(self, pending: AddAction) -> (r: AddStep)
        ensures
            r@ == goes_to(self@, pending@),
    {
        AddStep::Continue(AddFlow { context: self, pending })
    }

    /// Tries the directories one after the other.
    fn try_dirs(self, dirs: Vec<String>) -> (r: AddStep)
        ensures
            r@ == tries(self@, dirs.deep_view()),
    {
        let mut rest = dirs;
        if rest.len() == 0 {
            return self.go_to(AddAction::CreateStagingRoot);
        }
        let dir = rest.remove(0);
        assert(rest.deep_view() =~= dirs.deep_view().subrange(1, dirs.len() as int));
        self.go_to(AddAction::ValidateCandidate { dir, rest })
    }

    fn metadata(&self) -> (r: MarketplaceInstallMetadata)
        ensures
            r@ == metadata_of(self@.source, self@.sparse_paths),
    {
        MarketplaceInstallMetadata::from_source(&self.source, &self.sparse_paths)
    }

    /// Looks among the configured marketplaces for the ones that record the
    /// flow's source.
    fn installed_marketplace_root_for_source(self, read: ConfigRead) -> (r: AddStep)
        ensures
            r@ == after_config(self@, read),
    {
        match read {
            ConfigRead::Missing => self.go_to(AddAction::CreateStagingRoot),
            ConfigRead::Failed { error } => internal(
                "failed to read user config ".to_owned().concat(
                    self.places.config.as_str(),
                ).concat(": ").concat(error.as_str()),
            ),
            ConfigRead::Text { text } => match read_marketplaces(text.as_str()) {
                Err(error) => internal(
                    "failed to parse user config ".to_owned().concat(
                        self.places.config.as_str(),
                    ).concat(": ").concat(error.as_str()),
                ),
                Ok(entries) => {
                    let metadata = self.metadata();
                    let names = matching_names(&entries, &metadata);
                    self.try_dirs(names)
                },
            },
        }
    }

    /// The entry that records the flow's source at a time.
    fn record_added_marketplace_entry(&self, seconds: u64) -> (r: MarketplaceConfigUpdate)
        ensures
            r@ == update_at(self@, seconds),
    {
        let metadata = self.metadata();
        let seconds_since_epoch: i64 = #[verifier::truncate]
        (seconds as i64);
        MarketplaceConfigUpdate {
            last_updated: format_utc_timestamp(seconds_since_epoch),
            source_type: metadata.config_source_type().to_owned(),
            source: metadata.config_source(),
            ref_name: match metadata.ref_name() {
                Some(name) => Some(name.to_owned()),
                None => None,
            },
            sparse_paths: copy_texts(metadata.sparse_paths()),
        }
    }

    fn not_recorded(self, target: AddTarget, error: MarketplaceAddError) -> (r: AddStep)
        ensures
            r@ == not_recorded(self@, target@, error@),
    {
        match target.place {
            AddPlace::Existing { dir } => AddStep::Finished(Err(error)),
            AddPlace::Fresh { dir_name, shown } => self.go_to(
                AddAction::RollBack { dir_name, shown, error },
            ),
        }
    }

    fn after_staged(self, name: Result<String, String>, segment: Result<(), String>) -> (r: AddStep)
        ensures
            r@ == after_staged(self@, name, segment),
    {
        let name = match name {
            Ok(name) => name,
            Err(error) => {
                return invalid(error);
            },
        };
        if let Err(error) = segment {
            return invalid(error);
        }
        if same_text(name.as_str(), self.reserved_name.as_str()) {
            return invalid(
                "marketplace '".to_owned().concat(self.reserved_name.as_str()).concat(
                    "' is reserved and cannot be added from ",
                ).concat(self.source.display().as_str()),
            );
        }
        match safe_marketplace_dir_name(name.as_str()) {
            None => invalid(
                "marketplace name '".to_owned().concat(name.as_str()).concat(
                    "' cannot be used as an install directory",
                ),
            ),
            Some(dir_name) => self.go_to(AddAction::ResolveDestination { name, dir_name }),
        }
    }

    fn ensure_marketplace_destination_is_inside_install_root(
        self,
        name: String,
        dir_name: String,
        report: DestinationReport,
    ) -> (r: AddStep)
        ensures
            r@ == after_destination(self@, name@, dir_name@, report),
    {
        match check_destination(&report) {
            DestinationCheck::InstallRootUnresolved { error } => internal(
                "failed to resolve marketplace install root ".to_owned().concat(
                    self.places.install_root.as_str(),
                ).concat(": ").concat(error.as_str()),
            ),
            DestinationCheck::NoParent => internal(
                "marketplace destination has no parent".to_owned(),
            ),
            DestinationCheck::ParentUnresolved { error } => internal(
                "failed to resolve marketplace destination parent ".to_owned().concat(
                    report.shown.as_str(),
                ).concat(": ").concat(error.as_str()),
            ),
            DestinationCheck::Outside { install_root } => invalid(
                "marketplace destination ".to_owned().concat(report.shown.as_str()).concat(
                    " is outside install root ",
                ).concat(install_root.as_str()),
            ),
            DestinationCheck::Inside => self.go_to(
                AddAction::CheckDestination { name, dir_name, shown: report.shown },
            ),
        }
    }
}

impl AddFlow {
    /// Begins to add a marketplace.
    pub fn begin(
        request: MarketplaceAddRequest,
        reserved_name: String,
        places: AddPlaces,
    ) -> (r: AddStep)
        ensures
            r@ == begun(request, reserved_name@, places),
    {
        match parse_marketplace_source(request.source.as_str(), request.ref_name) {
            Err(error) => AddStep::Finished(Err(error)),
            Ok(source) => {
                let context = AddContext {
                    source,
                    sparse_paths: request.sparse_paths,
                    reserved_name,
                    places,
                };
                context.go_to(AddAction::CreateInstallRoot)
            },
        }
    }

    /// Takes the answer to the pending action. One that is of another action
    /// changes nothing.
    pub fn advance(self, answer: AddAnswer) -> (r: AddStep)
        ensures
            r@ == step(self@, answer),
    {
        let AddFlow { context, pending } = self;
        match (pending, answer) {
            (AddAction::CreateInstallRoot, AddAnswer::Done(Ok(_))) => context.go_to(
                AddAction::ReadConfig,
            ),
            (AddAction::CreateInstallRoot, AddAnswer::Done(Err(error))) => internal(
                "failed to create marketplace install directory ".to_owned().concat(
                    context.places.install_root.as_str(),
                ).concat(": ").concat(error.as_str()),
            ),
            (AddAction::ReadConfig, AddAnswer::Config(read)) => {
                context.installed_marketplace_root_for_source(read)
            },
            (AddAction::ValidateCandidate { dir, rest }, AddAnswer::Validated { shown, name }) => {
                match name {
                    Ok(_) => context.go_to(AddAction::ValidateExisting { dir }),
                    Err(_) => context.try_dirs(rest),
                }
            },
            (AddAction::ValidateExisting { dir }, AddAnswer::Validated { shown, name }) => {
                match name {
                    Ok(name) => context.go_to(
                        AddAction::ReadClock {
                            target: AddTarget { name, place: AddPlace::Existing { dir } },
                        },
                    ),
                    Err(error) => internal(
                        "failed to validate installed marketplace at ".to_owned().concat(
                            shown.as_str(),
                        ).concat(": ").concat(error.as_str()),
                    ),
                }
            },
            (AddAction::ReadClock { target }, AddAnswer::Clock(Ok(seconds))) => {
                let update = context.record_added_marketplace_entry(seconds);
                context.go_to(AddAction::RecordEntry { target, update })
            },
            (AddAction::ReadClock { target }, AddAnswer::Clock(Err(error))) => context.not_recorded(
                target,
                MarketplaceAddError::Internal(
                    "system clock is before Unix epoch: ".to_owned().concat(error.as_str()),
                ),
            ),
            (AddAction::RecordEntry { target, update }, AddAnswer::Done(Ok(_))) => context.go_to(
                AddAction::ResolveInstalledRoot { target },
            ),
            (AddAction::RecordEntry { target, update }, AddAnswer::Done(Err(error))) => {
                let text = "failed to add marketplace '".to_owned().concat(
                    target.name.as_str(),
                ).concat("' to user config.toml: ").concat(error.as_str());
                context.not_recorded(target, MarketplaceAddError::Internal(text))
            },
            (AddAction::CreateStagingRoot, AddAnswer::Done(Ok(_))) => context.go_to(
                AddAction::CreateStagedDir,
            ),
            (AddAction::CreateStagingRoot, AddAnswer::Done(Err(error))) => internal(
                "failed to create marketplace staging directory ".to_owned().concat(
                    context.places.staging_root.as_str(),
                ).concat(": ").concat(error.as_str()),
            ),
            (AddAction::CreateStagedDir, AddAnswer::Done(Ok(_))) => context.go_to(
                AddAction::CloneSource,
            ),
            (AddAction::CreateStagedDir, AddAnswer::Done(Err(error))) => internal(
                "failed to create temporary marketplace directory in ".to_owned().concat(
                    context.places.staging_root.as_str(),
                ).concat(": ").concat(error.as_str()),
            ),
            (AddAction::CloneSource, AddAnswer::Cloned(Ok(_))) => context.go_to(
                AddAction::ValidateStaged,
            ),
            (AddAction::CloneSource, AddAnswer::Cloned(Err(error))) => AddStep::Finished(
                Err(error),
            ),
            (AddAction::ValidateStaged, AddAnswer::Staged { name, segment }) => {
                context.after_staged(name, segment)
            },
            (
                AddAction::ResolveDestination { name, dir_name },
                AddAnswer::Destination(report),
            ) => context.ensure_marketplace_destination_is_inside_install_root(
                name,
                dir_name,
                report,
            ),
            (
                AddAction::CheckDestination { name, dir_name, shown },
                AddAnswer::DestinationExists(exists),
            ) => if exists {
                invalid(
                    "marketplace '".to_owned().concat(name.as_str()).concat(
                        "' is already added from a different source; remove it before adding ",
                    ).concat(context.source.display().as_str()),
                )
            } else {
                context.go_to(AddAction::Install { name, dir_name, shown })
            },
            (AddAction::Install { name, dir_name, shown }, AddAnswer::Done(Ok(_))) => context.go_to(
                AddAction::ReadClock {
                    target: AddTarget { name, place: AddPlace::Fresh { dir_name, shown } },
                },
            ),
            (AddAction::Install { name, dir_name, shown }, AddAnswer::Done(Err(error))) => internal(
                "failed to install marketplace at ".to_owned().concat(shown.as_str()).concat(
                    ": ",
                ).concat(error.as_str()),
            ),
            (AddAction::RollBack { dir_name, shown, error }, AddAnswer::Done(Ok(_))) => {
                AddStep::Finished(Err(error))
            },
            (AddAction::RollBack { dir_name, shown, error }, AddAnswer::Done(Err(rollback))) => {
                internal(
                    error.message().to_owned().concat(
                        "; additionally failed to roll back installed marketplace at ",
                    ).concat(shown.as_str()).concat(": ").concat(rollback.as_str()),
                )
            },
            (AddAction::ResolveInstalledRoot { target }, AddAnswer::Root(Ok(root))) => {
                AddStep::Finished(
                    Ok(
                        MarketplaceAddOutcome {
                            marketplace_name: target.name,
                            source_display: context.source.display(),
                            installed_root: root,
                            already_added: matches!(target.place, AddPlace::Existing { .. }),
                        },
                    ),
                )
            },
            (AddAction::ResolveInstalledRoot { target }, AddAnswer::Root(Err(error))) => internal(
                "failed to resolve installed marketplace root: ".to_owned().concat(
                    error.as_str(),
                ),
            ),
            (pending, _) => context.go_to(pending),
        }
    }
}

/// The answer is of the action.
pub open spec fn fits(action: ActionModel, answer: AddAnswer) -> bool {
    match action {
        ActionModel::CreateInstallRoot
        | ActionModel::RecordEntry { .. }
        | ActionModel::CreateStagingRoot
        | ActionModel::CreateStagedDir
        | ActionModel::Install { .. }
        | ActionModel::RollBack { .. } => answer is Done,
        ActionModel::ReadConfig => answer is Config,
        ActionModel::ValidateCandidate { .. } | ActionModel::ValidateExisting { .. } => {
            answer is Validated
        },
        ActionModel::ReadClock { .. } => answer is Clock,
        ActionModel::CloneSource => answer is Cloned,
        ActionModel::ValidateStaged => answer is Staged,
        ActionModel::ResolveDestination { .. } => answer is Destination,
        ActionModel::CheckDestination { .. } => answer is DestinationExists,
        ActionModel::ResolveInstalledRoot { .. } => answer is Root,
    }
}

/// How many kinds of action can still come.
pub open spec fn stages_left(action: ActionModel) -> nat {
    match action {
        ActionModel::CreateInstallRoot => 14,
        ActionModel::ReadConfig => 13,
        ActionModel::ValidateCandidate { .. } => 12,
        ActionModel::ValidateExisting { .. } => 11,
        ActionModel::CreateStagingRoot => 10,
        ActionModel::CreateStagedDir => 9,
        ActionModel::CloneSource => 8,
        ActionModel::ValidateStaged => 7,
        ActionModel::ResolveDestination { .. } => 6,
        ActionModel::CheckDestination { .. } => 5,
        ActionModel::Install { .. } => 4,
        ActionModel::ReadClock { .. } => 3,
        ActionModel::RecordEntry { .. } => 2,
        ActionModel::RollBack { .. } => 1,
        ActionModel::ResolveInstalledRoot { .. } => 1,
    }
}

/// How many candidates are still to be tried.
pub open spec fn candidates_left(action: ActionModel) -> nat {
    match action {
        ActionModel::ValidateCandidate { dir, rest } => rest.len() + 1,
        _ => 0,
    }
}

/// Every answer brings a flow nearer to its end: there are fewer kinds of action
/// left, or as many and fewer candidates. So a flow ends.
pub proof fn law_every_answer_moves_on(flow: FlowModel, answer: AddAnswer)
    requires
        fits(flow.pending, answer),
    ensures
        match step(flow, answer) {
            StepModel::Continue(next) => {
                ||| stages_left(next.pending) < stages_left(flow.pending)
                ||| stages_left(next.pending) == stages_left(flow.pending) && candidates_left(
                    next.pending,
                ) < candidates_left(flow.pending)
            },
            StepModel::Finished(_) => true,
        },
{
}

/// What a flow has come to after some answers.
pub open spec fn after(start: StepModel, answers: Seq<AddAnswer>) -> StepModel
    decreases answers.len(),
{
    if answers.len() == 0 {
        start
    } else {
        match after(start, answers.drop_last()) {
            StepModel::Continue(flow) => step(flow, answers.last()),
            finished => finished,
        }
    }
}

/// A marketplace that is newly added has another name than the reserved one,
/// and its name gives the directory.
pub open spec fn may_be_added(context: ContextModel, name: Seq<char>, dir_name: Seq<char>) -> bool {
    name != context.reserved_name && dir_name == safe_dir_name(name) && dir_name.len() > 0
}

/// What holds of a flow at every step.
pub open spec fn sound(flow: FlowModel) -> bool {
    match flow.pending {
        ActionModel::ResolveDestination { name, dir_name } => may_be_added(
            flow.context,
            name,
            dir_name,
        ),
        ActionModel::CheckDestination { name, dir_name, .. } => may_be_added(
            flow.context,
            name,
            dir_name,
        ),
        ActionModel::Install { name, dir_name, .. } => may_be_added(flow.context, name, dir_name),
        ActionModel::ReadClock { target } => sound_target(flow.context, target),
        ActionModel::RecordEntry { target, update } => {
            &&& sound_target(flow.context, target)
            &&& records(
                metadata_of(flow.context.source, flow.context.sparse_paths),
                entry_written(update),
            )
        },
        ActionModel::ResolveInstalledRoot { target } => sound_target(flow.context, target),
        _ => true,
    }
}

pub open spec fn sound_target(context: ContextModel, target: TargetModel) -> bool {
    match target.place {
        PlaceModel::Existing { .. } => true,
        PlaceModel::Fresh { dir_name, .. } => may_be_added(context, target.name, dir_name),
    }
}

/// Whatever the answers, a flow stays sound and in its context. So what is
/// installed never has the reserved name, its directory is the safe form of its
/// name, and what is recorded is the flow's own source.
pub proof fn law_flows_stay_sound(
    request: MarketplaceAddRequest,
    reserved_name: Seq<char>,
    places: AddPlaces,
    answers: Seq<AddAnswer>,
)
    ensures
        match (
            begun(request, reserved_name, places),
            after(begun(request, reserved_name, places), answers),
        ) {
            (StepModel::Continue(first), StepModel::Continue(flow)) => sound(flow) && flow.context
                == first.context,
            (StepModel::Continue(first), StepModel::Finished(_)) => answers.len() > 0,
            (StepModel::Finished(result), last) => last == StepModel::Finished(result),
        },
    decreases answers.len(),
{
    if answers.len() > 0 {
        law_flows_stay_sound(request, reserved_name, places, answers.drop_last());
    }
}

/// The reserved name is never that of a newly added marketplace.
pub proof fn law_the_reserved_name_is_never_added(
    request: MarketplaceAddRequest,
    reserved_name: Seq<char>,
    places: AddPlaces,
    answers: Seq<AddAnswer>,
)
    ensures
        match after(begun(request, reserved_name, places), answers) {
            StepModel::Finished(Ok(outcome)) => !outcome.already_added ==> outcome.marketplace_name
                != reserved_name,
            _ => true,
        },
    decreases answers.len(),
{
    if answers.len() > 0 {
        law_flows_stay_sound(request, reserved_name, places, answers.drop_last());
        law_the_reserved_name_is_never_added(request, reserved_name, places, answers.drop_last());
    }
}

/// The answer number `at` confirmed that `target` was recorded.
pub open spec fn recorded_at(
    start: StepModel,
    answers: Seq<AddAnswer>,
    target: TargetModel,
    at: int,
) -> bool {
    &&& 0 <= at < answers.len()
    &&& answers[at] matches AddAnswer::Done(Ok(_))
    &&& after(start, answers.take(at)) matches StepModel::Continue(flow)
    &&& flow.pending matches ActionModel::RecordEntry { target: recorded, .. }
    &&& recorded == target
}

/// A marketplace that was added was recorded in the user's configuration, under
/// the name that is told.
pub proof fn law_what_is_added_was_recorded(
    request: MarketplaceAddRequest,
    reserved_name: Seq<char>,
    places: AddPlaces,
    answers: Seq<AddAnswer>,
)
    ensures
        after(begun(request, reserved_name, places), answers) matches StepModel::Finished(
            Ok(outcome),
        ) ==> exists|target: TargetModel, at: int|
            #[trigger] recorded_at(begun(request, reserved_name, places), answers, target, at)
                && target.name == outcome.marketplace_name && (target.place is Existing)
                == outcome.already_added,
    decreases answers.len(),
{
    let start = begun(request, reserved_name, places);
    if answers.len() > 0 {
        let before = answers.drop_last();
        law_what_is_added_was_recorded(request, reserved_name, places, before);
        match after(start, before) {
            StepModel::Continue(flow) => {
                if let ActionModel::ResolveInstalledRoot { target } = flow.pending {
                    lemma_resolving_follows_recording(start, before, target);
                    let at = choose|at: int| recorded_at(start, before, target, at);
                    lemma_recorded_stays(start, answers, target, at);
                }
            },
            StepModel::Finished(Ok(outcome)) => {
                let (target, at) = choose|target: TargetModel, at: int|
                    #[trigger] recorded_at(start, before, target, at) && target.name
                        == outcome.marketplace_name && (target.place is Existing)
                        == outcome.already_added;
                lemma_recorded_stays(start, answers, target, at);
            },
            StepModel::Finished(Err(_)) => {},
        }
    }
}

proof fn lemma_recorded_stays(
    start: StepModel,
    answers: Seq<AddAnswer>,
    target: TargetModel,
    at: int,
)
    requires
        answers.len() > 0,
        recorded_at(start, answers.drop_last(), target, at),
    ensures
        recorded_at(start, answers, target, at),
{
    assert(answers.take(at) =~= answers.drop_last().take(at));
}

/// A flow resolves the root of a target only after that was recorded.
proof fn lemma_resolving_follows_recording(
    start: StepModel,
    answers: Seq<AddAnswer>,
    target: TargetModel,
)
    requires
        start matches StepModel::Continue(flow) ==> flow.pending is CreateInstallRoot,
        after(start, answers) matches StepModel::Continue(flow) && flow.pending == (
        ActionModel::ResolveInstalledRoot { target }),
    ensures
        exists|at: int| recorded_at(start, answers, target, at),
    decreases answers.len(),
{
    let before = answers.drop_last();
    assert(answers.len() > 0);
    let flow = after(start, before)->Continue_0;
    if flow.pending is ResolveInstalledRoot {
        lemma_resolving_follows_recording(start, before, target);
        let at = choose|at: int| recorded_at(start, before, target, at);
        lemma_recorded_stays(start, answers, target, at);
    } else {
        assert(answers.take(answers.len() - 1) =~= before);
        assert(recorded_at(start, answers, target, answers.len() - 1));
    }
}

/// A newly installed marketplace that cannot be recorded is rolled back, and
/// the flow then ends with the error; one that was there before is left alone.
pub proof fn law_what_cannot_be_recorded_is_rolled_back(
    flow: FlowModel,
    target: TargetModel,
    answer: AddAnswer,
)
    requires
        flow.pending is ReadClock && flow.pending->ReadClock_target == target && answer is Clock
            && answer->Clock_0 is Err || flow.pending is RecordEntry
            && flow.pending->RecordEntry_target == target && answer is Done && answer->Done_0 is Err,
    ensures
        match (target.place, step(flow, answer)) {
            (PlaceModel::Existing { .. }, StepModel::Finished(result)) => result is Err,
            (PlaceModel::Fresh { dir_name, shown }, StepModel::Continue(next)) => {
                &&& next.pending matches ActionModel::RollBack {
                    dir_name: dir,
                    shown: at,
                    error,
                }
                &&& dir == dir_name
                &&& at == shown
                &&& step(next, AddAnswer::Done(Ok(()))) == StepModel::Finished(Err(error))
            },
            _ => false,
        },
{
}

/// The names that are tried are those of the entries that record the source.
pub proof fn law_candidates_record_the_source(
    entries: Seq<(Seq<char>, EntryModel)>,
    m: MetadataModel,
    name: Seq<char>,
)
    ensures
        recorded_names(entries, m).contains(name) <==> exists|i: int|
            0 <= i < entries.len() && (#[trigger] entries[i]).0 == name && records(m, entries[i].1),
    decreases entries.len(),
{
    if entries.len() > 0 {
        let before = entries.drop_last();
        law_candidates_record_the_source(before, m, name);
        let names = recorded_names(before, m);
        let last = entries.len() - 1;
        assert(entries.last() == entries[last]);
        assert forall|i: int| 0 <= i < last implies before[i] == entries[i] by {}
        if recorded_names(entries, m).contains(name) {
            if !names.contains(name) {
                assert(entries[last].0 == name && records(m, entries[last].1)) by {
                    let k = choose|k: int|
                        0 <= k < recorded_names(entries, m).len() && recorded_names(entries, m)[k]
                            == name;
                    if k < names.len() {
                        assert(names[k] == name);
                    }
                }
            } else {
                let i = choose|i: int|
                    0 <= i < before.len() && (#[trigger] before[i]).0 == name && records(
                        m,
                        before[i].1,
                    );
                assert(entries[i].0 == name);
            }
        }
        if exists|i: int|
            0 <= i < entries.len() && (#[trigger] entries[i]).0 == name && records(m, entries[i].1) {
            let i = choose|i: int|
                0 <= i < entries.len() && (#[trigger] entries[i]).0 == name && records(
                    m,
                    entries[i].1,
                );
            if i < last {
                assert(before[i].0 == name);
                let k = choose|k: int| 0 <= k < names.len() && names[k] == name;
                assert(recorded_names(entries, m)[k] == name);
            } else {
                assert(recorded_names(entries, m).last() == name);
            }
        }
    }
}

/// Answers one after the other are answers in two parts.
proof fn lemma_after_parts(start: StepModel, a: Seq<AddAnswer>, b: Seq<AddAnswer>)
    ensures
        after(start, a + b) == after(after(start, a), b),
    decreases b.len(),
{
    if b.len() == 0 {
        assert(a + b =~= a);
    } else {
        lemma_after_parts(start, a, b.drop_last());
        assert((a + b).drop_last() =~= a + b.drop_last());
        assert((a + b).last() == b.last());
    }
}

/// The answer tells that the directory that was tried holds no valid marketplace.
pub open spec fn tells_invalid(answer: AddAnswer) -> bool {
    answer matches AddAnswer::Validated { name, .. } && name is Err
}

/// Directories that hold no valid marketplace are passed over.
proof fn lemma_invalid_dirs_are_passed(
    context: ContextModel,
    dirs: Seq<Seq<char>>,
    invalid: Seq<AddAnswer>,
)
    requires
        invalid.len() <= dirs.len(),
        forall|j: int| 0 <= j < invalid.len() ==> tells_invalid(#[trigger] invalid[j]),
    ensures
        after(tries(context, dirs), invalid) == tries(
            context,
            dirs.subrange(invalid.len() as int, dirs.len() as int),
        ),
    decreases invalid.len(),
{
    let n = invalid.len() as int;
    if n == 0 {
        assert(dirs.subrange(0, dirs.len() as int) =~= dirs);
    } else {
        let before = invalid.drop_last();
        assert forall|j: int| 0 <= j < before.len() implies tells_invalid(#[trigger] before[j]) by {
            assert(before[j] == invalid[j]);
        }
        lemma_invalid_dirs_are_passed(context, dirs, before);
        assert(tells_invalid(invalid[n - 1]));
        let left = dirs.subrange(n - 1, dirs.len() as int);
        assert(left.subrange(1, left.len() as int) =~= dirs.subrange(n, dirs.len() as int));
    }
}

/// The answers from a directory that holds the marketplace on, when nothing fails.
pub open spec fn valid_answers(shown: String, name: String, now: u64, root: LocalPath) -> Seq<
    AddAnswer,
> {
    seq![
        AddAnswer::Validated { shown, name: Ok(name) },
        AddAnswer::Validated { shown, name: Ok(name) },
        AddAnswer::Clock(Ok(now)),
        AddAnswer::Done(Ok(())),
        AddAnswer::Root(Ok(root)),
    ]
}

/// A directory that holds the marketplace ends a flow as already added.
proof fn lemma_a_valid_dir_ends_a_flow(
    context: ContextModel,
    dir: Seq<char>,
    dirs: Seq<Seq<char>>,
    shown: String,
    name: String,
    now: u64,
    root: LocalPath,
)
    ensures
        after(
            goes_to(context, ActionModel::ValidateCandidate { dir, rest: dirs }),
            valid_answers(shown, name, now, root),
        ) == StepModel::Finished(
            Ok(
                OutcomeModel {
                    marketplace_name: name@,
                    source_display: context.source.display(),
                    installed_root: root@,
                    already_added: true,
                },
            ),
        ),
{
    let start = goes_to(context, ActionModel::ValidateCandidate { dir, rest: dirs });
    let answers = valid_answers(shown, name, now, root);
    assert(answers.take(5) =~= answers);
    assert forall|k: int| 0 < k <= 5 implies #[trigger] answers.take(k).drop_last()
        =~= answers.take(k - 1) && answers.take(k).last() == answers[k - 1] by {}
    assert(after(start, answers.take(0)) == start);
    assert(after(start, answers.take(1)) is Continue);
    assert(after(start, answers.take(2)) is Continue);
    assert(after(start, answers.take(3)) is Continue);
    assert(after(start, answers.take(4)) is Continue);
}

/// The answers to a flow that finds its source installed: the configuration, the
/// directories that were tried in vain, and then nothing fails.
pub open spec fn found_answers(
    text: String,
    invalid: Seq<AddAnswer>,
    shown: String,
    name: String,
    now: u64,
    root: LocalPath,
) -> Seq<AddAnswer> {
    seq![AddAnswer::Config(ConfigRead::Text { text })] + invalid + valid_answers(
        shown,
        name,
        now,
        root,
    )
}

/// A source that is recorded and still installed is not fetched again. Where the
/// configuration holds the entry that a flow for the same source wrote, its
/// directory is among those that are tried. Where those before it hold no valid
/// marketplace and it does, the flow ends there as already added.
#[verifier::spinoff_prover]
#[verifier::rlimit(40)]
pub proof fn law_a_recorded_source_is_already_added(
    flow: FlowModel,
    text: String,
    entries: Seq<(Seq<char>, EntryModel)>,
    i: int,
    seconds: u64,
    invalid: Seq<AddAnswer>,
    shown: String,
    name: String,
    now: u64,
    root: LocalPath,
)
    requires
        flow.pending is ReadConfig,
        configured_marketplaces(text@) == Ok::<Seq<(Seq<char>, EntryModel)>, Seq<char>>(entries),
        0 <= i < entries.len(),
        entries[i].1 == entry_written(update_at(flow.context, seconds)),
    ensures
        ({
            let names = recorded_names(
                entries,
                metadata_of(flow.context.source, flow.context.sparse_paths),
            );
            let n = invalid.len() as int;
            &&& names.contains(entries[i].0)
            &&& (n < names.len() && names[n] == entries[i].0 && forall|j: int|
                0 <= j < n ==> tells_invalid(#[trigger] invalid[j])) ==> {
                &&& after(
                    StepModel::Continue(flow),
                    seq![AddAnswer::Config(ConfigRead::Text { text })] + invalid,
                ) == goes_to(
                    flow.context,
                    ActionModel::ValidateCandidate {
                        dir: entries[i].0,
                        rest: names.subrange(n + 1, names.len() as int),
                    },
                )
                &&& after(
                    StepModel::Continue(flow),
                    found_answers(text, invalid, shown, name, now, root),
                ) == StepModel::Finished(
                    Ok(
                        OutcomeModel {
                            marketplace_name: name@,
                            source_display: flow.context.source.display(),
                            installed_root: root@,
                            already_added: true,
                        },
                    ),
                )
            }
        }),
{
    let start = StepModel::Continue(flow);
    let m = metadata_of(flow.context.source, flow.context.sparse_paths);
    let names = recorded_names(entries, m);
    let n = invalid.len() as int;
    law_candidates_record_the_source(entries, m, entries[i].0);
    if n < names.len() && names[n] == entries[i].0 && forall|j: int|
        0 <= j < n ==> tells_invalid(#[trigger] invalid[j]) {
        let config = seq![AddAnswer::Config(ConfigRead::Text { text })];
        assert(config.drop_last() =~= Seq::<AddAnswer>::empty());
        assert(after(start, Seq::<AddAnswer>::empty()) == start);
        assert(after(start, config) == tries(flow.context, names));
        lemma_after_parts(start, config, invalid);
        lemma_invalid_dirs_are_passed(flow.context, names, invalid);
        let left = names.subrange(n, names.len() as int);
        assert(left.subrange(1, left.len() as int) =~= names.subrange(n + 1, names.len() as int));
        lemma_after_parts(start, config + invalid, valid_answers(shown, name, now, root));
        lemma_a_valid_dir_ends_a_flow(
            flow.context,
            entries[i].0,
            names.subrange(n + 1, names.len() as int),
            shown,
            name,
            now,
            root,
        );
    }
}

/// The action belongs to fetching the source, or to what was fetched.
pub open spec fn fetches(action: ActionModel) -> bool {
    match action {
        ActionModel::CreateInstallRoot
        | ActionModel::ReadConfig
        | ActionModel::ValidateCandidate { .. }
        | ActionModel::ValidateExisting { .. } => false,
        ActionModel::ReadClock { target }
        | ActionModel::RecordEntry { target, .. }
        | ActionModel::ResolveInstalledRoot { target } => target.place is Fresh,
        _ => true,
    }
}

/// A flow that ends as already added has fetched and installed nothing on its way.
pub proof fn law_what_is_already_added_is_not_fetched(
    start: StepModel,
    answers: Seq<AddAnswer>,
    n: int,
)
    requires
        0 <= n <= answers.len(),
        after(start, answers) matches StepModel::Finished(Ok(outcome)) && outcome.already_added,
    ensures
        after(start, answers.take(n)) matches StepModel::Continue(flow) ==> !fetches(flow.pending),
{
    if let StepModel::Continue(flow) = after(start, answers.take(n)) {
        if fetches(flow.pending) {
            lemma_fetching_stays(start, answers, n);
        }
    }
}

proof fn lemma_fetching_stays(start: StepModel, answers: Seq<AddAnswer>, n: int)
    requires
        0 <= n <= answers.len(),
        after(start, answers.take(n)) is Continue,
        fetches(after(start, answers.take(n))->Continue_0.pending),
    ensures
        match after(start, answers) {
            StepModel::Continue(flow) => fetches(flow.pending),
            StepModel::Finished(Ok(outcome)) => !outcome.already_added,
            StepModel::Finished(Err(_)) => true,
        },
    decreases answers.len(),
{
    if n == answers.len() {
        assert(answers.take(n) =~= answers);
    } else {
        let before = answers.drop_last();
        assert(before.take(n) =~= answers.take(n));
        lemma_fetching_stays(start, before, n);
    }
}

/// The source that an outcome shows is the one that was asked for.
proof fn lemma_outcomes_show_the_source(
    request: MarketplaceAddRequest,
    reserved_name: Seq<char>,
    places: AddPlaces,
    answers: Seq<AddAnswer>,
)
    ensures
        after(begun(request, reserved_name, places), answers) matches StepModel::Finished(
            Ok(outcome),
        ) ==> begun(request, reserved_name, places) matches StepModel::Continue(first)
            && outcome.source_display == first.context.source.display(),
    decreases answers.len(),
{
    if answers.len() > 0 {
        lemma_outcomes_show_the_source(request, reserved_name, places, answers.drop_last());
        law_flows_stay_sound(request, reserved_name, places, answers.drop_last());
    }
}

/// Adding the same source again finds what the first addition installed. The first
/// ended with `outcome`, and had `update` recorded at its answer number `at`. Where
/// the configuration now holds that entry under the marketplace's name, where the
/// directories that are tried before it still hold no valid marketplace, and where
/// the directory of that name holds the marketplace, the second ends with the same
/// outcome, but as already added.
pub proof fn law_adding_again_finds_the_first(
    request: MarketplaceAddRequest,
    reserved_name: Seq<char>,
    places: AddPlaces,
    answers: Seq<AddAnswer>,
    outcome: OutcomeModel,
    at: int,
    target: TargetModel,
    update: UpdateModel,
    text: String,
    entries: Seq<(Seq<char>, EntryModel)>,
    i: int,
    invalid: Seq<AddAnswer>,
    shown: String,
    name: String,
    now: u64,
    root: LocalPath,
)
    requires
        after(begun(request, reserved_name, places), answers) == StepModel::Finished(Ok(outcome)),
        0 <= at < answers.len(),
        after(begun(request, reserved_name, places), answers.take(at)) matches StepModel::Continue(
            flow,
        ) && flow.pending == (ActionModel::RecordEntry { target, update }),
        configured_marketplaces(text@) == Ok::<Seq<(Seq<char>, EntryModel)>, Seq<char>>(entries),
        0 <= i < entries.len(),
        entries[i] == (outcome.marketplace_name, entry_written(update)),
        begun(request, reserved_name, places) matches StepModel::Continue(first) && {
            let names = recorded_names(
                entries,
                metadata_of(first.context.source, first.context.sparse_paths),
            );
            invalid.len() < names.len() && names[invalid.len() as int] == outcome.marketplace_name
        },
        forall|j: int| 0 <= j < invalid.len() ==> tells_invalid(#[trigger] invalid[j]),
        name@ == outcome.marketplace_name,
        root@ == outcome.installed_root,
    ensures
        ({
            let start = begun(request, reserved_name, places);
            let again = seq![AddAnswer::Done(Ok(()))] + found_answers(
                text,
                invalid,
                shown,
                name,
                now,
                root,
            );
            &&& after(start, again) == StepModel::Finished(
                Ok(OutcomeModel { already_added: true, ..outcome }),
            )
            &&& forall|n: int|
                0 <= n <= again.len() ==> match #[trigger] after(start, again.take(n)) {
                    StepModel::Continue(flow) => !fetches(flow.pending),
                    StepModel::Finished(_) => true,
                }
        }),
{
    let start = begun(request, reserved_name, places);
    let first = start->Continue_0;
    let flow = FlowModel { context: first.context, pending: ActionModel::ReadConfig };
    let m = metadata_of(first.context.source, first.context.sparse_paths);
    lemma_outcomes_show_the_source(request, reserved_name, places, answers);
    law_flows_stay_sound(request, reserved_name, places, answers.take(at));
    // The entry holds what any flow for this source writes, at whatever time.
    assert(entries[i].1 == entry_written(update_at(first.context, 0)));
    law_a_recorded_source_is_already_added(
        flow,
        text,
        entries,
        i,
        0,
        invalid,
        shown,
        name,
        now,
        root,
    );
    let created = seq![AddAnswer::Done(Ok(()))];
    let found = found_answers(text, invalid, shown, name, now, root);
    assert(created.drop_last() =~= Seq::<AddAnswer>::empty());
    assert(after(start, Seq::<AddAnswer>::empty()) == start);
    assert(after(start, created) == StepModel::Continue(flow));
    lemma_after_parts(start, created, found);
    let again = created + found;
    assert forall|n: int| 0 <= n <= again.len() implies match #[trigger] after(
        start,
        again.take(n),
    ) {
        StepModel::Continue(flow) => !fetches(flow.pending),
        StepModel::Finished(_) => true,
    } by {
        law_what_is_already_added_is_not_fetched(start, again, n);
    }
}

/// The action uses the destination.
pub open spec fn uses_destination(action: ActionModel) -> bool {
    match action {
        ActionModel::CheckDestination { .. }
        | ActionModel::Install { .. }
        | ActionModel::RollBack { .. } => true,
        ActionModel::ReadClock { target }
        | ActionModel::RecordEntry { target, .. }
        | ActionModel::ResolveInstalledRoot { target } => target.place is Fresh,
        _ => false,
    }
}

/// The answer tells of a destination that lies in the install root.
pub open spec fn tells_inside(answer: AddAnswer) -> bool {
    &&& answer matches AddAnswer::Destination(report)
    &&& report.install_root matches Ok(root)
    &&& report.parent matches Some(Ok(parent))
    &&& lies_in(parent@, root.path@)
}

/// No destination is looked at, installed to or recorded before it was found to
/// lie in the install root.
pub proof fn law_destinations_lie_in_the_install_root(
    request: MarketplaceAddRequest,
    reserved_name: Seq<char>,
    places: AddPlaces,
    answers: Seq<AddAnswer>,
)
    ensures
        match after(begun(request, reserved_name, places), answers) {
            StepModel::Continue(flow) => uses_destination(flow.pending) ==> exists|at: int|
                0 <= at < answers.len() && #[trigger] tells_inside(answers[at]),
            StepModel::Finished(_) => true,
        },
    decreases answers.len(),
{
    let start = begun(request, reserved_name, places);
    if answers.len() > 0 {
        let before = answers.drop_last();
        law_destinations_lie_in_the_install_root(request, reserved_name, places, before);
        if let StepModel::Continue(flow) = after(start, before) {
            if uses_destination(flow.pending) {
                let at = choose|at: int|
                    0 <= at < before.len() && #[trigger] tells_inside(before[at]);
                assert(tells_inside(answers[at]));
            } else {
                let last = answers.len() - 1;
                assert(answers[last] == answers.last());
                if let StepModel::Continue(next) = after(start, answers) {
                    assert(uses_destination(next.pending) ==> tells_inside(answers[last]));
                }
            }
        }
    }
}

/// A source that is not recorded yet is added when nothing fails on the way: it
/// is staged, its name is valid and free, its destination lies in the install
/// root and is not taken, and it is recorded.
#[verifier::spinoff_prover]
#[verifier::rlimit(40)]
pub proof fn law_a_new_source_is_added(
    request: MarketplaceAddRequest,
    reserved_name: Seq<char>,
    places: AddPlaces,
    source: SourceModel,
    name: String,
    report: DestinationReport,
    seconds: u64,
    root: LocalPath,
)
    requires
        parsed_source(request.source@, request.ref_name.deep_view()) == Ok::<
            SourceModel,
            ErrorModel,
        >(source),
        name@ != reserved_name,
        safe_dir_name(name@).len() > 0,
        tells_inside(AddAnswer::Destination(report)),
    ensures
        after(
            begun(request, reserved_name, places),
            untroubled_answers(name, report, seconds, root),
        ) == StepModel::Finished(
            Ok(
                OutcomeModel {
                    marketplace_name: name@,
                    source_display: source.display(),
                    installed_root: root@,
                    already_added: false,
                },
            ),
        ),
{
    let answers = untroubled_answers(name, report, seconds, root);
    let start = begun(request, reserved_name, places);
    assert(answers.take(12) =~= answers);
    assert forall|n: int| 0 < n <= 12 implies #[trigger] answers.take(n).drop_last()
        =~= answers.take(n - 1) && answers.take(n).last() == answers[n - 1] by {}
    assert(after(start, answers.take(0)) == start);
    assert(after(start, answers.take(1)) is Continue);
    assert(after(start, answers.take(2)) is Continue);
    assert(after(start, answers.take(3)) is Continue);
    assert(after(start, answers.take(4)) is Continue);
    assert(after(start, answers.take(5)) is Continue);
    assert(after(start, answers.take(6)) is Continue);
    assert(after(start, answers.take(7)) is Continue);
    assert(after(start, answers.take(8)) is Continue);
    assert(after(start, answers.take(9)) is Continue);
    assert(after(start, answers.take(10)) is Continue);
    assert(after(start, answers.take(11)) is Continue);
}

/// The answers of an addition in which nothing fails.
pub open spec fn untroubled_answers(
    name: String,
    report: DestinationReport,
    seconds: u64,
    root: LocalPath,
) -> Seq<AddAnswer> {
    seq![
        AddAnswer::Done(Ok(())),
        AddAnswer::Config(ConfigRead::Missing),
        AddAnswer::Done(Ok(())),
        AddAnswer::Done(Ok(())),
        AddAnswer::Cloned(Ok(())),
        AddAnswer::Staged { name: Ok(name), segment: Ok(()) },
        AddAnswer::Destination(report),
        AddAnswer::DestinationExists(false),
        AddAnswer::Done(Ok(())),
        AddAnswer::Clock(Ok(seconds)),
        AddAnswer::Done(Ok(())),
        AddAnswer::Root(Ok(root)),
    ]
}

/// The answer number `at` confirmed that the marketplace was installed.
pub open spec fn installed_at(start: StepModel, answers: Seq<AddAnswer>, at: int) -> bool {
    &&& 0 <= at < answers.len()
    &&& answers[at] matches AddAnswer::Done(Ok(_))
    &&& after(start, answers.take(at)) matches StepModel::Continue(flow)
    &&& flow.pending is Install
}

/// The answer number `at` is of moving the marketplace back, or of resolving the
/// root of one that is recorded.
pub open spec fn moved_back_or_recorded_at(start: StepModel, answers: Seq<AddAnswer>, at: int) -> bool {
    &&& 0 <= at < answers.len()
    &&& after(start, answers.take(at)) matches StepModel::Continue(flow)
    &&& flow.pending is RollBack || flow.pending is ResolveInstalledRoot
}

/// The action comes after an install.
pub open spec fn follows_install(action: ActionModel) -> bool {
    match action {
        ActionModel::RollBack { .. } => true,
        ActionModel::ReadClock { target }
        | ActionModel::RecordEntry { target, .. }
        | ActionModel::ResolveInstalledRoot { target } => target.place is Fresh,
        _ => false,
    }
}

/// Once a marketplace is installed, a flow fails only after it was told to move
/// the marketplace back, or, with the marketplace installed and recorded, because
/// its root could not be resolved.
pub proof fn law_failing_after_an_install_rolls_it_back(
    request: MarketplaceAddRequest,
    reserved_name: Seq<char>,
    places: AddPlaces,
    answers: Seq<AddAnswer>,
    at: int,
)
    requires
        installed_at(begun(request, reserved_name, places), answers, at),
    ensures
        match after(begun(request, reserved_name, places), answers) {
            StepModel::Continue(flow) => follows_install(flow.pending),
            StepModel::Finished(Ok(_)) => true,
            StepModel::Finished(Err(_)) => exists|back: int|
                #[trigger] moved_back_or_recorded_at(
                    begun(request, reserved_name, places),
                    answers,
                    back,
                ),
        },
    decreases answers.len(),
{
    let start = begun(request, reserved_name, places);
    let before = answers.drop_last();
    let last = answers.len() - 1;
    assert(answers.take(last) =~= before);
    if at < last {
        assert(before.take(at) =~= answers.take(at));
        law_failing_after_an_install_rolls_it_back(
            request,
            reserved_name,
            places,
            before,
            at,
        );
        match after(start, before) {
            StepModel::Continue(flow) => {
                if after(start, answers) matches StepModel::Finished(Err(_)) {
                    assert(moved_back_or_recorded_at(start, answers, last));
                }
            },
            StepModel::Finished(Err(_)) => {
                let back = choose|back: int| moved_back_or_recorded_at(start, before, back);
                assert(before.take(back) =~= answers.take(back));
                assert(moved_back_or_recorded_at(start, answers, back));
            },
            StepModel::Finished(Ok(_)) => {},
        }
    }
}

/// A flow is about what was asked for: the source that the request's text and ref
/// stand for, with the request's sparse paths. A text that stands for none ends it
/// at once, with the reason.
pub proof fn law_a_flow_is_about_what_was_asked_for(
    request: MarketplaceAddRequest,
    reserved_name: Seq<char>,
    places: AddPlaces,
)
    ensures
        match parsed_source(request.source@, request.ref_name.deep_view()) {
            Err(error) => begun(request, reserved_name, places) == StepModel::Finished(Err(error)),
            Ok(source) => begun(request, reserved_name, places) matches StepModel::Continue(flow)
                && flow.pending is CreateInstallRoot && flow.context.source == source
                && flow.context.sparse_paths == request.sparse_paths.deep_view()
                && flow.context.reserved_name == reserved_name && flow.context.install_root
                == places.install_root@ && flow.context.config == places.config@
                && flow.context.staging_root == places.staging_root@,
        },
{
}

/// The answer tells the time `seconds`.
pub open spec fn tells_time(answer: AddAnswer, seconds: u64) -> bool {
    answer == AddAnswer::Clock(Ok(seconds))
}

/// Whatever the answers, an entry that is to be recorded says `git` and exactly what
/// was asked for: the source's URL, its ref and the sparse paths; and the time that
/// the clock told.
#[verifier::spinoff_prover]
#[verifier::rlimit(40)]
pub proof fn law_what_is_recorded_was_asked_for(
    request: MarketplaceAddRequest,
    reserved_name: Seq<char>,
    places: AddPlaces,
    source: SourceModel,
    answers: Seq<AddAnswer>,
)
    requires
        parsed_source(request.source@, request.ref_name.deep_view()) == Ok::<
            SourceModel,
            ErrorModel,
        >(source),
    ensures
        after(begun(request, reserved_name, places), answers) matches StepModel::Continue(flow) ==> (
        flow.pending matches ActionModel::RecordEntry { update, .. } ==> {
            &&& update.source_type == "git"@
            &&& update.source == source.url
            &&& update.ref_name == source.ref_name
            &&& update.sparse_paths == request.sparse_paths.deep_view()
            &&& exists|at: int, seconds: u64|
                0 <= at < answers.len() && #[trigger] tells_time(answers[at], seconds)
                    && update.last_updated == utc_timestamp(signed_seconds(seconds) as int)
        }),
    decreases answers.len(),
{
    let start = begun(request, reserved_name, places);
    law_flows_stay_sound(request, reserved_name, places, answers);
    if answers.len() > 0 {
        let before = answers.drop_last();
        let last = answers.len() - 1;
        law_flows_stay_sound(request, reserved_name, places, before);
        law_what_is_recorded_was_asked_for(request, reserved_name, places, source, before);
        if let StepModel::Continue(flow) = after(start, before) {
            if let ActionModel::RecordEntry { update, .. } = flow.pending {
                let (at, seconds) = choose|at: int, seconds: u64|
                    0 <= at < before.len() && #[trigger] tells_time(before[at], seconds)
                        && update.last_updated == utc_timestamp(signed_seconds(seconds) as int);
                assert(tells_time(answers[at], seconds));
            } else if let AddAnswer::Clock(Ok(seconds)) = answers.last() {
                assert(tells_time(answers[last], seconds));
            }
        }
    }
}

/// The answer tells that there is nothing at the destination.
pub open spec fn tells_free(answer: AddAnswer) -> bool {
    answer == AddAnswer::DestinationExists(false)
}

/// Nothing is installed where something is: what was fetched is moved to its
/// destination only after that was found to be free. Where it is taken, the flow
/// refuses, and says so of the name and the source.
#[verifier::spinoff_prover]
#[verifier::rlimit(40)]
pub proof fn law_nothing_is_installed_over_what_is_there(
    request: MarketplaceAddRequest,
    reserved_name: Seq<char>,
    places: AddPlaces,
    answers: Seq<AddAnswer>,
)
    ensures
        match after(begun(request, reserved_name, places), answers) {
            StepModel::Continue(flow) => {
                &&& flow.pending is Install || follows_install(flow.pending) ==> exists|at: int|
                    0 <= at < answers.len() && #[trigger] tells_free(answers[at])
                &&& flow.pending matches ActionModel::CheckDestination { name, .. } ==> step(
                    flow,
                    AddAnswer::DestinationExists(true),
                ) == StepModel::Finished(
                    Err(
                        ErrorModel::InvalidRequest(
                            "marketplace '"@ + name
                                + "' is already added from a different source; remove it before adding "@
                                + flow.context.source.display(),
                        ),
                    ),
                )
            },
            StepModel::Finished(_) => true,
        },
    decreases answers.len(),
{
    let start = begun(request, reserved_name, places);
    if answers.len() > 0 {
        let before = answers.drop_last();
        let last = answers.len() - 1;
        law_nothing_is_installed_over_what_is_there(request, reserved_name, places, before);
        if let StepModel::Continue(flow) = after(start, before) {
            if flow.pending is Install || follows_install(flow.pending) {
                let at = choose|at: int| 0 <= at < before.len() && #[trigger] tells_free(before[at]);
                assert(tells_free(answers[at]));
            } else if answers.last() == AddAnswer::DestinationExists(false) {
                assert(tells_free(answers[last]));
            }
        }
    }
}

/// What goes wrong ends a flow, unless something is to be rolled back first, and is
/// told with its cause: the text of the error ends in what the answer said.
#[verifier::spinoff_prover]
#[verifier::rlimit(40)]
pub proof fn law_failures_tell_their_cause(flow: FlowModel, cause: String, shown: String)
    ensures
        flow.pending is CreateInstallRoot || flow.pending is CreateStagingRoot
            || flow.pending is CreateStagedDir || flow.pending is Install ==> (step(
            flow,
            AddAnswer::Done(Err(cause)),
        ) matches StepModel::Finished(Err(ErrorModel::Internal(text))) && ends_with(text, cause@)),
        flow.pending is ReadConfig ==> (step(
            flow,
            AddAnswer::Config(ConfigRead::Failed { error: cause }),
        ) matches StepModel::Finished(Err(ErrorModel::Internal(text))) && ends_with(text, cause@)),
        flow.pending is ValidateExisting ==> (step(
            flow,
            AddAnswer::Validated { shown, name: Err(cause) },
        ) matches StepModel::Finished(Err(ErrorModel::Internal(text))) && ends_with(text, cause@)),
        flow.pending is ResolveInstalledRoot ==> (step(
            flow,
            AddAnswer::Root(Err(cause)),
        ) matches StepModel::Finished(Err(ErrorModel::Internal(text))) && ends_with(text, cause@)),
        flow.pending is ValidateStaged ==> step(
            flow,
            AddAnswer::Staged { name: Err(cause), segment: Ok(()) },
        ) == StepModel::Finished(Err(ErrorModel::InvalidRequest(cause@))) && step(
            flow,
            AddAnswer::Staged { name: Ok(shown), segment: Err(cause) },
        ) == StepModel::Finished(Err(ErrorModel::InvalidRequest(cause@))),
        flow.pending matches ActionModel::RollBack { error, shown: place, .. } ==> (step(
            flow,
            AddAnswer::Done(Err(cause)),
        ) matches StepModel::Finished(Err(ErrorModel::Internal(text))) && starts_with(
            text,
            error.text(),
        ) && ends_with(text, place + ": "@ + cause@)),
{
    match flow.pending {
        ActionModel::CreateInstallRoot => {
            law_suffixes_come_last(
                "failed to create marketplace install directory "@ + flow.context.install_root
                    + ": "@,
                cause@,
            );
        },
        ActionModel::CreateStagingRoot => {
            law_suffixes_come_last(
                "failed to create marketplace staging directory "@ + flow.context.staging_root
                    + ": "@,
                cause@,
            );
        },
        ActionModel::CreateStagedDir => {
            law_suffixes_come_last(
                "failed to create temporary marketplace directory in "@ + flow.context.staging_root
                    + ": "@,
                cause@,
            );
        },
        ActionModel::Install { shown: place, .. } => {
            law_suffixes_come_last("failed to install marketplace at "@ + place + ": "@, cause@);
        },
        ActionModel::ReadConfig => {
            law_suffixes_come_last(
                "failed to read user config "@ + flow.context.config + ": "@,
                cause@,
            );
        },
        ActionModel::ValidateExisting { .. } => {
            law_suffixes_come_last(
                "failed to validate installed marketplace at "@ + shown@ + ": "@,
                cause@,
            );
        },
        ActionModel::ResolveInstalledRoot { .. } => {
            law_suffixes_come_last("failed to resolve installed marketplace root: "@, cause@);
        },
        ActionModel::RollBack { error, shown: place, .. } => {
            let middle = "; additionally failed to roll back installed marketplace at "@;
            let text = error.text() + middle + place + ": "@ + cause@;
            assert(text =~= error.text() + (middle + place + ": "@ + cause@));
            law_prefixes_come_first(error.text(), middle + place + ": "@ + cause@);
            assert(text =~= (error.text() + middle) + (place + ": "@ + cause@));
            law_suffixes_come_last(error.text() + middle, place + ": "@ + cause@);
        },
        _ => {},
    }
}

/// What cannot be recorded is told with its cause, also where it is rolled back
/// first. A clone that fails ends the flow with its own error.
pub proof fn law_what_cannot_be_recorded_is_told(
    flow: FlowModel,
    target: TargetModel,
    cause: String,
    clone_error: MarketplaceAddError,
)
    ensures
        ({
            let told = |result: StepModel, error: ErrorModel|
                match target.place {
                    PlaceModel::Existing { .. } => result == StepModel::Finished(Err(error)),
                    PlaceModel::Fresh { dir_name, shown } => result == StepModel::Continue(
                        FlowModel {
                            context: flow.context,
                            pending: ActionModel::RollBack { dir_name, shown, error },
                        },
                    ),
                };
            &&& flow.pending == (ActionModel::ReadClock { target }) ==> told(
                step(flow, AddAnswer::Clock(Err(cause))),
                ErrorModel::Internal("system clock is before Unix epoch: "@ + cause@),
            )
            &&& flow.pending is RecordEntry && flow.pending->RecordEntry_target == target ==> told(
                step(flow, AddAnswer::Done(Err(cause))),
                ErrorModel::Internal(
                    "failed to add marketplace '"@ + target.name + "' to user config.toml: "@
                        + cause@,
                ),
            )
            &&& flow.pending is CloneSource ==> step(
                flow,
                AddAnswer::Cloned(Err(clone_error)),
            ) == StepModel::Finished(Err(clone_error@))
        }),
{
}

/// A source that no entry records, or of which no recorded directory holds a valid
/// marketplace any more, is fetched, as it is where there is no configuration yet.
/// Entries of other sources have no part in it.
pub proof fn law_a_source_that_is_not_installed_is_fetched(
    flow: FlowModel,
    text: String,
    entries: Seq<(Seq<char>, EntryModel)>,
    invalid: Seq<AddAnswer>,
)
    requires
        flow.pending is ReadConfig,
        configured_marketplaces(text@) == Ok::<Seq<(Seq<char>, EntryModel)>, Seq<char>>(entries),
        invalid.len() == recorded_names(
            entries,
            metadata_of(flow.context.source, flow.context.sparse_paths),
        ).len(),
        forall|j: int| 0 <= j < invalid.len() ==> tells_invalid(#[trigger] invalid[j]),
    ensures
        ({
            let fetching = StepModel::Continue(
                FlowModel { context: flow.context, pending: ActionModel::CreateStagingRoot },
            );
            &&& step(flow, AddAnswer::Config(ConfigRead::Missing)) == fetching
            &&& after(
                StepModel::Continue(flow),
                seq![AddAnswer::Config(ConfigRead::Text { text })] + invalid,
            ) == fetching
        }),
{
    let start = StepModel::Continue(flow);
    let names = recorded_names(
        entries,
        metadata_of(flow.context.source, flow.context.sparse_paths),
    );
    let config = seq![AddAnswer::Config(ConfigRead::Text { text })];
    assert(config.drop_last() =~= Seq::<AddAnswer>::empty());
    assert(after(start, Seq::<AddAnswer>::empty()) == start);
    assert(after(start, config) == tries(flow.context, names));
    lemma_after_parts(start, config, invalid);
    lemma_invalid_dirs_are_passed(flow.context, names, invalid);
}

/// The recorded directories are tried in the order of the configuration's entries,
/// each entry for itself.
pub proof fn law_candidates_keep_the_order_of_the_entries(
    before: Seq<(Seq<char>, EntryModel)>,
    entry: (Seq<char>, EntryModel),
    after: Seq<(Seq<char>, EntryModel)>,
    m: MetadataModel,
)
    ensures
        recorded_names(Seq::empty(), m) == Seq::<Seq<char>>::empty(),
        recorded_names(before + after, m) == recorded_names(before, m) + recorded_names(after, m),
        recorded_names(seq![entry], m) == if records(m, entry.1) {
            seq![entry.0]
        } else {
            Seq::<Seq<char>>::empty()
        },
    decreases after.len(),
{
    assert(seq![entry].drop_last() =~= Seq::<(Seq<char>, EntryModel)>::empty());
    assert(recorded_names(Seq::<(Seq<char>, EntryModel)>::empty(), m) =~= Seq::<Seq<char>>::empty());
    assert(Seq::<Seq<char>>::empty().push(entry.0) =~= seq![entry.0]);
    if after.len() == 0 {
        assert(before + after =~= before);
        assert(recorded_names(before, m) + Seq::<Seq<char>>::empty() =~= recorded_names(before, m));
    } else {
        law_candidates_keep_the_order_of_the_entries(before, entry, after.drop_last(), m);
        assert((before + after).drop_last() =~= before + after.drop_last());
        assert((before + after).last() == after.last());
        assert((recorded_names(before, m) + recorded_names(after.drop_last(), m)).push(
            after.last().0,
        ) =~= recorded_names(before, m) + recorded_names(after.drop_last(), m).push(
            after.last().0,
        ));
    }
}

/// The name that a staged marketplace gives itself decides what becomes of it. The
/// reserved one is refused; so is one that gives no directory; any other goes on
/// under that name, in the directory of its safe form.
pub proof fn law_the_name_decides_what_becomes_of_a_marketplace(flow: FlowModel, name: String)
    requires
        flow.pending is ValidateStaged,
    ensures
        ({
            let next = step(flow, AddAnswer::Staged { name: Ok(name), segment: Ok(()) });
            &&& name@ == flow.context.reserved_name ==> (next matches StepModel::Finished(
                Err(ErrorModel::InvalidRequest(text)),
            ) && text == "marketplace '"@ + name@ + "' is reserved and cannot be added from "@
                + flow.context.source.display())
            &&& name@ != flow.context.reserved_name && safe_dir_name(name@).len() == 0 ==> (
            next matches StepModel::Finished(Err(ErrorModel::InvalidRequest(text))) && text
                == "marketplace name '"@ + name@ + "' cannot be used as an install directory"@)
            &&& name@ != flow.context.reserved_name && safe_dir_name(name@).len() > 0 ==> next
                == StepModel::Continue(
                FlowModel {
                    context: flow.context,
                    pending: ActionModel::ResolveDestination {
                        name: name@,
                        dir_name: safe_dir_name(name@),
                    },
                },
            )
        }),
{
}

/// An answer that is of another action than the one that is to be done changes
/// nothing: the flow still waits for the answer of its own.
pub proof fn law_answers_of_other_actions_change_nothing(flow: FlowModel, answer: AddAnswer)
    requires
        !fits(flow.pending, answer),
    ensures
        step(flow, answer) == StepModel::Continue(flow),
{
}

/// A configuration that is no TOML ends a flow with the reason. Nothing is fetched,
/// and the configuration is not written.
pub proof fn law_a_broken_configuration_ends_a_flow(
    flow: FlowModel,
    text: String,
    error: Seq<char>,
)
    requires
        flow.pending is ReadConfig,
        toml_document(text@) == Err::<toml::Value, Seq<char>>(error),
    ensures
        step(flow, AddAnswer::Config(ConfigRead::Text { text })) == StepModel::Finished(
            Err(
                ErrorModel::Internal(
                    "failed to parse user config "@ + flow.context.config + ": "@ + error,
                ),
            ),
        ),
{
}

/// A destination is used only where it lies in the install root: a flow goes on to it
/// there, and ends otherwise, with what failed.
pub proof fn law_a_destination_outside_ends_a_flow(
    flow: FlowModel,
    name: Seq<char>,
    dir_name: Seq<char>,
    report: DestinationReport,
)
    requires
        flow.pending == (ActionModel::ResolveDestination { name, dir_name }),
    ensures
        match (report.install_root, report.parent) {
            (Err(error), _) => step(flow, AddAnswer::Destination(report)) == StepModel::Finished(
                Err(
                    ErrorModel::Internal(
                        "failed to resolve marketplace install root "@ + flow.context.install_root
                            + ": "@ + error@,
                    ),
                ),
            ),
            (Ok(_), None) => step(flow, AddAnswer::Destination(report)) == StepModel::Finished(
                Err(ErrorModel::Internal("marketplace destination has no parent"@)),
            ),
            (Ok(_), Some(Err(error))) => step(flow, AddAnswer::Destination(report))
                == StepModel::Finished(
                Err(
                    ErrorModel::Internal(
                        "failed to resolve marketplace destination parent "@ + report.shown@ + ": "@
                            + error@,
                    ),
                ),
            ),
            (Ok(root), Some(Ok(parent))) => {
                let below = exists|rest: Seq<ComponentModel>|
                    parent@ == #[trigger] (root.path@ + rest);
                &&& below ==> step(flow, AddAnswer::Destination(report)) == StepModel::Continue(
                    FlowModel {
                        context: flow.context,
                        pending: ActionModel::CheckDestination {
                            name,
                            dir_name,
                            shown: report.shown@,
                        },
                    },
                )
                &&& !below ==> step(flow, AddAnswer::Destination(report)) == StepModel::Finished(
                    Err(
                        ErrorModel::InvalidRequest(
                            "marketplace destination "@ + report.shown@
                                + " is outside install root "@ + root.shown@,
                        ),
                    ),
                )
            },
        },
{
    law_a_destination_is_inside_below_the_root(report);
}

} // verus!
