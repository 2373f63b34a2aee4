//! The steps of the command that adds a marketplace.
//!
//! [`CmdFlow`] decides; its caller acts. A flow holds the action that is to be
//! done next. The caller does it and hands the answer back, until the flow ends
//! with the lines that are printed, or with an error.

use crate::calendar::{format_utc_timestamp, signed_seconds, utc_timestamp};
use crate::marketplace_cmd::{
    caused_error, cmd_metadata_of, plain_error, CmdErrorModel, CmdSourceModel,
    MarketplaceCmdError, MarketplaceInstallMetadata, MarketplaceSource,
};
use crate::marketplace_config::{MarketplaceConfigUpdate, UpdateModel};
use crate::marketplace_destination::{
    check_destination, destination_check, law_a_destination_is_inside_below_the_root, CheckModel,
    DestinationCheck, DestinationReport,
};
use crate::marketplace_source::{safe_dir_name, safe_marketplace_dir_name};
use crate::path::{lies_in, ComponentModel};
use crate::text::{
    ends_with, law_prefixes_come_first, law_suffixes_come_last, same_text, starts_with,
};
use vstd::prelude::*;

verus! {

/// How the places that a flow works with are shown.
#[derive(Clone, Debug, PartialEq, Eq)]
pub struct CmdPlaces {
    pub install_root: String,
    pub staging_root: String,
}

/// What stays the same while a flow runs.
#[derive(Debug, PartialEq, Eq)]
pub struct CmdContext {
    pub source: MarketplaceSource,
    pub sparse_paths: Vec<String>,
    /// The name that no added marketplace may have.
    pub reserved_name: String,
    pub places: CmdPlaces,
}

pub struct CmdContextModel {
    pub source: CmdSourceModel,
    pub sparse_paths: Seq<Seq<char>>,
    pub reserved_name: Seq<char>,
    pub install_root: Seq<char>,
    pub staging_root: Seq<char>,
}

impl View for CmdContext {
    type V = CmdContextModel;

    open spec fn view(&self) -> CmdContextModel {
        CmdContextModel {
            source: self.source@,
            sparse_paths: self.sparse_paths.deep_view(),
            reserved_name: self.reserved_name@,
            install_root: self.places.install_root@,
            staging_root: self.places.staging_root@,
        }
    }
}

/// A marketplace, the directory of the install root that it goes to, and how
/// that is shown.
#[derive(Debug, PartialEq, Eq)]
pub struct CmdTarget {
    pub name: String,
    pub dir_name: String,
    pub shown: String,
}

pub struct CmdTargetModel {
    pub name: Seq<char>,
    pub dir_name: Seq<char>,
    pub shown: Seq<char>,
}

impl View for CmdTarget {
    type V = CmdTargetModel;

    open spec fn view(&self) -> CmdTargetModel {
        CmdTargetModel { name: self.name@, dir_name: self.dir_name@, shown: self.shown@ }
    }
}

/// What is to be done next.
#[derive(Debug, PartialEq, Eq)]
pub enum CmdAction {
    /// Create the install root, where it is missing.
    CreateInstallRoot,
    /// Create the staging root, where it is missing.
    CreateStagingRoot,
    /// Create a fresh directory in the staging root.
    CreateStagedDir,
    /// Stage the source in that directory.
    StageSource,
    /// Validate the staged marketplace and its name.
    ValidateStaged,
    /// Resolve the install root and the destination `dir_name` in it.
    ResolveDestination { name: String, dir_name: String },
    /// Look whether the destination is there.
    CheckDestination { target: CmdTarget },
    /// Validate the marketplace that lies at the destination.
    ValidateInstalled { target: CmdTarget },
    /// Move the staged directory to the destination.
    Install { target: CmdTarget },
    /// Read the seconds since the Unix epoch.
    ReadClock { target: CmdTarget },
    /// Record the target in the user's configuration.
    RecordEntry { target: CmdTarget, update: MarketplaceConfigUpdate },
    /// Move the destination back to the staged directory, because of `error`.
    RollBack { target: CmdTarget, error: MarketplaceCmdError },
}

pub enum CmdActionModel {
    CreateInstallRoot,
    CreateStagingRoot,
    CreateStagedDir,
    StageSource,
    ValidateStaged,
    ResolveDestination { name: Seq<char>, dir_name: Seq<char> },
    CheckDestination { target: CmdTargetModel },
    ValidateInstalled { target: CmdTargetModel },
    Install { target: CmdTargetModel },
    ReadClock { target: CmdTargetModel },
    RecordEntry { target: CmdTargetModel, update: UpdateModel },
    RollBack { target: CmdTargetModel, error: CmdErrorModel },
}

impl View for CmdAction {
    type V = CmdActionModel;

    open spec fn view(&self) -> CmdActionModel {
        match *self {
            CmdAction::CreateInstallRoot => CmdActionModel::CreateInstallRoot,
            CmdAction::CreateStagingRoot => CmdActionModel::CreateStagingRoot,
            CmdAction::CreateStagedDir => CmdActionModel::CreateStagedDir,
            CmdAction::StageSource => CmdActionModel::StageSource,
            CmdAction::ValidateStaged => CmdActionModel::ValidateStaged,
            CmdAction::ResolveDestination { name, dir_name } => {
                CmdActionModel::ResolveDestination { name: name@, dir_name: dir_name@ }
            },
            CmdAction::CheckDestination { target } => CmdActionModel::CheckDestination {
                target: target@,
            },
            CmdAction::ValidateInstalled { target } => CmdActionModel::ValidateInstalled {
                target: target@,
            },
            CmdAction::Install { target } => CmdActionModel::Install { target: target@ },
            CmdAction::ReadClock { target } => CmdActionModel::ReadClock { target: target@ },
            CmdAction::RecordEntry { target, update } => CmdActionModel::RecordEntry {
                target: target@,
                update: update@,
            },
            CmdAction::RollBack { target, error } => CmdActionModel::RollBack {
                target: target@,
                error: error@,
            },
        }
    }
}

/// What came of an action.
#[derive(Debug, PartialEq, Eq)]
pub enum CmdAnswer {
    /// Of the actions that create, validate what is installed, install, record
    /// and roll back.
    Done(Result<(), String>),
    /// Of `StageSource`.
    Staged(Result<(), MarketplaceCmdError>),
    /// Of `ValidateStaged`: the marketplace's name, and what the check of the
    /// name says where there is one.
    Validated { name: Result<String, String>, segment: Result<(), String> },
    /// Of `ResolveDestination`.
    Destination(DestinationReport),
    /// Of `CheckDestination`.
    DestinationExists(bool),
    /// Of `ReadClock`.
    Clock(Result<u64, String>),
}

/// A marketplace that the command is adding.
#[derive(Debug, PartialEq, Eq)]
pub struct CmdFlow {
    pub context: CmdContext,
    pub pending: CmdAction,
}

pub struct CmdFlowModel {
    pub context: CmdContextModel,
    pub pending: CmdActionModel,
}

impl View for CmdFlow {
    type V = CmdFlowModel;

    open spec fn view(&self) -> CmdFlowModel {
        CmdFlowModel { context: self.context@, pending: self.pending@ }
    }
}

/// A flow goes on, or it has ended with the lines that are printed.
#[derive(Debug, PartialEq, Eq)]
pub enum CmdStep {
    Continue(CmdFlow),
    Finished(Result<Vec<String>, MarketplaceCmdError>),
}

pub enum CmdStepModel {
    Continue(CmdFlowModel),
    Finished(Result<Seq<Seq<char>>, CmdErrorModel>),
}

impl View for CmdStep {
    type V = CmdStepModel;

    open spec fn view(&self) -> CmdStepModel {
        match *self {
            CmdStep::Continue(flow) => CmdStepModel::Continue(flow@),
            CmdStep::Finished(Ok(lines)) => CmdStepModel::Finished(Ok(lines.deep_view())),
            CmdStep::Finished(Err(error)) => CmdStepModel::Finished(Err(error@)),
        }
    }
}

pub open spec fn goes_to(context: CmdContextModel, pending: CmdActionModel) -> CmdStepModel {
    CmdStepModel::Continue(CmdFlowModel { context, pending })
}

pub open spec fn fails(message: Seq<char>, cause: Seq<char>) -> CmdStepModel {
    CmdStepModel::Finished(Err(caused_error(message, cause)))
}

pub open spec fn refuses(message: Seq<char>) -> CmdStepModel {
    CmdStepModel::Finished(Err(plain_error(message)))
}

/// A staged marketplace goes on where its name is valid, is not the reserved
/// one and gives the name of a directory.
pub open spec fn after_staged(
    context: CmdContextModel,
    name: Result<String, String>,
    segment: Result<(), String>,
) -> CmdStepModel {
    let failed = "failed to validate marketplace from "@ + context.source.display();
    match (name, segment) {
        (Err(error), _) => fails(failed, error@),
        (Ok(_), Err(error)) => fails(failed, error@),
        (Ok(name), Ok(_)) => if name@ == context.reserved_name {
            refuses(
                "marketplace `"@ + context.reserved_name
                    + "` is reserved and cannot be added from "@ + context.source.display(),
            )
        } else if safe_dir_name(name@).len() == 0 {
            refuses(
                "marketplace name `"@ + name@ + "` cannot be used as an install directory"@,
            )
        } else {
            goes_to(
                context,
                CmdActionModel::ResolveDestination { name: name@, dir_name: safe_dir_name(name@) },
            )
        },
    }
}

pub open spec fn after_destination(
    context: CmdContextModel,
    name: Seq<char>,
    dir_name: Seq<char>,
    report: DestinationReport,
) -> CmdStepModel {
    match destination_check(report) {
        CheckModel::InstallRootUnresolved { error } => fails(
            "failed to resolve marketplace install root "@ + context.install_root,
            error,
        ),
        CheckModel::NoParent => refuses("marketplace destination has no parent"@),
        CheckModel::ParentUnresolved { error } => fails(
            "failed to resolve marketplace destination parent "@ + report.shown@,
            error,
        ),
        CheckModel::Outside { install_root } => refuses(
            "marketplace destination "@ + report.shown@ + " is outside install root "@
                + install_root,
        ),
        CheckModel::Inside => goes_to(
            context,
            CmdActionModel::CheckDestination {
                target: CmdTargetModel { name, dir_name, shown: report.shown@ },
            },
        ),
    }
}

/// The entry that records the flow's source at a time.
pub open spec fn update_at(context: CmdContextModel, seconds: u64) -> UpdateModel {
    let metadata = cmd_metadata_of(context.source, context.sparse_paths);
    UpdateModel {
        last_updated: utc_timestamp(signed_seconds(seconds) as int),
        source_type: metadata.source_type,
        source: metadata.source,
        ref_name: metadata.ref_name,
        sparse_paths: metadata.sparse_paths,
    }
}

/// The lines for a marketplace that was there before.
pub open spec fn already_added_lines(target: CmdTargetModel) -> Seq<Seq<char>> {
    seq![
        "Marketplace `"@ + target.name + "` is already added."@,
        "Installed marketplace root: "@ + target.shown,
    ]
}

/// The lines for a marketplace that was added.
pub open spec fn added_lines(source: CmdSourceModel, target: CmdTargetModel) -> Seq<Seq<char>> {
    seq![
        "Added marketplace `"@ + target.name + "` from "@ + source.display() + "."@,
        "Installed marketplace root: "@ + target.shown,
    ]
}

/// What follows on an answer. One that is of another action changes nothing.
pub open spec fn step(flow: CmdFlowModel, answer: CmdAnswer) -> CmdStepModel {
    let context = flow.context;
    match (flow.pending, answer) {
        (CmdActionModel::CreateInstallRoot, CmdAnswer::Done(Ok(_))) => goes_to(
            context,
            CmdActionModel::CreateStagingRoot,
        ),
        (CmdActionModel::CreateInstallRoot, CmdAnswer::Done(Err(error))) => fails(
            "failed to create marketplace install directory "@ + context.install_root,
            error@,
        ),
        (CmdActionModel::CreateStagingRoot, CmdAnswer::Done(Ok(_))) => goes_to(
            context,
            CmdActionModel::CreateStagedDir,
        ),
        (CmdActionModel::CreateStagingRoot, CmdAnswer::Done(Err(error))) => fails(
            "failed to create marketplace staging directory "@ + context.staging_root,
            error@,
        ),
        (CmdActionModel::CreateStagedDir, CmdAnswer::Done(Ok(_))) => goes_to(
            context,
            CmdActionModel::StageSource,
        ),
        (CmdActionModel::CreateStagedDir, CmdAnswer::Done(Err(error))) => fails(
            "failed to create temporary marketplace directory in "@ + context.staging_root,
            error@,
        ),
        (CmdActionModel::StageSource, CmdAnswer::Staged(Ok(_))) => goes_to(
            context,
            CmdActionModel::ValidateStaged,
        ),
        (CmdActionModel::StageSource, CmdAnswer::Staged(Err(error))) => CmdStepModel::Finished(
            Err(error@),
        ),
        (CmdActionModel::ValidateStaged, CmdAnswer::Validated { name, segment }) => after_staged(
            context,
            name,
            segment,
        ),
        (
            CmdActionModel::ResolveDestination { name, dir_name },
            CmdAnswer::Destination(report),
        ) => after_destination(context, name, dir_name, report),
        (
            CmdActionModel::CheckDestination { target },
            CmdAnswer::DestinationExists(exists),
        ) => if exists {
            goes_to(context, CmdActionModel::ValidateInstalled { target })
        } else {
            goes_to(context, CmdActionModel::Install { target })
        },
        (CmdActionModel::ValidateInstalled { target }, CmdAnswer::Done(Ok(_))) => {
            CmdStepModel::Finished(Ok(already_added_lines(target)))
        },
        (CmdActionModel::ValidateInstalled { target }, CmdAnswer::Done(Err(error))) => fails(
            "failed to validate installed marketplace at "@ + target.shown,
            error@,
        ),
        (CmdActionModel::Install { target }, CmdAnswer::Done(Ok(_))) => goes_to(
            context,
            CmdActionModel::ReadClock { target },
        ),
        (CmdActionModel::Install { target }, CmdAnswer::Done(Err(error))) => fails(
            "failed to install marketplace at "@ + target.shown,
            error@,
        ),
        (CmdActionModel::ReadClock { target }, CmdAnswer::Clock(Ok(seconds))) => goes_to(
            context,
            CmdActionModel::RecordEntry { target, update: update_at(context, seconds) },
        ),
        (CmdActionModel::ReadClock { target }, CmdAnswer::Clock(Err(error))) => goes_to(
            context,
            CmdActionModel::RollBack {
                target,
                error: caused_error("system clock is before Unix epoch"@, error@),
            },
        ),
        (CmdActionModel::RecordEntry { target, update }, CmdAnswer::Done(Ok(_))) => {
            CmdStepModel::Finished(Ok(added_lines(context.source, target)))
        },
        (CmdActionModel::RecordEntry { target, update }, CmdAnswer::Done(Err(error))) => goes_to(
            context,
            CmdActionModel::RollBack {
                target,
                error: caused_error(
                    "failed to add marketplace `"@ + target.name + "` to user config.toml"@,
                    error@,
                ),
            },
        ),
        (CmdActionModel::RollBack { target, error }, CmdAnswer::Done(Ok(_))) => {
            CmdStepModel::Finished(Err(error))
        },
        (CmdActionModel::RollBack { target, error }, CmdAnswer::Done(Err(rollback))) => refuses(
            error.message + "; additionally failed to roll back installed marketplace at "@
                + target.shown + ": "@ + rollback@,
        ),
        _ => CmdStepModel::Continue(flow),
    }
}

/// How the command begins: without a home directory it ends at once.
pub open spec fn begun(
    source: CmdSourceModel,
    sparse_paths: Seq<Seq<char>>,
    reserved_name: Seq<char>,
    home: Result<CmdPlaces, String>,
) -> CmdStepModel {
    match home {
        Err(error) => fails("failed to resolve CODEX_HOME"@, error@),
        Ok(places) => goes_to(
            CmdContextModel {
                source,
                sparse_paths,
                reserved_name,
                install_root: places.install_root@,
                staging_root: places.staging_root@,
            },
            CmdActionModel::CreateInstallRoot,
        ),
    }
}

fn failed(message: String, cause: String) -> (r: CmdStep)
    ensures
        r@ == fails(message@, cause@),
{
    CmdStep::Finished(Err(MarketplaceCmdError::caused(message, cause)))
}

fn refused(message: String) -> (r: CmdStep)
    ensures
        r@ == refuses(message@),
{
    CmdStep::Finished(Err(MarketplaceCmdError::plain(message)))
}

fn two_lines(first: String, second: String) -> (r: CmdStep)
    ensures
        r@ == CmdStepModel::Finished(Ok(seq![first@, second@])),
{
    let lines = vec![first, second];
    assert(lines.deep_view() =~= seq![first@, second@]);
    CmdStep::Finished(Ok(lines))
}

impl CmdContext {
    fn go_to(self, pending: CmdAction) -> (r: CmdStep)
        ensures
            r@ == goes_to(self@, pending@),
    {
        CmdStep::Continue(CmdFlow { context: self, pending })
    }

    fn after_staged(self, name: Result<String, String>, segment: Result<(), String>) -> (r: CmdStep)
        ensures
            r@ == after_staged(self@, name, segment),
    {
        let name = match (name, segment) {
            (Ok(name), Ok(_)) => name,
            (Err(error), _) | (Ok(_), Err(error)) => {
                return failed(
                    "failed to validate marketplace from ".to_owned().concat(
                        self.source.display().as_str(),
                    ),
                    error,
                );
            },
        };
        if same_text(name.as_str(), self.reserved_name.as_str()) {
            return refused(
                "marketplace `".to_owned().concat(self.reserved_name.as_str()).concat(
                    "` is reserved and cannot be added from ",
                ).concat(self.source.display().as_str()),
            );
        }
        match safe_marketplace_dir_name(name.as_str()) {
            None => refused(
                "marketplace name `".to_owned().concat(name.as_str()).concat(
                    "` cannot be used as an install directory",
                ),
            ),
            Some(dir_name) => self.go_to(CmdAction::ResolveDestination { name, dir_name }),
        }
    }

    fn ensure_marketplace_destination_is_inside_install_root(
        self,
        name: String,
        dir_name: String,
        report: DestinationReport,
    ) -> (r: CmdStep)
        ensures
            r@ == after_destination(self@, name@, dir_name@, report),
    {
        match check_destination(&report) {
            DestinationCheck::InstallRootUnresolved { error } => failed(
                "failed to resolve marketplace install root ".to_owned().concat(
                    self.places.install_root.as_str(),
                ),
                error,
            ),
            DestinationCheck::NoParent => refused(
                "marketplace destination has no parent".to_owned(),
            ),
            DestinationCheck::ParentUnresolved { error } => failed(
                "failed to resolve marketplace destination parent ".to_owned().concat(
                    report.shown.as_str(),
                ),
                error,
            ),
            DestinationCheck::Outside { install_root } => refused(
                "marketplace destination ".to_owned().concat(report.shown.as_str()).concat(
                    " is outside install root ",
                ).concat(install_root.as_str()),
            ),
            DestinationCheck::Inside => self.go_to(
                CmdAction::CheckDestination {
                    target: CmdTarget { name, dir_name, shown: report.shown },
                },
            ),
        }
    }

    /// The entry that records the flow's source at a time.
    fn record_added_marketplace(&self, seconds: u64) -> (r: MarketplaceConfigUpdate)
        ensures
            r@ == update_at(self@, seconds),
    {
        let metadata = MarketplaceInstallMetadata::from_source(&self.source, &self.sparse_paths);
        let seconds_since_epoch: i64 = #[verifier::truncate]
        (seconds as i64);
        MarketplaceConfigUpdate {
            last_updated: format_utc_timestamp(seconds_since_epoch),
            source_type: metadata.config_source_type().to_owned(),
            source: metadata.config_source(),
            ref_name: match metadata.ref_name() {
                Some(name) => Some(name.to_owned()),
                None => None,
            },
            sparse_paths: metadata.sparse_paths(),
        }
    }
}

impl CmdFlow {
    /// Begins to add the source.
    pub fn begin(
        source: MarketplaceSource,
        sparse_paths: Vec<String>,
        reserved_name: String,
        home: Result<CmdPlaces, String>,
    ) -> (r: CmdStep)
        ensures
            r@ == begun(source@, sparse_paths.deep_view(), reserved_name@, home),
    {
        match home {
            Err(error) => failed("failed to resolve CODEX_HOME".to_owned(), error),
            Ok(places) => {
                let context = CmdContext { source, sparse_paths, reserved_name, places };
                context.go_to(CmdAction::CreateInstallRoot)
            },
        }
    }

    /// Takes the answer to the pending action. One that is of another action
    /// changes nothing.
    pub fn advance(self, answer: CmdAnswer) -> (r: CmdStep)
        ensures
            r@ == step(self@, answer),
    {
        let CmdFlow { context, pending } = self;
        match (pending, answer) {
            (CmdAction::CreateInstallRoot, CmdAnswer::Done(Ok(_))) => context.go_to(
                CmdAction::CreateStagingRoot,
            ),
            (CmdAction::CreateInstallRoot, CmdAnswer::Done(Err(error))) => failed(
                "failed to create marketplace install directory ".to_owned().concat(
                    context.places.install_root.as_str(),
                ),
                error,
            ),
            (CmdAction::CreateStagingRoot, CmdAnswer::Done(Ok(_))) => context.go_to(
                CmdAction::CreateStagedDir,
            ),
            (CmdAction::CreateStagingRoot, CmdAnswer::Done(Err(error))) => failed(
                "failed to create marketplace staging directory ".to_owned().concat(
                    context.places.staging_root.as_str(),
                ),
                error,
            ),
            (CmdAction::CreateStagedDir, CmdAnswer::Done(Ok(_))) => context.go_to(
                CmdAction::StageSource,
            ),
            (CmdAction::CreateStagedDir, CmdAnswer::Done(Err(error))) => failed(
                "failed to create temporary marketplace directory in ".to_owned().concat(
                    context.places.staging_root.as_str(),
                ),
                error,
            ),
            (CmdAction::StageSource, CmdAnswer::Staged(Ok(_))) => context.go_to(
                CmdAction::ValidateStaged,
            ),
            (CmdAction::StageSource, CmdAnswer::Staged(Err(error))) => CmdStep::Finished(
                Err(error),
            ),
            (CmdAction::ValidateStaged, CmdAnswer::Validated { name, segment }) => {
                context.after_staged(name, segment)
            },
            (
                CmdAction::ResolveDestination { name, dir_name },
                CmdAnswer::Destination(report),
            ) => context.ensure_marketplace_destination_is_inside_install_root(
                name,
                dir_name,
                report,
            ),
            (
                CmdAction::CheckDestination { target },
                CmdAnswer::DestinationExists(exists),
            ) => if exists {
                context.go_to(CmdAction::ValidateInstalled { target })
            } else {
                context.go_to(CmdAction::Install { target })
            },
            (CmdAction::ValidateInstalled { target }, CmdAnswer::Done(Ok(_))) => two_lines(
                "Marketplace `".to_owned().concat(target.name.as_str()).concat(
                    "` is already added.",
                ),
                "Installed marketplace root: ".to_owned().concat(target.shown.as_str()),
            ),
            (CmdAction::ValidateInstalled { target }, CmdAnswer::Done(Err(error))) => failed(
                "failed to validate installed marketplace at ".to_owned().concat(
                    target.shown.as_str(),
                ),
                error,
            ),
            (CmdAction::Install { target }, CmdAnswer::Done(Ok(_))) => context.go_to(
                CmdAction::ReadClock { target },
            ),
            (CmdAction::Install { target }, CmdAnswer::Done(Err(error))) => failed(
                "failed to install marketplace at ".to_owned().concat(target.shown.as_str()),
                error,
            ),
            (CmdAction::ReadClock { target }, CmdAnswer::Clock(Ok(seconds))) => {
                let update = context.record_added_marketplace(seconds);
                context.go_to(CmdAction::RecordEntry { target, update })
            },
            (CmdAction::ReadClock { target }, CmdAnswer::Clock(Err(error))) => context.go_to(
                CmdAction::RollBack {
                    target,
                    error: MarketplaceCmdError::caused(
                        "system clock is before Unix epoch".to_owned(),
                        error,
                    ),
                },
            ),
            (CmdAction::RecordEntry { target, update }, CmdAnswer::Done(Ok(_))) => two_lines(
                "Added marketplace `".to_owned().concat(target.name.as_str()).concat(
                    "` from ",
                ).concat(context.source.display().as_str()).concat("."),
                "Installed marketplace root: ".to_owned().concat(target.shown.as_str()),
            ),
            (CmdAction::RecordEntry { target, update }, CmdAnswer::Done(Err(error))) => {
                let message = "failed to add marketplace `".to_owned().concat(
                    target.name.as_str(),
                ).concat("` to user config.toml");
                context.go_to(
                    CmdAction::RollBack {
                        target,
                        error: MarketplaceCmdError::caused(message, error),
                    },
                )
            },
            (CmdAction::RollBack { target, error }, CmdAnswer::Done(Ok(_))) => CmdStep::Finished(
                Err(error),
            ),
            (CmdAction::RollBack { target, error }, CmdAnswer::Done(Err(rollback))) => refused(
                error.message.concat(
                    "; additionally failed to roll back installed marketplace at ",
                ).concat(target.shown.as_str()).concat(": ").concat(rollback.as_str()),
            ),
            (pending, _) => context.go_to(pending),
        }
    }
}

/// The answer is of the action.
pub open spec fn fits(action: CmdActionModel, answer: CmdAnswer) -> bool {
    match action {
        CmdActionModel::StageSource => answer is Staged,
        CmdActionModel::ValidateStaged => answer is Validated,
        CmdActionModel::ResolveDestination { .. } => answer is Destination,
        CmdActionModel::CheckDestination { .. } => answer is DestinationExists,
        CmdActionModel::ReadClock { .. } => answer is Clock,
        _ => answer is Done,
    }
}

/// How many kinds of action can still come.
pub open spec fn stages_left(action: CmdActionModel) -> nat {
    match action {
        CmdActionModel::CreateInstallRoot => 11,
        CmdActionModel::CreateStagingRoot => 10,
        CmdActionModel::CreateStagedDir => 9,
        CmdActionModel::StageSource => 8,
        CmdActionModel::ValidateStaged => 7,
        CmdActionModel::ResolveDestination { .. } => 6,
        CmdActionModel::CheckDestination { .. } => 5,
        CmdActionModel::ValidateInstalled { .. } => 4,
        CmdActionModel::Install { .. } => 4,
        CmdActionModel::ReadClock { .. } => 3,
        CmdActionModel::RecordEntry { .. } => 2,
        CmdActionModel::RollBack { .. } => 1,
    }
}

/// Every answer brings a flow nearer to its end. So a flow ends.
pub proof fn law_every_answer_moves_on(flow: CmdFlowModel, answer: CmdAnswer)
    requires
        fits(flow.pending, answer),
    ensures
        step(flow, answer) matches CmdStepModel::Continue(next) ==> stages_left(next.pending)
            < stages_left(flow.pending),
{
}

/// What a flow has come to after some answers.
pub open spec fn after(start: CmdStepModel, answers: Seq<CmdAnswer>) -> CmdStepModel
    decreases answers.len(),
{
    if answers.len() == 0 {
        start
    } else {
        match after(start, answers.drop_last()) {
            CmdStepModel::Continue(flow) => step(flow, answers.last()),
            finished => finished,
        }
    }
}

/// The target has another name than the reserved one, and its name gives the
/// directory.
pub open spec fn may_be_added(
    context: CmdContextModel,
    name: Seq<char>,
    dir_name: Seq<char>,
) -> bool {
    name != context.reserved_name && dir_name == safe_dir_name(name) && dir_name.len() > 0
}

/// What holds of a flow at every step.
pub open spec fn sound(flow: CmdFlowModel) -> bool {
    match flow.pending {
        CmdActionModel::ResolveDestination { name, dir_name } => may_be_added(
            flow.context,
            name,
            dir_name,
        ),
        CmdActionModel::CheckDestination { target }
        | CmdActionModel::ValidateInstalled { target }
        | CmdActionModel::Install { target }
        | CmdActionModel::ReadClock { target }
        | CmdActionModel::RollBack { target, .. } => may_be_added(
            flow.context,
            target.name,
            target.dir_name,
        ),
        CmdActionModel::RecordEntry { target, update } => {
            let metadata = cmd_metadata_of(flow.context.source, flow.context.sparse_paths);
            &&& may_be_added(flow.context, target.name, target.dir_name)
            &&& update.source_type == metadata.source_type
            &&& update.source == metadata.source
            &&& update.ref_name == metadata.ref_name
            &&& update.sparse_paths == metadata.sparse_paths
        },
        _ => true,
    }
}

/// Whatever the answers, a flow stays sound and in its context. So what is
/// installed never has the reserved name, its directory is the safe form of its
/// name, and what is recorded is the flow's own source.
pub proof fn law_flows_stay_sound(
    source: CmdSourceModel,
    sparse_paths: Seq<Seq<char>>,
    reserved_name: Seq<char>,
    places: CmdPlaces,
    answers: Seq<CmdAnswer>,
)
    ensures
        after(begun(source, sparse_paths, reserved_name, Ok(places)), answers) matches
            CmdStepModel::Continue(flow) ==> {
            &&& sound(flow)
            &&& flow.context.source == source
            &&& flow.context.sparse_paths == sparse_paths
            &&& flow.context.reserved_name == reserved_name
        },
    decreases answers.len(),
{
    if answers.len() > 0 {
        law_flows_stay_sound(source, sparse_paths, reserved_name, places, answers.drop_last());
    }
}

/// The flow is about to have `target` recorded, and the answer number `at`
/// confirms it.
pub open spec fn recorded_at(
    start: CmdStepModel,
    answers: Seq<CmdAnswer>,
    target: CmdTargetModel,
    at: int,
) -> bool {
    &&& 0 <= at < answers.len()
    &&& answers[at] matches CmdAnswer::Done(Ok(_))
    &&& after(start, answers.take(at)) matches CmdStepModel::Continue(flow)
    &&& flow.pending matches CmdActionModel::RecordEntry { target: recorded, .. }
    &&& recorded == target
}

/// The flow found `target` installed and valid, as the answer number `at` says.
pub open spec fn found_at(
    start: CmdStepModel,
    answers: Seq<CmdAnswer>,
    target: CmdTargetModel,
    at: int,
) -> bool {
    &&& 0 <= at < answers.len()
    &&& answers[at] matches CmdAnswer::Done(Ok(_))
    &&& after(start, answers.take(at)) matches CmdStepModel::Continue(flow)
    &&& flow.pending == (CmdActionModel::ValidateInstalled { target })
}

/// The lines tell of `target`, which the answer number `at` confirmed.
pub open spec fn tells(
    start: CmdStepModel,
    answers: Seq<CmdAnswer>,
    source: CmdSourceModel,
    lines: Seq<Seq<char>>,
    target: CmdTargetModel,
    at: int,
) -> bool {
    ||| recorded_at(start, answers, target, at) && lines == added_lines(source, target)
    ||| found_at(start, answers, target, at) && lines == already_added_lines(target)
}

/// The command succeeds only with a marketplace that was recorded in the user's
/// configuration, or with one that was found installed, and its lines tell which.
pub proof fn law_success_means_recorded_or_found(
    source: CmdSourceModel,
    sparse_paths: Seq<Seq<char>>,
    reserved_name: Seq<char>,
    places: CmdPlaces,
    answers: Seq<CmdAnswer>,
)
    ensures
        after(begun(source, sparse_paths, reserved_name, Ok(places)), answers) matches
            CmdStepModel::Finished(Ok(lines)) ==> exists|target: CmdTargetModel, at: int|
            #[trigger] tells(
                begun(source, sparse_paths, reserved_name, Ok(places)),
                answers,
                source,
                lines,
                target,
                at,
            ),
    decreases answers.len(),
{
    let start = begun(source, sparse_paths, reserved_name, Ok(places));
    if answers.len() > 0 {
        let before = answers.drop_last();
        let last = answers.len() - 1;
        match (after(start, before), after(start, answers)) {
            (CmdStepModel::Continue(flow), CmdStepModel::Finished(Ok(lines))) => {
                assert(answers.take(last) =~= before);
                law_flows_stay_sound(source, sparse_paths, reserved_name, places, before);
                let target = match flow.pending {
                    CmdActionModel::RecordEntry { target, .. } => target,
                    CmdActionModel::ValidateInstalled { target } => target,
                    _ => arbitrary(),
                };
                assert(tells(start, answers, source, lines, target, last));
            },
            (CmdStepModel::Finished(Ok(lines)), _) => {
                law_success_means_recorded_or_found(
                    source,
                    sparse_paths,
                    reserved_name,
                    places,
                    before,
                );
                let (target, at) = choose|target: CmdTargetModel, at: int|
                    #[trigger] tells(start, before, source, lines, target, at);
                assert(answers.take(at) =~= before.take(at));
                assert(tells(start, answers, source, lines, target, at));
            },
            _ => {},
        }
    }
}

/// A marketplace that cannot be recorded is rolled back, and the command then
/// ends with the error.
pub proof fn law_what_cannot_be_recorded_is_rolled_back(
    flow: CmdFlowModel,
    target: CmdTargetModel,
    answer: CmdAnswer,
)
    requires
        flow.pending is ReadClock && flow.pending->ReadClock_target == target && answer is Clock
            && answer->Clock_0 is Err || flow.pending is RecordEntry
            && flow.pending->RecordEntry_target == target && answer is Done && answer->Done_0 is Err,
    ensures
        step(flow, answer) matches CmdStepModel::Continue(next) && next.pending matches
            CmdActionModel::RollBack { target: back, error } && back == target && step(
            next,
            CmdAnswer::Done(Ok(())),
        ) == CmdStepModel::Finished(Err(error)),
{
}

/// The action uses the destination.
pub open spec fn uses_destination(action: CmdActionModel) -> bool {
    match action {
        CmdActionModel::CheckDestination { .. }
        | CmdActionModel::ValidateInstalled { .. }
        | CmdActionModel::Install { .. }
        | CmdActionModel::ReadClock { .. }
        | CmdActionModel::RecordEntry { .. }
        | CmdActionModel::RollBack { .. } => true,
        _ => false,
    }
}

/// The answer tells of a destination that lies in the install root.
pub open spec fn tells_inside(answer: CmdAnswer) -> bool {
    &&& answer matches CmdAnswer::Destination(report)
    &&& report.install_root matches Ok(root)
    &&& report.parent matches Some(Ok(parent))
    &&& lies_in(parent@, root.path@)
}

/// No destination is looked at, installed to or recorded before it was found to
/// lie in the install root.
pub proof fn law_destinations_lie_in_the_install_root(
    source: CmdSourceModel,
    sparse_paths: Seq<Seq<char>>,
    reserved_name: Seq<char>,
    places: CmdPlaces,
    answers: Seq<CmdAnswer>,
)
    ensures
        match after(begun(source, sparse_paths, reserved_name, Ok(places)), answers) {
            CmdStepModel::Continue(flow) => uses_destination(flow.pending) ==> exists|at: int|
                0 <= at < answers.len() && #[trigger] tells_inside(answers[at]),
            CmdStepModel::Finished(_) => true,
        },
    decreases answers.len(),
{
    let start = begun(source, sparse_paths, reserved_name, Ok(places));
    if answers.len() > 0 {
        let before = answers.drop_last();
        law_destinations_lie_in_the_install_root(
            source,
            sparse_paths,
            reserved_name,
            places,
            before,
        );
        if let CmdStepModel::Continue(flow) = after(start, before) {
            if uses_destination(flow.pending) {
                let at = choose|at: int|
                    0 <= at < before.len() && #[trigger] tells_inside(before[at]);
                assert(tells_inside(answers[at]));
            } else {
                let last = answers.len() - 1;
                assert(answers[last] == answers.last());
                if let CmdStepModel::Continue(next) = after(start, answers) {
                    assert(uses_destination(next.pending) ==> tells_inside(answers[last]));
                }
            }
        }
    }
}

/// A source is added when nothing fails on the way: it is staged, its name is
/// valid and free, its destination lies in the install root and is not taken, and
/// it is recorded.
pub proof fn law_a_new_source_is_added(
    source: CmdSourceModel,
    sparse_paths: Seq<Seq<char>>,
    reserved_name: Seq<char>,
    places: CmdPlaces,
    name: String,
    report: DestinationReport,
    seconds: u64,
)
    requires
        name@ != reserved_name,
        safe_dir_name(name@).len() > 0,
        tells_inside(CmdAnswer::Destination(report)),
    ensures
        after(
            begun(source, sparse_paths, reserved_name, Ok(places)),
            untroubled_answers(name, report, seconds),
        ) == CmdStepModel::Finished(
            Ok(
                added_lines(
                    source,
                    CmdTargetModel {
                        name: name@,
                        dir_name: safe_dir_name(name@),
                        shown: report.shown@,
                    },
                ),
            ),
        ),
{
    let answers = untroubled_answers(name, report, seconds);
    let start = begun(source, sparse_paths, reserved_name, Ok(places));
    assert(answers.take(10) =~= answers);
    assert forall|n: int| 0 < n <= 10 implies #[trigger] answers.take(n).drop_last()
        =~= answers.take(n - 1) && answers.take(n).last() == answers[n - 1] by {}
    assert(after(start, answers.take(0)) == start);
    assert(after(start, answers.take(1)) is Continue);
    assert(after(start, answers.take(2)) is Continue);
    assert(after(start, answers.take(3)) is Continue);
    assert(after(start, answers.take(4)) is Continue);
    assert(after(start, answers.take(5)) is Continue);
    assert(after(start, answers.take(6)) is Continue);
    assert(after(start, answers.take(7)) is Continue);
    assert(after(start, answers.take(8)) is Continue);
    assert(after(start, answers.take(9)) is Continue);
}

/// The answers of an addition in which nothing fails.
pub open spec fn untroubled_answers(name: String, report: DestinationReport, seconds: u64) -> Seq<
    CmdAnswer,
> {
    seq![
        CmdAnswer::Done(Ok(())),
        CmdAnswer::Done(Ok(())),
        CmdAnswer::Done(Ok(())),
        CmdAnswer::Staged(Ok(())),
        CmdAnswer::Validated { name: Ok(name), segment: Ok(()) },
        CmdAnswer::Destination(report),
        CmdAnswer::DestinationExists(false),
        CmdAnswer::Done(Ok(())),
        CmdAnswer::Clock(Ok(seconds)),
        CmdAnswer::Done(Ok(())),
    ]
}

/// The answer number `at` confirmed that the marketplace was installed.
pub open spec fn installed_at(start: CmdStepModel, answers: Seq<CmdAnswer>, at: int) -> bool {
    &&& 0 <= at < answers.len()
    &&& answers[at] matches CmdAnswer::Done(Ok(_))
    &&& after(start, answers.take(at)) matches CmdStepModel::Continue(flow)
    &&& flow.pending is Install
}

/// The answer number `at` is of moving the marketplace back.
pub open spec fn moved_back_at(start: CmdStepModel, answers: Seq<CmdAnswer>, at: int) -> bool {
    &&& 0 <= at < answers.len()
    &&& after(start, answers.take(at)) matches CmdStepModel::Continue(flow)
    &&& flow.pending is RollBack
}

/// The action comes after an install.
pub open spec fn follows_install(action: CmdActionModel) -> bool {
    match action {
        CmdActionModel::ReadClock { .. }
        | CmdActionModel::RecordEntry { .. }
        | CmdActionModel::RollBack { .. } => true,
        _ => false,
    }
}

/// Once a marketplace is installed, the command fails only after it was told to
/// move the marketplace back.
pub proof fn law_failing_after_an_install_rolls_it_back(
    source: CmdSourceModel,
    sparse_paths: Seq<Seq<char>>,
    reserved_name: Seq<char>,
    places: CmdPlaces,
    answers: Seq<CmdAnswer>,
    at: int,
)
    requires
        installed_at(begun(source, sparse_paths, reserved_name, Ok(places)), answers, at),
    ensures
        match after(begun(source, sparse_paths, reserved_name, Ok(places)), answers) {
            CmdStepModel::Continue(flow) => follows_install(flow.pending),
            CmdStepModel::Finished(Ok(_)) => true,
            CmdStepModel::Finished(Err(_)) => exists|back: int|
                #[trigger] moved_back_at(
                    begun(source, sparse_paths, reserved_name, Ok(places)),
                    answers,
                    back,
                ),
        },
    decreases answers.len(),
{
    let start = begun(source, sparse_paths, reserved_name, Ok(places));
    let before = answers.drop_last();
    let last = answers.len() - 1;
    assert(answers.take(last) =~= before);
    if at < last {
        assert(before.take(at) =~= answers.take(at));
        law_failing_after_an_install_rolls_it_back(
            source,
            sparse_paths,
            reserved_name,
            places,
            before,
            at,
        );
        match after(start, before) {
            CmdStepModel::Continue(flow) => {
                if after(start, answers) matches CmdStepModel::Finished(Err(_)) {
                    assert(moved_back_at(start, answers, last));
                }
            },
            CmdStepModel::Finished(Err(_)) => {
                let back = choose|back: int| moved_back_at(start, before, back);
                assert(before.take(back) =~= answers.take(back));
                assert(moved_back_at(start, answers, back));
            },
            CmdStepModel::Finished(Ok(_)) => {},
        }
    }
}

/// A flow is about what it was given. Without a home directory it ends at once, with
/// the reason.
pub proof fn law_a_flow_is_about_what_was_asked_for(
    source: CmdSourceModel,
    sparse_paths: Seq<Seq<char>>,
    reserved_name: Seq<char>,
    places: CmdPlaces,
    error: String,
)
    ensures
        begun(source, sparse_paths, reserved_name, Err(error)) == CmdStepModel::Finished(
            Err(
                CmdErrorModel { message: "failed to resolve CODEX_HOME"@, cause: Some(error@) },
            ),
        ),
        begun(source, sparse_paths, reserved_name, Ok(places)) matches CmdStepModel::Continue(flow)
            && flow.pending is CreateInstallRoot && flow.context.source == source
            && flow.context.sparse_paths == sparse_paths && flow.context.reserved_name
            == reserved_name && flow.context.install_root == places.install_root@
            && flow.context.staging_root == places.staging_root@,
{
}

/// The answer tells the time `seconds`.
pub open spec fn tells_time(answer: CmdAnswer, seconds: u64) -> bool {
    answer == CmdAnswer::Clock(Ok(seconds))
}

/// Whatever the answers, an entry that is to be recorded says exactly what was asked
/// for: the type and the text of the source, and for git its ref and the sparse
/// paths; and the time that the clock told.
#[verifier::spinoff_prover]
#[verifier::rlimit(40)]
pub proof fn law_what_is_recorded_was_asked_for(
    source: CmdSourceModel,
    sparse_paths: Seq<Seq<char>>,
    reserved_name: Seq<char>,
    places: CmdPlaces,
    answers: Seq<CmdAnswer>,
)
    ensures
        after(begun(source, sparse_paths, reserved_name, Ok(places)), answers) matches
            CmdStepModel::Continue(flow) ==> (flow.pending matches CmdActionModel::RecordEntry {
            update,
            ..
        } ==> {
            &&& exists|at: int, seconds: u64|
                0 <= at < answers.len() && #[trigger] tells_time(answers[at], seconds)
                    && update.last_updated == utc_timestamp(signed_seconds(seconds) as int)
            &&& match source {
                CmdSourceModel::Git { url, ref_name } => update.source_type == "git"@
                    && update.source == url && update.ref_name == ref_name && update.sparse_paths
                    == sparse_paths,
                CmdSourceModel::Path { shown, .. } => update.source_type == "path"@ && update.source
                    == shown && update.ref_name is None && update.sparse_paths.len() == 0,
                CmdSourceModel::ManifestUrl { url } => update.source_type == "manifest_url"@
                    && update.source == url && update.ref_name is None && update.sparse_paths.len()
                    == 0,
            }
        }),
    decreases answers.len(),
{
    let start = begun(source, sparse_paths, reserved_name, Ok(places));
    law_flows_stay_sound(source, sparse_paths, reserved_name, places, answers);
    if answers.len() > 0 {
        let before = answers.drop_last();
        let last = answers.len() - 1;
        law_what_is_recorded_was_asked_for(source, sparse_paths, reserved_name, places, before);
        if let CmdStepModel::Continue(flow) = after(start, before) {
            if let CmdActionModel::RecordEntry { update, .. } = flow.pending {
                let (at, seconds) = choose|at: int, seconds: u64|
                    0 <= at < before.len() && #[trigger] tells_time(before[at], seconds)
                        && update.last_updated == utc_timestamp(signed_seconds(seconds) as int);
                assert(tells_time(answers[at], seconds));
            } else if let CmdAnswer::Clock(Ok(seconds)) = answers.last() {
                assert(tells_time(answers[last], seconds));
            }
        }
    }
}

/// The answer tells that there is nothing at the destination.
pub open spec fn tells_free(answer: CmdAnswer) -> bool {
    answer == CmdAnswer::DestinationExists(false)
}

/// Nothing is installed where something is: what was staged is moved to its
/// destination only after that was found to be free. Where it is taken, what is
/// there is looked at, and told as already added where it is valid.
#[verifier::spinoff_prover]
#[verifier::rlimit(40)]
pub proof fn law_nothing_is_installed_over_what_is_there(
    source: CmdSourceModel,
    sparse_paths: Seq<Seq<char>>,
    reserved_name: Seq<char>,
    places: CmdPlaces,
    answers: Seq<CmdAnswer>,
)
    ensures
        match after(begun(source, sparse_paths, reserved_name, Ok(places)), answers) {
            CmdStepModel::Continue(flow) => {
                &&& flow.pending is Install || flow.pending is ReadClock
                    || flow.pending is RecordEntry || flow.pending is RollBack ==> exists|at: int|
                    0 <= at < answers.len() && #[trigger] tells_free(answers[at])
                &&& flow.pending matches CmdActionModel::CheckDestination { target } ==> after(
                    CmdStepModel::Continue(flow),
                    seq![CmdAnswer::DestinationExists(true), CmdAnswer::Done(Ok(()))],
                ) == CmdStepModel::Finished(
                    Ok(
                        seq![
                            "Marketplace `"@ + target.name + "` is already added."@,
                            "Installed marketplace root: "@ + target.shown,
                        ],
                    ),
                )
            },
            CmdStepModel::Finished(_) => true,
        },
    decreases answers.len(),
{
    let start = begun(source, sparse_paths, reserved_name, Ok(places));
    if let CmdStepModel::Continue(flow) = after(start, answers) {
        let two = seq![CmdAnswer::DestinationExists(true), CmdAnswer::Done(Ok(()))];
        let one = seq![CmdAnswer::DestinationExists(true)];
        assert(two.drop_last() =~= one);
        assert(one.drop_last() =~= Seq::<CmdAnswer>::empty());
        assert(after(CmdStepModel::Continue(flow), Seq::<CmdAnswer>::empty())
            == CmdStepModel::Continue(flow));
        assert(after(CmdStepModel::Continue(flow), one) == step(flow, one.last()));
    }
    if answers.len() > 0 {
        let before = answers.drop_last();
        let last = answers.len() - 1;
        law_nothing_is_installed_over_what_is_there(
            source,
            sparse_paths,
            reserved_name,
            places,
            before,
        );
        if let CmdStepModel::Continue(flow) = after(start, before) {
            if flow.pending is Install || flow.pending is ReadClock || flow.pending is RecordEntry
                || flow.pending is RollBack {
                let at = choose|at: int| 0 <= at < before.len() && #[trigger] tells_free(before[at]);
                assert(tells_free(answers[at]));
            } else if answers.last() == CmdAnswer::DestinationExists(false) {
                assert(tells_free(answers[last]));
            }
        }
    }
}

/// What goes wrong ends a flow, unless something is to be rolled back first, and the
/// cause that the answer gave is the cause of the error.
#[verifier::spinoff_prover]
#[verifier::rlimit(40)]
pub proof fn law_failures_tell_their_cause(
    flow: CmdFlowModel,
    cause: String,
    name: String,
    stage_error: MarketplaceCmdError,
)
    ensures
        flow.pending is CreateInstallRoot || flow.pending is CreateStagingRoot
            || flow.pending is CreateStagedDir || flow.pending is Install
            || flow.pending is ValidateInstalled ==> (step(
            flow,
            CmdAnswer::Done(Err(cause)),
        ) matches CmdStepModel::Finished(Err(error)) && error.cause == Some(cause@)),
        flow.pending is ValidateStaged ==> ({
            let invalid = CmdStepModel::Finished(
                Err(
                    CmdErrorModel {
                        message: "failed to validate marketplace from "@
                            + flow.context.source.display(),
                        cause: Some(cause@),
                    },
                ),
            );
            &&& step(flow, CmdAnswer::Validated { name: Err(cause), segment: Ok(()) }) == invalid
            &&& step(flow, CmdAnswer::Validated { name: Ok(name), segment: Err(cause) }) == invalid
        }),
        flow.pending is StageSource ==> step(flow, CmdAnswer::Staged(Err(stage_error)))
            == CmdStepModel::Finished(Err(stage_error@)),
        flow.pending matches CmdActionModel::ReadClock { target } ==> (step(
            flow,
            CmdAnswer::Clock(Err(cause)),
        ) matches CmdStepModel::Continue(next) && next.context == flow.context && next.pending == (
        CmdActionModel::RollBack {
            target,
            error: CmdErrorModel {
                message: "system clock is before Unix epoch"@,
                cause: Some(cause@),
            },
        })),
        flow.pending matches CmdActionModel::RecordEntry { target, .. } ==> (step(
            flow,
            CmdAnswer::Done(Err(cause)),
        ) matches CmdStepModel::Continue(next) && next.context == flow.context && next.pending == (
        CmdActionModel::RollBack {
            target,
            error: CmdErrorModel {
                message: "failed to add marketplace `"@ + target.name + "` to user config.toml"@,
                cause: Some(cause@),
            },
        })),
        flow.pending matches CmdActionModel::RollBack { target, error } ==> (step(
            flow,
            CmdAnswer::Done(Err(cause)),
        ) matches CmdStepModel::Finished(Err(told)) && starts_with(told.message, error.message)
            && ends_with(told.message, target.shown + ": "@ + cause@)),
{
    if let CmdActionModel::RollBack { target, error } = flow.pending {
        let middle = "; additionally failed to roll back installed marketplace at "@;
        let text = error.message + middle + target.shown + ": "@ + cause@;
        assert(text =~= error.message + (middle + target.shown + ": "@ + cause@));
        law_prefixes_come_first(error.message, middle + target.shown + ": "@ + cause@);
        assert(text =~= (error.message + middle) + (target.shown + ": "@ + cause@));
        law_suffixes_come_last(error.message + middle, target.shown + ": "@ + cause@);
    }
}

/// The name that a staged marketplace gives itself decides what becomes of it. The
/// reserved one is refused; so is one that gives no directory; any other goes on
/// under that name, in the directory of its safe form.
pub proof fn law_the_name_decides_what_becomes_of_a_marketplace(flow: CmdFlowModel, name: String)
    requires
        flow.pending is ValidateStaged,
    ensures
        ({
            let next = step(flow, CmdAnswer::Validated { name: Ok(name), segment: Ok(()) });
            &&& name@ == flow.context.reserved_name ==> (next matches CmdStepModel::Finished(
                Err(error),
            ) && error.cause is None && error.message == "marketplace `"@ + name@
                + "` is reserved and cannot be added from "@ + flow.context.source.display())
            &&& name@ != flow.context.reserved_name && safe_dir_name(name@).len() == 0 ==> (
            next matches CmdStepModel::Finished(Err(error)) && error.cause is None && error.message
                == "marketplace name `"@ + name@ + "` cannot be used as an install directory"@)
            &&& name@ != flow.context.reserved_name && safe_dir_name(name@).len() > 0 ==> next
                == CmdStepModel::Continue(
                CmdFlowModel {
                    context: flow.context,
                    pending: CmdActionModel::ResolveDestination {
                        name: name@,
                        dir_name: safe_dir_name(name@),
                    },
                },
            )
        }),
{
}

/// A marketplace that was recorded is told by its name, its source and where it was
/// installed.
pub proof fn law_an_added_marketplace_is_told(flow: CmdFlowModel, target: CmdTargetModel)
    requires
        flow.pending is RecordEntry,
        flow.pending->RecordEntry_target == target,
    ensures
        step(flow, CmdAnswer::Done(Ok(()))) == CmdStepModel::Finished(
            Ok(
                seq![
                    "Added marketplace `"@ + target.name + "` from "@ + flow.context.source.display()
                        + "."@,
                    "Installed marketplace root: "@ + target.shown,
                ],
            ),
        ),
{
}

/// An answer that is of another action than the one that is to be done changes
/// nothing: the flow still waits for the answer of its own.
pub proof fn law_answers_of_other_actions_change_nothing(flow: CmdFlowModel, answer: CmdAnswer)
    requires
        !fits(flow.pending, answer),
    ensures
        step(flow, answer) == CmdStepModel::Continue(flow),
{
}

/// A destination is used only where it lies in the install root: a flow goes on to it
/// there, and ends otherwise, with what failed.
pub proof fn law_a_destination_outside_ends_a_flow(
    flow: CmdFlowModel,
    name: Seq<char>,
    dir_name: Seq<char>,
    report: DestinationReport,
)
    requires
        flow.pending == (CmdActionModel::ResolveDestination { name, dir_name }),
    ensures
        match (report.install_root, report.parent) {
            (Err(error), _) => step(flow, CmdAnswer::Destination(report)) == CmdStepModel::Finished(
                Err(
                    CmdErrorModel {
                        message: "failed to resolve marketplace install root "@
                            + flow.context.install_root,
                        cause: Some(error@),
                    },
                ),
            ),
            (Ok(_), None) => step(flow, CmdAnswer::Destination(report)) == CmdStepModel::Finished(
                Err(
                    CmdErrorModel {
                        message: "marketplace destination has no parent"@,
                        cause: None,
                    },
                ),
            ),
            (Ok(_), Some(Err(error))) => step(flow, CmdAnswer::Destination(report))
                == CmdStepModel::Finished(
                Err(
                    CmdErrorModel {
                        message: "failed to resolve marketplace destination parent "@
                            + report.shown@,
                        cause: Some(error@),
                    },
                ),
            ),
            (Ok(root), Some(Ok(parent))) => {
                let below = exists|rest: Seq<ComponentModel>|
                    parent@ == #[trigger] (root.path@ + rest);
                &&& below ==> step(flow, CmdAnswer::Destination(report)) == CmdStepModel::Continue(
                    CmdFlowModel {
                        context: flow.context,
                        pending: CmdActionModel::CheckDestination {
                            target: CmdTargetModel { name, dir_name, shown: report.shown@ },
                        },
                    },
                )
                &&& !below ==> step(flow, CmdAnswer::Destination(report)) == CmdStepModel::Finished(
                    Err(
                        CmdErrorModel {
                            message: "marketplace destination "@ + report.shown@
                                + " is outside install root "@ + root.shown@,
                            cause: None,
                        },
                    ),
                )
            },
        },
{
    law_a_destination_is_inside_below_the_root(report);
}

} // verus!
