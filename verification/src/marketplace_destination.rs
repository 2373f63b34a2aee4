//! Where an installed marketplace may lie.

use crate::path::{
    copy_bytes, law_what_stands_below_lies_in, lies_in, ComponentModel, LocalPath, PathComponent,
};
use vstd::prelude::*;
use vstd::utf8::encode_utf8;

verus! {

/// The directory of the install root in which sources are staged.
pub fn marketplace_staging_root(install_root: &LocalPath) -> (r: LocalPath)
    ensures
        r@ == install_root@.push(ComponentModel::Normal(encode_utf8(".staging"@))),
        lies_in(r@, install_root@),
{
    let mut path = install_root.duplicate();
    path.components.push(PathComponent::Normal(copy_bytes(".staging".as_bytes())));
    assert(path@ =~= install_root@.push(ComponentModel::Normal(encode_utf8(".staging"@))));
    assert(path@.take(install_root@.len() as int) =~= install_root@);
    path
}

/// A path with its links resolved, and the way it is shown.
#[derive(Debug, PartialEq, Eq)]
pub struct ResolvedPath {
    pub path: LocalPath,
    pub shown: String,
}

/// What the file system says of a destination: how it is shown, the install
/// root with its links resolved, and the directory it lies in with its links
/// resolved, where it has one.
#[derive(Debug, PartialEq, Eq)]
pub struct DestinationReport {
    pub shown: String,
    pub install_root: Result<ResolvedPath, String>,
    pub parent: Option<Result<LocalPath, String>>,
}

/// What a report says of a destination.
#[derive(Debug, PartialEq, Eq)]
pub enum DestinationCheck {
    Inside,
    InstallRootUnresolved { error: String },
    NoParent,
    ParentUnresolved { error: String },
    /// The destination lies outside the install root, which is shown here.
    Outside { install_root: String },
}

pub enum CheckModel {
    Inside,
    InstallRootUnresolved { error: Seq<char> },
    NoParent,
    ParentUnresolved { error: Seq<char> },
    Outside { install_root: Seq<char> },
}

impl View for DestinationCheck {
    type V = CheckModel;

    open spec fn view(&self) -> CheckModel {
        match *self {
            DestinationCheck::Inside => CheckModel::Inside,
            DestinationCheck::InstallRootUnresolved { error } => {
                CheckModel::InstallRootUnresolved { error: error@ }
            },
            DestinationCheck::NoParent => CheckModel::NoParent,
            DestinationCheck::ParentUnresolved { error } => {
                CheckModel::ParentUnresolved { error: error@ }
            },
            DestinationCheck::Outside { install_root } => {
                CheckModel::Outside { install_root: install_root@ }
            },
        }
    }
}

/// What a report says of a destination. What fails first is told first: the
/// install root, then the directory of the destination, then where that lies.
pub open spec fn destination_check(report: DestinationReport) -> CheckModel {
    match (report.install_root, report.parent) {
        (Err(error), _) => CheckModel::InstallRootUnresolved { error: error@ },
        (Ok(_), None) => CheckModel::NoParent,
        (Ok(_), Some(Err(error))) => CheckModel::ParentUnresolved { error: error@ },
        (Ok(root), Some(Ok(parent))) => if lies_in(parent@, root.path@) {
            CheckModel::Inside
        } else {
            CheckModel::Outside { install_root: root.shown@ }
        },
    }
}

/// What a report says of a destination.
pub fn check_destination(report: &DestinationReport) -> (r: DestinationCheck)
    ensures
        r@ == destination_check(*report),
{
    match &report.install_root {
        Err(error) => DestinationCheck::InstallRootUnresolved { error: error.clone() },
        Ok(root) => match &report.parent {
            None => DestinationCheck::NoParent,
            Some(Err(error)) => DestinationCheck::ParentUnresolved { error: error.clone() },
            Some(Ok(parent)) => if parent.starts_with(&root.path) {
                DestinationCheck::Inside
            } else {
                DestinationCheck::Outside { install_root: root.shown.clone() }
            },
        },
    }
}

/// A destination is inside exactly where the install root and the directory of the
/// destination could be resolved and the directory is the root or stands below it.
/// Otherwise the check says which of these failed first, and with what error.
pub proof fn law_a_destination_is_inside_below_the_root(report: DestinationReport)
    ensures
        destination_check(report) is Inside <==> report.install_root is Ok && report.parent is Some
            && report.parent->0 is Ok && exists|below: Seq<ComponentModel>|
            report.parent->0->Ok_0@ == #[trigger] (report.install_root->Ok_0.path@ + below),
        match (report.install_root, report.parent) {
            (Err(error), _) => destination_check(report) matches CheckModel::InstallRootUnresolved {
                error: told,
            } && told == error@,
            (Ok(_), None) => destination_check(report) is NoParent,
            (Ok(_), Some(Err(error))) => destination_check(report) matches
                CheckModel::ParentUnresolved { error: told } && told == error@,
            (Ok(root), Some(Ok(_))) => destination_check(report) is Inside || (destination_check(
                report,
            ) matches CheckModel::Outside { install_root } && install_root == root.shown@),
        },
{
    if let (Ok(root), Some(Ok(parent))) = (report.install_root, report.parent) {
        law_what_stands_below_lies_in(parent@, root.path@, Seq::empty());
        if exists|below: Seq<ComponentModel>| parent@ == #[trigger] (root.path@ + below) {
            let below = choose|below: Seq<ComponentModel>|
                parent@ == #[trigger] (root.path@ + below);
            law_what_stands_below_lies_in(parent@, root.path@, below);
        }
    }
}

} // verus!
