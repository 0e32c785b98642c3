//! The agent's commands: what registering, running, updating, stopping and
//! unregistering a managed unit amount to, step by step.

use crate::config::ROOT_PATH_PROD;
use crate::download_config::{DownloadConfig, FileMd5Model};
use crate::http::client::{
    cache_file, cache_file_path, description_in, download, download_plan, read_registration,
    read_unregistration, CacheProbe, DownloadPlan, DownloadPlanModel, InstallerInfo,
    InstallerInfoModel, RemoteError,
};
use crate::installer_config::{
    add_outcome, has_port, update_outcome, without_port, ConfigError, Installer,
    InstallerConfig, InstallerModel,
};
use crate::jar::{launch_command, run_spring_boot, LaunchCommand, LaunchCommandModel};
use crate::util::os::{OSInfo, TargetOs};
use crate::util::process::{
    first_listener, get_id, kill, kill_line, shell_command, CommandLine, ShellCommand,
};
use crate::util::text::{str_eq, trimmed, u64_to_string, decimal, trim};
use vstd::prelude::*;
use vstd::string::StringExecFns;

verus! {

/// Directory of the production layout that holds `version` of artifact
/// `name`.
pub open spec fn prod_dir(name: Seq<char>, version: Seq<char>) -> Seq<char> {
    ROOT_PATH_PROD@ + "/"@ + name + "/"@ + version
}

/// Place of an application archive in the production layout.
pub open spec fn prod_spring_boot_jar_path(
    app_name: Seq<char>,
    app_version: Seq<char>,
    app_file_name: Seq<char>,
) -> Seq<char> {
    prod_dir(app_name, app_version) + "/"@ + app_file_name
}

/// Directory into which a runtime archive of `jdk_version` expands: by
/// convention it is named `jdk-` and the version.
pub open spec fn prod_jdk_path(jdk_name: Seq<char>, jdk_version: Seq<char>) -> Seq<char> {
    prod_dir(jdk_name, jdk_version) + "/"@ + "jdk-"@ + jdk_version
}

/// Place of the marker that stands beside a runtime while its archive is
/// being expanded.
pub open spec fn marker_path(
    jdk_name: Seq<char>,
    jdk_version: Seq<char>,
    jdk_file_name: Seq<char>,
) -> Seq<char> {
    prod_dir(jdk_name, jdk_version) + "/"@ + jdk_file_name + "_zipping"@
}

fn prod_dir_path(name: &str, version: &str) -> (r: String)
    ensures
        r@ == prod_dir(name@, version@),
{
    let mut r = ROOT_PATH_PROD.to_owned();
    r.append("/");
    r.append(name);
    r.append("/");
    r.append(version);
    r
}

/// Where production holds the application archive `app_file_name`.
pub fn get_prod_spring_boot_jar_path(app_name: &str, app_version: &str, app_file_name: &str) -> (r:
    String)
    ensures
        r@ == prod_spring_boot_jar_path(app_name@, app_version@, app_file_name@),
{
    let mut r = prod_dir_path(app_name, app_version);
    r.append("/");
    r.append(app_file_name);
    r
}

/// Where production holds the expanded runtime of `jdk_version`.
pub fn get_prod_jdk_path(jdk_name: &str, jdk_version: &str) -> (r: String)
    ensures
        r@ == prod_jdk_path(jdk_name@, jdk_version@),
{
    let mut r = prod_dir_path(jdk_name, jdk_version);
    r.append("/");
    r.append("jdk-");
    r.append(jdk_version);
    assert(r@ == prod_dir(jdk_name@, jdk_version@) + "/"@ + "jdk-"@ + jdk_version@);
    r
}

fn get_marker_path(jdk_name: &str, jdk_version: &str, jdk_file_name: &str) -> (r: String)
    ensures
        r@ == marker_path(jdk_name@, jdk_version@, jdk_file_name@),
{
    let mut r = prod_dir_path(jdk_name, jdk_version);
    r.append("/");
    r.append(jdk_file_name);
    r.append("_zipping");
    r
}

/// One step of bringing an artifact from the cache into production.
#[derive(Clone, Copy, Debug, PartialEq, Eq, Structural)]
pub enum StagingStep {
    /// Delete the target with all that is in it.
    RemoveTarget,
    /// Delete the marker.
    RemoveMarker,
    /// Create the directory of the target, and those above it.
    CreateParent,
    /// Create the marker, empty.
    CreateMarker,
    /// Expand every entry of the cached archive into the directory of the
    /// target.
    ExpandArchive,
    /// Copy the cached file to the target.
    CopyFile,
}

/// How an artifact gets into production: the places involved and the steps
/// to take, in order. Without steps, the artifact is in production already.
#[derive(Debug, PartialEq)]
pub struct StagingPlan {
    /// The artifact in the cache.
    pub cached: String,
    /// Directory of the target.
    pub parent: String,
    /// What production is to hold: the copied file or the expanded directory.
    pub target: String,
    /// The marker of an expansion under way; none for a copy.
    pub marker: Option<String>,
    pub steps: Vec<StagingStep>,
}

/// A `StagingPlan` as text.
pub struct StagingPlanModel {
    pub cached: Seq<char>,
    pub parent: Seq<char>,
    pub target: Seq<char>,
    pub marker: Option<Seq<char>>,
    pub steps: Seq<StagingStep>,
}

impl DeepView for StagingPlan {
    type V = StagingPlanModel;

    open spec fn deep_view(&self) -> StagingPlanModel {
        StagingPlanModel {
            cached: self.cached@,
            parent: self.parent@,
            target: self.target@,
            marker: self.marker.deep_view(),
            steps: self.steps@,
        }
    }
}

/// The steps that put a copied artifact into production.
pub open spec fn copy_steps(target_exists: bool) -> Seq<StagingStep> {
    if target_exists {
        Seq::empty()
    } else {
        seq![StagingStep::CreateParent, StagingStep::CopyFile]
    }
}

/// The steps that put an expanded artifact into production.
///
/// A target without marker is complete. A target with its marker is what
/// an interrupted expansion left: both go, and the archive is expanded
/// anew. The marker is there from before the first entry is written until
/// the last one is.
pub open spec fn expand_steps(target_exists: bool, marker_exists: bool) -> Seq<StagingStep> {
    let expand = seq![
        StagingStep::CreateParent,
        StagingStep::CreateMarker,
        StagingStep::ExpandArchive,
        StagingStep::RemoveMarker,
    ];
    if target_exists && !marker_exists {
        Seq::empty()
    } else if target_exists {
        seq![StagingStep::RemoveTarget, StagingStep::RemoveMarker] + expand
    } else {
        expand
    }
}

/// Plans the staging of an application archive: it is copied into
/// production unless it is there.
pub fn ensure_spring_boot_jar_exists(
    app_name: &str,
    app_version: &str,
    app_file_name: &str,
    target_exists: bool,
) -> (r: StagingPlan)
    ensures
        r.deep_view() == (StagingPlanModel {
            cached: cache_file(app_name@, app_version@, app_file_name@),
            parent: prod_dir(app_name@, app_version@),
            target: prod_spring_boot_jar_path(app_name@, app_version@, app_file_name@),
            marker: None,
            steps: copy_steps(target_exists),
        }),
{
    let mut steps: Vec<StagingStep> = Vec::new();
    if !target_exists {
        steps.push(StagingStep::CreateParent);
        steps.push(StagingStep::CopyFile);
    }
    assert(steps@ =~= copy_steps(target_exists));
    StagingPlan {
        cached: cache_file_path(app_name, app_version, app_file_name),
        parent: prod_dir_path(app_name, app_version),
        target: get_prod_spring_boot_jar_path(app_name, app_version, app_file_name),
        marker: None,
        steps,
    }
}

/// Plans the staging of a runtime archive: it is expanded into production
/// unless a complete expansion is there.
pub fn ensure_jdk_exists(
    jdk_name: &str,
    jdk_version: &str,
    jdk_file_name: &str,
    target_exists: bool,
    marker_exists: bool,
) -> (r: StagingPlan)
    ensures
        r.deep_view() == (StagingPlanModel {
            cached: cache_file(jdk_name@, jdk_version@, jdk_file_name@),
            parent: prod_dir(jdk_name@, jdk_version@),
            target: prod_jdk_path(jdk_name@, jdk_version@),
            marker: Some(marker_path(jdk_name@, jdk_version@, jdk_file_name@)),
            steps: expand_steps(target_exists, marker_exists),
        }),
{
    let mut steps: Vec<StagingStep> = Vec::new();
    if !(target_exists && !marker_exists) {
        if target_exists {
            steps.push(StagingStep::RemoveTarget);
            steps.push(StagingStep::RemoveMarker);
        }
        steps.push(StagingStep::CreateParent);
        steps.push(StagingStep::CreateMarker);
        steps.push(StagingStep::ExpandArchive);
        steps.push(StagingStep::RemoveMarker);
    }
    assert(steps@ =~= expand_steps(target_exists, marker_exists));
    StagingPlan {
        cached: cache_file_path(jdk_name, jdk_version, jdk_file_name),
        parent: prod_dir_path(jdk_name, jdk_version),
        target: get_prod_jdk_path(jdk_name, jdk_version),
        marker: Some(get_marker_path(jdk_name, jdk_version, jdk_file_name)),
        steps,
    }
}

/// How much of a target is in production.
#[derive(PartialEq, Eq, Structural)]
pub enum Presence {
    Absent,
    /// Some of it: what an interrupted step leaves.
    Partial,
    Whole,
}

/// What production holds of one artifact.
pub struct Staged {
    pub target: Presence,
    pub marker: bool,
}

/// The slot after a step has run to its end.
pub open spec fn after_step(state: Staged, step: StagingStep) -> Staged {
    match step {
        StagingStep::RemoveTarget => Staged { target: Presence::Absent, ..state },
        StagingStep::RemoveMarker => Staged { marker: false, ..state },
        StagingStep::CreateParent => state,
        StagingStep::CreateMarker => Staged { marker: true, ..state },
        StagingStep::ExpandArchive => Staged { target: Presence::Whole, ..state },
        StagingStep::CopyFile => Staged { target: Presence::Whole, ..state },
    }
}

/// The slot when a step is cut short: a target that was being written or
/// deleted is there in part, anything else is as before the step.
pub open spec fn amid_step(state: Staged, step: StagingStep) -> Staged {
    match step {
        StagingStep::RemoveTarget => Staged { target: Presence::Partial, ..state },
        StagingStep::ExpandArchive => Staged { target: Presence::Partial, ..state },
        StagingStep::CopyFile => Staged { target: Presence::Partial, ..state },
        _ => state,
    }
}

/// The slot after all of `steps` have run, in order.
pub open spec fn after_steps(state: Staged, steps: Seq<StagingStep>) -> Staged
    decreases steps.len(),
{
    if steps.len() == 0 {
        state
    } else {
        after_step(after_steps(state, steps.drop_last()), steps.last())
    }
}

/// The steps that the agent takes for an expanded artifact when it finds
/// production in `state`.
pub open spec fn expand_steps_at(state: Staged) -> Seq<StagingStep> {
    expand_steps(state.target != Presence::Absent, state.marker)
}

/// What can be trusted of production: a target that is there in part has
/// its marker beside it.
pub open spec fn marked_if_partial(state: Staged) -> bool {
    state.target == Presence::Partial ==> state.marker
}

/// Staging an expanded artifact ends with the whole target and no marker.
pub proof fn lemma_expand_stages(state: Staged)
    requires
        marked_if_partial(state),
    ensures
        after_steps(state, expand_steps_at(state)) == (Staged {
            target: Presence::Whole,
            marker: false,
        }),
{
    reveal_with_fuel(after_steps, 8);
    let steps = expand_steps_at(state);
    if steps.len() == 4 {
        assert(steps.drop_last() == seq![
            StagingStep::CreateParent,
            StagingStep::CreateMarker,
            StagingStep::ExpandArchive,
        ]);
        assert(steps.drop_last().drop_last() == seq![
            StagingStep::CreateParent,
            StagingStep::CreateMarker,
        ]);
        assert(steps.drop_last().drop_last().drop_last() == seq![StagingStep::CreateParent]);
        assert(steps.drop_last().drop_last().drop_last().drop_last() == Seq::<
            StagingStep,
        >::empty());
    } else if steps.len() == 6 {
        let s5 = steps.drop_last();
        let s4 = s5.drop_last();
        let s3 = s4.drop_last();
        let s2 = s3.drop_last();
        let s1 = s2.drop_last();
        assert(s5.last() == StagingStep::ExpandArchive);
        assert(s4.last() == StagingStep::CreateMarker);
        assert(s3.last() == StagingStep::CreateParent);
        assert(s2.last() == StagingStep::RemoveMarker);
        assert(s1.last() == StagingStep::RemoveTarget);
        assert(s1.drop_last() == Seq::<StagingStep>::empty());
    }
}

/// Running one step more.
pub proof fn lemma_after_steps_next(state: Staged, steps: Seq<StagingStep>, k: int)
    requires
        0 <= k < steps.len(),
    ensures
        after_steps(state, steps.take(k + 1)) == after_step(
            after_steps(state, steps.take(k)),
            steps[k],
        ),
{
    assert(steps.take(k + 1).drop_last() == steps.take(k));
    assert(steps.take(k + 1).last() == steps[k]);
}

/// An interrupted expansion heals.
///
/// The agent stages an expanded artifact and is stopped before step `k`
/// of its plan, or in the middle of it. Production can then still be
/// trusted, a marker that is left makes the next staging expand the
/// archive anew, and that staging ends with the whole target and no
/// marker.
pub proof fn lemma_interrupted_expand_recovers(state: Staged, k: int)
    requires
        marked_if_partial(state),
        0 <= k < expand_steps_at(state).len(),
    ensures
        ({
            let steps = expand_steps_at(state);
            let between = after_steps(state, steps.take(k));
            let amid = amid_step(between, steps[k]);
            let staged = Staged { target: Presence::Whole, marker: false };
            &&& marked_if_partial(between)
            &&& marked_if_partial(amid)
            &&& after_steps(between, expand_steps_at(between)) == staged
            &&& after_steps(amid, expand_steps_at(amid)) == staged
            &&& amid.marker ==> expand_steps_at(amid).contains(StagingStep::ExpandArchive)
        }),
{
    let steps = expand_steps_at(state);
    assert(steps.take(0) == Seq::<StagingStep>::empty());
    lemma_after_steps_next(state, steps, 0);
    lemma_after_steps_next(state, steps, 1);
    lemma_after_steps_next(state, steps, 2);
    lemma_after_steps_next(state, steps, 3);
    if steps.len() == 6 {
        lemma_after_steps_next(state, steps, 4);
        lemma_after_steps_next(state, steps, 5);
    }
    let between = after_steps(state, steps.take(k));
    let amid = amid_step(between, steps[k]);
    lemma_expand_stages(between);
    lemma_expand_stages(amid);
    if amid.marker {
        let again = expand_steps_at(amid);
        if again.len() == 4 {
            assert(again[2] == StagingStep::ExpandArchive);
        } else {
            assert(again[4] == StagingStep::ExpandArchive);
        }
    }
}

/// Staging a copied artifact ends with the target in production.
pub proof fn lemma_copy_stages(state: Staged)
    requires
        state.target != Presence::Partial,
    ensures
        after_steps(state, copy_steps(state.target != Presence::Absent)).target
            == Presence::Whole,
{
    let steps = copy_steps(state.target != Presence::Absent);
    if steps.len() == 2 {
        assert(steps.take(0) == Seq::<StagingStep>::empty());
        lemma_after_steps_next(state, steps, 0);
        lemma_after_steps_next(state, steps, 1);
        assert(steps.take(2) == steps);
    }
}

/// How one version stands to another.
#[derive(Clone, Copy, Debug, PartialEq, Eq, Structural)]
pub enum VersionOrder {
    Older,
    Same,
    Newer,
}

/// How version `a` stands to version `b` by the precedence of their parts;
/// `None` where one of them is no version.
pub uninterp spec fn version_order(a: Seq<char>, b: Seq<char>) -> Option<VersionOrder>;

/// Calls `version_compare::compare`, which orders two version strings part
/// by part, numbers by value, and fails where a string holds parts but no
/// number. The result is taken to depend on the two strings alone.
#[verifier::external_body]
fn compare_versions(a: &str, b: &str) -> (r: Option<VersionOrder>)
    ensures
        r == version_order(a@, b@),
{
    match version_compare::compare(a, b) {
        Ok(version_compare::Cmp::Lt) => Some(VersionOrder::Older),
        Ok(version_compare::Cmp::Eq) => Some(VersionOrder::Same),
        Ok(version_compare::Cmp::Gt) => Some(VersionOrder::Newer),
        _ => None,
    }
}

/// What an update finds changed at the platform.
#[derive(Clone, Copy, Debug, PartialEq, Eq, Structural)]
pub enum UpgradeState {
    NoChange,
    AppChanged,
    JdkChanged,
    BothChanged,
}

impl UpgradeState {
    /// Whether the application is to be brought up to the latest version.
    pub open spec fn app_changed(self) -> bool {
        self == UpgradeState::AppChanged || self == UpgradeState::BothChanged
    }

    /// Whether the runtime is to be brought up to the latest version.
    pub open spec fn jdk_changed(self) -> bool {
        self == UpgradeState::JdkChanged || self == UpgradeState::BothChanged
    }
}

/// The state of a unit whose latest application version stands as `app`
/// to the installed one, and whose latest runtime version as `jdk`: each
/// has changed where the latest is strictly newer.
pub open spec fn upgrade_state_of(app: VersionOrder, jdk: VersionOrder) -> UpgradeState {
    if app == VersionOrder::Newer && jdk == VersionOrder::Newer {
        UpgradeState::BothChanged
    } else if app == VersionOrder::Newer {
        UpgradeState::AppChanged
    } else if jdk == VersionOrder::Newer {
        UpgradeState::JdkChanged
    } else {
        UpgradeState::NoChange
    }
}

/// Tells what has changed from how the latest versions stand to the
/// installed ones.
pub fn upgrade_state(app: VersionOrder, jdk: VersionOrder) -> (r: UpgradeState)
    ensures
        r == upgrade_state_of(app, jdk),
{
    let app_newer = match app {
        VersionOrder::Newer => true,
        _ => false,
    };
    let jdk_newer = match jdk {
        VersionOrder::Newer => true,
        _ => false,
    };
    if app_newer && jdk_newer {
        UpgradeState::BothChanged
    } else if app_newer {
        UpgradeState::AppChanged
    } else if jdk_newer {
        UpgradeState::JdkChanged
    } else {
        UpgradeState::NoChange
    }
}

/// Why an update could not be planned.
#[derive(Clone, Copy, Debug, PartialEq, Eq, Structural)]
pub enum UpdateError {
    /// An installed or a latest version is no version.
    InvalidVersion,
}

/// The state of `installed` in view of `latest`, the platform's latest
/// description of it; an error where a version cannot be compared.
pub open spec fn compared(installed: InstallerModel, latest: InstallerInfoModel) -> Result<
    UpgradeState,
    UpdateError,
> {
    match (
        version_order(latest.app_version, installed.app_version),
        version_order(latest.jdk_version, installed.jdk_version),
    ) {
        (Some(app), Some(jdk)) => Ok(upgrade_state_of(app, jdk)),
        _ => Err(UpdateError::InvalidVersion),
    }
}

/// Compares the versions of an installed unit with the latest ones, the
/// application's and the runtime's each on its own.
pub fn compare_installed(installed: &Installer, latest: &InstallerInfo) -> (r: Result<
    UpgradeState,
    UpdateError,
>)
    ensures
        r == compared(installed.deep_view(), latest.deep_view()),
{
    let app = compare_versions(latest.app_version.as_str(), installed.app_version.as_str());
    let jdk = compare_versions(latest.jdk_version.as_str(), installed.jdk_version.as_str());
    match (app, jdk) {
        (Some(a), Some(j)) => Ok(upgrade_state(a, j)),
        _ => Err(UpdateError::InvalidVersion),
    }
}

/// A version of an artifact, and the file that holds it.
#[derive(Debug, PartialEq)]
pub struct ArtifactRef {
    pub name: String,
    pub version: String,
    pub file_name: String,
}

/// An `ArtifactRef` as text.
pub struct ArtifactRefModel {
    pub name: Seq<char>,
    pub version: Seq<char>,
    pub file_name: Seq<char>,
}

impl DeepView for ArtifactRef {
    type V = ArtifactRefModel;

    open spec fn deep_view(&self) -> ArtifactRefModel {
        ArtifactRefModel { name: self.name@, version: self.version@, file_name: self.file_name@ }
    }
}

/// Where an update takes one of a unit's two artifacts from.
#[derive(Debug, PartialEq)]
pub enum ArtifactChoice {
    /// The artifact has not changed: what is staged at `path` is used as
    /// it is, and nothing is read or written for it.
    Reuse { path: String },
    /// The artifact has changed: it is acquired and staged.
    Acquire { artifact: ArtifactRef },
}

/// An `ArtifactChoice` as text.
pub enum ArtifactChoiceModel {
    Reuse { path: Seq<char> },
    Acquire { artifact: ArtifactRefModel },
}

impl DeepView for ArtifactChoice {
    type V = ArtifactChoiceModel;

    open spec fn deep_view(&self) -> ArtifactChoiceModel {
        match self {
            ArtifactChoice::Reuse { path } => ArtifactChoiceModel::Reuse { path: path@ },
            ArtifactChoice::Acquire { artifact } => ArtifactChoiceModel::Acquire {
                artifact: artifact.deep_view(),
            },
        }
    }
}

/// What an update does about a unit's artifacts.
#[derive(Debug, PartialEq)]
pub struct UpdatePlan {
    pub state: UpgradeState,
    pub app: ArtifactChoice,
    pub jdk: ArtifactChoice,
}

/// An `UpdatePlan` as text.
pub struct UpdatePlanModel {
    pub state: UpgradeState,
    pub app: ArtifactChoiceModel,
    pub jdk: ArtifactChoiceModel,
}

impl DeepView for UpdatePlan {
    type V = UpdatePlanModel;

    open spec fn deep_view(&self) -> UpdatePlanModel {
        UpdatePlanModel {
            state: self.state,
            app: self.app.deep_view(),
            jdk: self.jdk.deep_view(),
        }
    }
}

/// The plan for a unit in `state`: each artifact that has changed is
/// acquired as the platform now describes it, the other is reused from
/// where the installed one is staged.
pub open spec fn update_plan(
    state: UpgradeState,
    installed: InstallerModel,
    latest: InstallerInfoModel,
) -> UpdatePlanModel {
    UpdatePlanModel {
        state,
        app: if state.app_changed() {
            ArtifactChoiceModel::Acquire {
                artifact: ArtifactRefModel {
                    name: latest.app_name,
                    version: latest.app_version,
                    file_name: latest.app_file_name,
                },
            }
        } else {
            ArtifactChoiceModel::Reuse {
                path: prod_spring_boot_jar_path(
                    installed.app_name,
                    installed.app_version,
                    installed.app_file_name,
                ),
            }
        },
        jdk: if state.jdk_changed() {
            ArtifactChoiceModel::Acquire {
                artifact: ArtifactRefModel {
                    name: latest.jdk_name,
                    version: latest.jdk_version,
                    file_name: latest.jdk_file_name,
                },
            }
        } else {
            ArtifactChoiceModel::Reuse {
                path: prod_jdk_path(installed.jdk_name, installed.jdk_version),
            }
        },
    }
}

/// Plans the artifacts of a unit in `state`.
pub fn plan_artifacts(state: UpgradeState, installed: &Installer, latest: &InstallerInfo) -> (r:
    UpdatePlan)
    ensures
        r.deep_view() == update_plan(state, installed.deep_view(), latest.deep_view()),
{
    let app_changed = match state {
        UpgradeState::AppChanged => true,
        UpgradeState::BothChanged => true,
        _ => false,
    };
    let jdk_changed = match state {
        UpgradeState::JdkChanged => true,
        UpgradeState::BothChanged => true,
        _ => false,
    };
    let app = if app_changed {
        ArtifactChoice::Acquire {
            artifact: ArtifactRef {
                name: latest.app_name.clone(),
                version: latest.app_version.clone(),
                file_name: latest.app_file_name.clone(),
            },
        }
    } else {
        ArtifactChoice::Reuse {
            path: get_prod_spring_boot_jar_path(
                installed.app_name.as_str(),
                installed.app_version.as_str(),
                installed.app_file_name.as_str(),
            ),
        }
    };
    let jdk = if jdk_changed {
        ArtifactChoice::Acquire {
            artifact: ArtifactRef {
                name: latest.jdk_name.clone(),
                version: latest.jdk_version.clone(),
                file_name: latest.jdk_file_name.clone(),
            },
        }
    } else {
        ArtifactChoice::Reuse {
            path: get_prod_jdk_path(installed.jdk_name.as_str(), installed.jdk_version.as_str()),
        }
    };
    UpdatePlan { state, app, jdk }
}

/// Plans the update of `installer` from `latest`, the platform's latest
/// description of it.
///
/// The application and the runtime are compared each on its own. Only an
/// artifact whose latest version is strictly newer is acquired and staged.
pub fn update_app(installer: &Installer, latest: &InstallerInfo) -> (r: Result<
    UpdatePlan,
    UpdateError,
>)
    ensures
        match compared(installer.deep_view(), latest.deep_view()) {
            Ok(state) => r matches Ok(plan) && plan.deep_view() == update_plan(
                state,
                installer.deep_view(),
                latest.deep_view(),
            ),
            Err(e) => r matches Err(x) && x == e,
        },
{
    match compare_installed(installer, latest) {
        Ok(state) => Ok(plan_artifacts(state, installer, latest)),
        Err(e) => Err(e),
    }
}

/// Each artifact goes its own way.
///
/// An update acquires the application if and only if its latest version
/// is strictly newer than the installed one, whatever becomes of the
/// runtime, and the runtime likewise. An artifact that is not acquired is
/// reused from where the installed one is staged.
pub proof fn lemma_artifacts_are_independent(installed: InstallerModel, latest: InstallerInfoModel)
    requires
        compared(installed, latest) is Ok,
    ensures
        ({
            let plan = update_plan(compared(installed, latest)->Ok_0, installed, latest);
            let app_newer = version_order(latest.app_version, installed.app_version) == Some(
                VersionOrder::Newer,
            );
            let jdk_newer = version_order(latest.jdk_version, installed.jdk_version) == Some(
                VersionOrder::Newer,
            );
            &&& plan.app is Acquire <==> app_newer
            &&& plan.jdk is Acquire <==> jdk_newer
            &&& !app_newer ==> plan.app == (ArtifactChoiceModel::Reuse {
                path: prod_spring_boot_jar_path(
                    installed.app_name,
                    installed.app_version,
                    installed.app_file_name,
                ),
            })
            &&& !jdk_newer ==> plan.jdk == (ArtifactChoiceModel::Reuse {
                path: prod_jdk_path(installed.jdk_name, installed.jdk_version),
            })
        }),
{
}

/// What an update does about the unit's process, once its artifacts are
/// staged.
#[derive(Clone, Copy, Debug, PartialEq, Eq, Structural)]
pub enum RestartAction {
    /// The unit is not running. Its description is brought up to date; it
    /// is not started.
    PersistOnly,
    /// The unit is running what is the latest already. Nothing is done but
    /// to say so.
    Nothing,
    /// The unit is running and something has changed: process
    /// `process_id` is ended, the unit is started on what is staged now,
    /// and its description is brought up to date.
    Restart { process_id: u32 },
}

/// The action for a unit in `state` whose port is held by `process`.
pub open spec fn restart_action(state: UpgradeState, process: Option<u32>) -> RestartAction {
    match process {
        None => RestartAction::PersistOnly,
        Some(process_id) => if state == UpgradeState::NoChange {
            RestartAction::Nothing
        } else {
            RestartAction::Restart { process_id }
        },
    }
}

/// An update restarts a unit if and only if the unit runs and something
/// has changed. A unit that does not run is never started.
pub proof fn lemma_restart_only_live_and_changed(state: UpgradeState, process: Option<u32>)
    ensures
        restart_action(state, process) is Restart <==> process is Some && state
            != UpgradeState::NoChange,
        process is None ==> restart_action(state, process) == RestartAction::PersistOnly,
{
}

/// Decides what an update does about the process that holds the unit's
/// port.
pub fn decide_restart(state: UpgradeState, process: Option<u32>) -> (r: RestartAction)
    ensures
        r == restart_action(state, process),
{
    match process {
        None => RestartAction::PersistOnly,
        Some(process_id) => match state {
            UpgradeState::NoChange => RestartAction::Nothing,
            _ => RestartAction::Restart { process_id },
        },
    }
}

/// Ends an update: decides what becomes of the unit's process and, unless
/// nothing is to be done, brings the description of the unit on
/// `app_run_port` up to `latest`.
///
/// The store is left as it was where nothing is to be done and where
/// `latest` is refused.
pub fn finish_update(
    config: &mut InstallerConfig,
    app_run_port: u32,
    state: UpgradeState,
    latest: InstallerInfo,
    process: Option<u32>,
) -> (r: Result<RestartAction, ConfigError>)
    requires
        old(config).wf(),
    ensures
        final(config).wf(),
        final(config).deep_view().file_name == old(config).deep_view().file_name,
        final(config).deep_view().data.server_token == old(config).deep_view().data.server_token,
        restart_action(state, process) == RestartAction::Nothing ==> r == Ok::<
            RestartAction,
            ConfigError,
        >(RestartAction::Nothing) && final(config).deep_view() == old(config).deep_view(),
        restart_action(state, process) != RestartAction::Nothing ==> match update_outcome(
            old(config).deep_view().data.installers,
            app_run_port,
            latest.deep_view(),
        ) {
            Ok(units) => r == Ok::<RestartAction, ConfigError>(restart_action(state, process))
                && final(config).deep_view().data.installers == units,
            Err(e) => r == Err::<RestartAction, ConfigError>(e)
                && final(config).deep_view().data.installers
                == old(config).deep_view().data.installers,
        },
{
    let action = decide_restart(state, process);
    match action {
        RestartAction::Nothing => Ok(action),
        _ => match config.update(app_run_port, latest) {
            Ok(_) => Ok(action),
            Err(e) => Err(e),
        },
    }
}

/// What the cache and production hold of a unit's two artifacts.
#[derive(Clone, Copy, Debug, PartialEq, Eq)]
pub struct UnitProbe {
    pub app_cache: CacheProbe,
    /// Whether the application archive is in production.
    pub app_staged: bool,
    pub jdk_cache: CacheProbe,
    /// Whether the directory of the expanded runtime is in production.
    pub jdk_target: bool,
    /// Whether the marker of an expansion stands beside it.
    pub jdk_marker: bool,
}

/// What it takes to have a unit's two artifacts in production.
#[derive(Debug, PartialEq)]
pub struct RunPlan {
    pub app_download: DownloadPlan,
    pub app_staging: StagingPlan,
    pub jdk_download: DownloadPlan,
    pub jdk_staging: StagingPlan,
}

/// A `RunPlan` as text.
pub struct RunPlanModel {
    pub app_download: DownloadPlanModel,
    pub app_staging: StagingPlanModel,
    pub jdk_download: DownloadPlanModel,
    pub jdk_staging: StagingPlanModel,
}

impl DeepView for RunPlan {
    type V = RunPlanModel;

    open spec fn deep_view(&self) -> RunPlanModel {
        RunPlanModel {
            app_download: self.app_download.deep_view(),
            app_staging: self.app_staging.deep_view(),
            jdk_download: self.jdk_download.deep_view(),
            jdk_staging: self.jdk_staging.deep_view(),
        }
    }
}

/// The plan that brings the artifacts of `unit` into production: each is
/// first had in the cache, then staged, the application by copy and the
/// runtime by expansion.
pub open spec fn run_plan(
    unit: InstallerModel,
    target_os: Seq<char>,
    target_arch: Seq<char>,
    probe: UnitProbe,
    app_files: Seq<FileMd5Model>,
    jdk_files: Seq<FileMd5Model>,
) -> RunPlanModel {
    RunPlanModel {
        app_download: download_plan(
            unit.url,
            unit.app_name,
            unit.app_version,
            unit.app_file_name,
            target_os,
            target_arch,
            probe.app_cache,
            app_files,
        ),
        app_staging: StagingPlanModel {
            cached: cache_file(unit.app_name, unit.app_version, unit.app_file_name),
            parent: prod_dir(unit.app_name, unit.app_version),
            target: prod_spring_boot_jar_path(
                unit.app_name,
                unit.app_version,
                unit.app_file_name,
            ),
            marker: None,
            steps: copy_steps(probe.app_staged),
        },
        jdk_download: download_plan(
            unit.url,
            unit.jdk_name,
            unit.jdk_version,
            unit.jdk_file_name,
            target_os,
            target_arch,
            probe.jdk_cache,
            jdk_files,
        ),
        jdk_staging: StagingPlanModel {
            cached: cache_file(unit.jdk_name, unit.jdk_version, unit.jdk_file_name),
            parent: prod_dir(unit.jdk_name, unit.jdk_version),
            target: prod_jdk_path(unit.jdk_name, unit.jdk_version),
            marker: Some(marker_path(unit.jdk_name, unit.jdk_version, unit.jdk_file_name)),
            steps: expand_steps(probe.jdk_target, probe.jdk_marker),
        },
    }
}

/// Plans what running `installer` needs in production. `app_records` and
/// `jdk_records` are the store of unfinished downloads, as read for each
/// of the two artifacts.
pub fn run_app(
    installer: &Installer,
    os_info: &OSInfo,
    probe: UnitProbe,
    app_records: DownloadConfig,
    jdk_records: DownloadConfig,
) -> (r: RunPlan)
    ensures
        r.deep_view() == run_plan(
            installer.deep_view(),
            os_info.target_os@,
            os_info.target_arch@,
            probe,
            app_records.deep_view().files,
            jdk_records.deep_view().files,
        ),
{
    RunPlan {
        app_download: download(
            installer.url.as_str(),
            installer.app_name.as_str(),
            installer.app_version.as_str(),
            installer.app_file_name.as_str(),
            os_info,
            probe.app_cache,
            app_records,
        ),
        app_staging: ensure_spring_boot_jar_exists(
            installer.app_name.as_str(),
            installer.app_version.as_str(),
            installer.app_file_name.as_str(),
            probe.app_staged,
        ),
        jdk_download: download(
            installer.url.as_str(),
            installer.jdk_name.as_str(),
            installer.jdk_version.as_str(),
            installer.jdk_file_name.as_str(),
            os_info,
            probe.jdk_cache,
            jdk_records,
        ),
        jdk_staging: ensure_jdk_exists(
            installer.jdk_name.as_str(),
            installer.jdk_version.as_str(),
            installer.jdk_file_name.as_str(),
            probe.jdk_target,
            probe.jdk_marker,
        ),
    }
}

/// What running a unit does about its process.
#[derive(Debug, PartialEq)]
pub enum LaunchDecision {
    /// The port is free: the application is started.
    Start { command: LaunchCommand },
    /// Process `process_id` holds the port: the unit counts as running and
    /// nothing is started.
    AlreadyRunning { process_id: u32 },
}

/// A `LaunchDecision` as text.
pub enum LaunchDecisionModel {
    Start { command: LaunchCommandModel },
    AlreadyRunning { process_id: u32 },
}

impl DeepView for LaunchDecision {
    type V = LaunchDecisionModel;

    open spec fn deep_view(&self) -> LaunchDecisionModel {
        match self {
            LaunchDecision::Start { command } => LaunchDecisionModel::Start {
                command: command.deep_view(),
            },
            LaunchDecision::AlreadyRunning { process_id } => LaunchDecisionModel::AlreadyRunning {
                process_id: *process_id,
            },
        }
    }
}

/// The launch of `unit` from where its artifacts are staged, when its
/// port is held by `process`.
pub open spec fn launch_decision(
    os: TargetOs,
    unit: InstallerModel,
    process: Option<u32>,
) -> LaunchDecisionModel {
    match process {
        Some(process_id) => LaunchDecisionModel::AlreadyRunning { process_id },
        None => LaunchDecisionModel::Start {
            command: launch_command(
                os,
                prod_spring_boot_jar_path(unit.app_name, unit.app_version, unit.app_file_name),
                prod_jdk_path(unit.jdk_name, unit.jdk_version),
                unit.app_run_port,
            ),
        },
    }
}

/// Decides whether to start `installer`: only if nothing holds its port.
pub fn launch(os: TargetOs, installer: &Installer, process: Option<u32>) -> (r: LaunchDecision)
    ensures
        r.deep_view() == launch_decision(os, installer.deep_view(), process),
{
    match process {
        Some(process_id) => LaunchDecision::AlreadyRunning { process_id },
        None => {
            let jar = get_prod_spring_boot_jar_path(
                installer.app_name.as_str(),
                installer.app_version.as_str(),
                installer.app_file_name.as_str(),
            );
            let jdk = get_prod_jdk_path(
                installer.jdk_name.as_str(),
                installer.jdk_version.as_str(),
            );
            LaunchDecision::Start {
                command: run_spring_boot(os, jar.as_str(), jdk.as_str(), installer.app_run_port),
            }
        },
    }
}

/// Whether a plan fetches nothing and moves nothing.
pub open spec fn is_idle(plan: RunPlanModel) -> bool {
    &&& plan.app_download is Cached
    &&& plan.jdk_download is Cached
    &&& plan.app_staging.steps.len() == 0
    &&& plan.jdk_staging.steps.len() == 0
}

/// Running a unit that runs does nothing.
///
/// Where both artifacts of a unit are in the cache and in production, the
/// runtime without marker, and a process holds the unit's port, running
/// the unit fetches nothing, stages nothing and starts nothing: the unit
/// is found running already.
pub proof fn lemma_run_when_running(
    os: TargetOs,
    unit: InstallerModel,
    target_os: Seq<char>,
    target_arch: Seq<char>,
    probe: UnitProbe,
    app_files: Seq<FileMd5Model>,
    jdk_files: Seq<FileMd5Model>,
    process_id: u32,
)
    requires
        probe.app_cache.finished,
        probe.app_staged,
        probe.jdk_cache.finished,
        probe.jdk_target,
        !probe.jdk_marker,
    ensures
        is_idle(run_plan(unit, target_os, target_arch, probe, app_files, jdk_files)),
        launch_decision(os, unit, Some(process_id)) == (LaunchDecisionModel::AlreadyRunning {
            process_id,
        }),
{
}

/// What stopping a unit does.
#[derive(Debug)]
pub enum StopAction {
    /// Process `process_id` holds the port: `command` ends it.
    Kill { process_id: u32, command: ShellCommand },
    /// Nothing holds the port, or the system has no means to end a
    /// process: nothing is done.
    NotRunning,
}

/// A `StopAction` as text.
pub enum StopActionModel {
    Kill { process_id: u32, command: CommandLine },
    NotRunning,
}

impl DeepView for StopAction {
    type V = StopActionModel;

    open spec fn deep_view(&self) -> StopActionModel {
        match self {
            StopAction::Kill { process_id, command } => StopActionModel::Kill {
                process_id: *process_id,
                command: command.deep_view(),
            },
            StopAction::NotRunning => StopActionModel::NotRunning,
        }
    }
}

/// The stop of whatever `listing`, the host's socket listing, shows
/// listening on `port`.
pub open spec fn stop_action(os: TargetOs, listing: Seq<Seq<char>>, port: u32) -> StopActionModel {
    match first_listener(os, listing, port) {
        Some(process_id) => match shell_command(os, kill_line(os, process_id)) {
            Some(command) => StopActionModel::Kill { process_id, command },
            None => StopActionModel::NotRunning,
        },
        None => StopActionModel::NotRunning,
    }
}

/// Decides how to stop the application on `run_port`: the process that
/// listens there is ended by force.
pub fn stop_jar(os: TargetOs, listing: &Vec<String>, run_port: u32) -> (r: StopAction)
    ensures
        r.deep_view() == stop_action(os, listing.deep_view(), run_port),
{
    match get_id(os, listing, run_port) {
        Some(process_id) => match kill(os, process_id) {
            Some(command) => StopAction::Kill { process_id, command },
            None => StopAction::NotRunning,
        },
        None => StopAction::NotRunning,
    }
}

/// Decides how to stop the unit on `app_run_port`. Only a registered unit
/// is stopped: `None` says that the port has no unit, and whatever listens
/// there is left alone.
pub fn stop_single_app(
    installer_config: &InstallerConfig,
    os: TargetOs,
    listing: &Vec<String>,
    app_run_port: u32,
) -> (r: Option<StopAction>)
    ensures
        r.deep_view() == if has_port(installer_config.deep_view().data.installers, app_run_port) {
            Some(stop_action(os, listing.deep_view(), app_run_port))
        } else {
            None
        },
{
    match installer_config.get_by_port(app_run_port) {
        Some(_) => Some(stop_jar(os, listing, app_run_port)),
        None => None,
    }
}

/// Why a unit was not registered.
#[derive(Clone, Copy, Debug, PartialEq, Eq, Structural)]
pub enum RegisterError {
    /// The platform did not register the unit.
    Remote(RemoteError),
    /// The platform registered the unit, and the store refused it.
    Config(ConfigError),
}

/// Ends a registration: reads the platform's answer, of status `status`
/// and with the description `body`, and on success puts the new unit into
/// the store. Otherwise the store is left as it was.
pub fn register_installer(
    config: &mut InstallerConfig,
    url: &str,
    status: u16,
    body: Option<InstallerInfo>,
) -> (r: Result<(), RegisterError>)
    requires
        old(config).wf(),
    ensures
        final(config).wf(),
        final(config).deep_view().file_name == old(config).deep_view().file_name,
        final(config).deep_view().data.server_token == old(config).deep_view().data.server_token,
        match description_in(201, url@, status, body.deep_view()) {
            Ok(info) => match add_outcome(old(config).deep_view().data.installers, info) {
                Ok(units) => r is Ok && final(config).deep_view().data.installers == units,
                Err(e) => r == Err::<(), RegisterError>(RegisterError::Config(e))
                    && final(config).deep_view().data.installers
                    == old(config).deep_view().data.installers,
            },
            Err(e) => r == Err::<(), RegisterError>(RegisterError::Remote(e))
                && final(config).deep_view().data.installers
                == old(config).deep_view().data.installers,
        },
{
    match read_registration(url, status, body) {
        Ok(info) => match config.add(info) {
            Ok(()) => Ok(()),
            Err(e) => Err(RegisterError::Config(e)),
        },
        Err(e) => Err(RegisterError::Remote(e)),
    }
}

/// Ends the removal of a unit: reads the status of the platform's answer
/// and, only if the platform has removed the unit, decides how to stop
/// what listens on `app_run_port` and takes the unit on that port out of
/// the store.
///
/// Where the platform has not removed the unit, the unit stays
/// registered and nothing is stopped.
pub fn unregister_installer(
    config: &mut InstallerConfig,
    os: TargetOs,
    app_run_port: u32,
    status: u16,
    listing: &Vec<String>,
) -> (r: Result<StopAction, RemoteError>)
    requires
        old(config).wf(),
    ensures
        final(config).wf(),
        final(config).deep_view().file_name == old(config).deep_view().file_name,
        final(config).deep_view().data.server_token == old(config).deep_view().data.server_token,
        if status == 204 {
            &&& r matches Ok(action)
            &&& action.deep_view() == stop_action(os, listing.deep_view(), app_run_port)
            &&& final(config).deep_view().data.installers == without_port(
                old(config).deep_view().data.installers,
                app_run_port,
            )
        } else {
            &&& r matches Err(e)
            &&& e == if status == 404 {
                RemoteError::NotFound
            } else {
                RemoteError::UnexpectedStatus(status)
            }
            &&& final(config).deep_view().data.installers
                == old(config).deep_view().data.installers
        },
{
    match read_unregistration(status) {
        Ok(()) => {
            let action = stop_jar(os, listing, app_run_port);
            config.remove_by_port(app_run_port);
            Ok(action)
        },
        Err(e) => Err(e),
    }
}

/// Whether the operator's answer to a question says yes: a `Y` or a `y`
/// with nothing but whitespace around it. An empty answer says no.
pub fn confirm_to_continue(answer: &str) -> (r: bool)
    ensures
        r == (trimmed(answer@) == "Y"@ || trimmed(answer@) == "y"@),
{
    let text = trim(answer);
    str_eq(text.as_str(), "Y") || str_eq(text.as_str(), "y")
}

/// The cells that show a unit in a list: port, token, platform,
/// application and its version.
pub fn print_one_installer(installer: &Installer) -> (r: Vec<String>)
    ensures
        r.deep_view() == seq![
            decimal(installer.app_run_port as nat),
            installer.installer_token@,
            installer.url@,
            installer.app_name@,
            installer.app_version@,
        ],
{
    let mut r: Vec<String> = Vec::new();
    r.push(u64_to_string(installer.app_run_port as u64));
    r.push(installer.installer_token.clone());
    r.push(installer.url.clone());
    r.push(installer.app_name.clone());
    r.push(installer.app_version.clone());
    assert(r.deep_view() =~= seq![
        decimal(installer.app_run_port as nat),
        installer.installer_token@,
        installer.url@,
        installer.app_name@,
        installer.app_version@,
    ]);
    r
}

} // verus!
