//! The store of managed units, one per port.

use crate::config::INSTALLER_CONFIG_FILE_NAME;
use crate::http::client::{InstallerInfo, InstallerInfoModel};
use crate::util::text::str_eq;
use vstd::prelude::*;

verus! {

/// A managed unit: an application and its runtime, bound to one port.
#[derive(Debug, PartialEq)]
pub struct Installer {
    pub url: String,
    /// Token that identifies this unit to the platform.
    pub installer_token: String,
    pub app_name: String,
    pub app_version: String,
    pub app_file_name: String,
    pub app_run_port: u32,
    pub jdk_name: String,
    pub jdk_version: String,
    pub jdk_file_name: String,
}

/// An `Installer` as text.
pub struct InstallerModel {
    pub url: Seq<char>,
    pub installer_token: Seq<char>,
    pub app_name: Seq<char>,
    pub app_version: Seq<char>,
    pub app_file_name: Seq<char>,
    pub app_run_port: u32,
    pub jdk_name: Seq<char>,
    pub jdk_version: Seq<char>,
    pub jdk_file_name: Seq<char>,
}

impl DeepView for Installer {
    type V = InstallerModel;

    open spec fn deep_view(&self) -> InstallerModel {
        InstallerModel {
            url: self.url@,
            installer_token: self.installer_token@,
            app_name: self.app_name@,
            app_version: self.app_version@,
            app_file_name: self.app_file_name@,
            app_run_port: self.app_run_port,
            jdk_name: self.jdk_name@,
            jdk_version: self.jdk_version@,
            jdk_file_name: self.jdk_file_name@,
        }
    }
}

/// What the store persists: the host's token and its units.
#[derive(Debug, PartialEq)]
pub struct InstallerData {
    /// Token that identifies this host to the platform.
    pub server_token: String,
    pub installers: Vec<Installer>,
}

/// An `InstallerData` as text.
pub struct InstallerDataModel {
    pub server_token: Seq<char>,
    pub installers: Seq<InstallerModel>,
}

impl DeepView for InstallerData {
    type V = InstallerDataModel;

    open spec fn deep_view(&self) -> InstallerDataModel {
        InstallerDataModel {
            server_token: self.server_token@,
            installers: self.installers.deep_view(),
        }
    }
}

/// No two units share a port.
pub open spec fn unique_ports(units: Seq<InstallerModel>) -> bool {
    forall|i: int, j: int|
        0 <= i < j < units.len() ==> units[i].app_run_port != units[j].app_run_port
}

/// Whether a unit is registered on `port`.
pub open spec fn has_port(units: Seq<InstallerModel>, port: u32) -> bool {
    exists|i: int| 0 <= i < units.len() && #[trigger] units[i].app_run_port == port
}

/// The unit that a description stands for under the platform at `url`.
pub open spec fn unit_of(info: InstallerInfoModel, url: Seq<char>) -> InstallerModel {
    InstallerModel {
        url,
        installer_token: info.installer_token,
        app_name: info.app_name,
        app_version: info.app_version,
        app_file_name: info.app_file_name,
        app_run_port: info.app_run_port,
        jdk_name: info.jdk_name,
        jdk_version: info.jdk_version,
        jdk_file_name: info.jdk_file_name,
    }
}

/// Index of the first unit on `port`, or the number of units if there is none.
pub open spec fn port_index(units: Seq<InstallerModel>, port: u32) -> int
    decreases units.len(),
{
    if units.len() == 0 || units[0].app_run_port == port {
        0
    } else {
        1 + port_index(units.drop_first(), port)
    }
}

/// Index of the first unit with `token`, or the number of units if there is none.
pub open spec fn token_index(units: Seq<InstallerModel>, token: Seq<char>) -> int
    decreases units.len(),
{
    if units.len() == 0 || units[0].installer_token == token {
        0
    } else {
        1 + token_index(units.drop_first(), token)
    }
}

/// Why the store refused a unit.
#[derive(Clone, Copy, Debug, PartialEq, Eq, Structural)]
pub enum ConfigError {
    /// The description names no platform URL.
    MissingUrl,
    /// Another unit is registered on the port.
    PortTaken,
}

/// The units after the one that `info` describes has joined them, or why
/// it cannot.
pub open spec fn add_outcome(units: Seq<InstallerModel>, info: InstallerInfoModel) -> Result<
    Seq<InstallerModel>,
    ConfigError,
> {
    match info.url {
        None => Err(ConfigError::MissingUrl),
        Some(url) => if has_port(units, info.app_run_port) {
            Err(ConfigError::PortTaken)
        } else {
            Ok(units.push(unit_of(info, url)))
        },
    }
}

/// The units after the one on `port`, if there is one, has taken over what
/// `info` describes. The unit keeps its port.
pub open spec fn update_outcome(
    units: Seq<InstallerModel>,
    port: u32,
    info: InstallerInfoModel,
) -> Result<Seq<InstallerModel>, ConfigError> {
    let i = port_index(units, port);
    if i >= units.len() {
        Ok(units)
    } else {
        match info.url {
            None => Err(ConfigError::MissingUrl),
            Some(url) => Ok(
                units.update(
                    i,
                    InstallerModel { app_run_port: units[i].app_run_port, ..unit_of(info, url) },
                ),
            ),
        }
    }
}

/// The units without the first one that carries `token`.
pub open spec fn without_token(units: Seq<InstallerModel>, token: Seq<char>) -> Seq<
    InstallerModel,
> {
    let i = token_index(units, token);
    if i < units.len() {
        units.remove(i)
    } else {
        units
    }
}

/// The unit registered on `port`.
pub open spec fn unit_on(units: Seq<InstallerModel>, port: u32) -> Option<InstallerModel> {
    let i = port_index(units, port);
    if i < units.len() {
        Some(units[i])
    } else {
        None
    }
}

/// The units without the one on `port`.
pub open spec fn without_port(units: Seq<InstallerModel>, port: u32) -> Seq<InstallerModel> {
    let i = port_index(units, port);
    if i < units.len() {
        units.remove(i)
    } else {
        units
    }
}

/// The units that stay when `removed` says of each unit whether it leaves.
pub open spec fn kept<T>(units: Seq<T>, removed: Seq<bool>) -> Seq<T>
    decreases units.len(),
{
    if units.len() == 0 {
        Seq::empty()
    } else if removed.len() > 0 && removed.last() {
        kept(units.drop_last(), removed.drop_last())
    } else {
        kept(units.drop_last(), removed.drop_last()).push(units.last())
    }
}

/// `removed` holds, for each unit in turn, an answer that `f` gave for it.
pub open spec fn decided<F: Fn(&Installer) -> bool>(
    f: F,
    units: Seq<Installer>,
    removed: Seq<bool>,
) -> bool {
    removed.len() == units.len() && forall|j: int|
        0 <= j < units.len() ==> call_ensures(f, (&units[j],), #[trigger] removed[j])
}

/// The managed units of this host and the file they are kept in.
pub struct InstallerConfig {
    file_name: String,
    data: InstallerData,
}

/// An `InstallerConfig` as text.
pub struct InstallerConfigModel {
    pub file_name: Seq<char>,
    pub data: InstallerDataModel,
}

impl DeepView for InstallerConfig {
    type V = InstallerConfigModel;

    closed spec fn deep_view(&self) -> InstallerConfigModel {
        InstallerConfigModel { file_name: self.file_name@, data: self.data.deep_view() }
    }
}

impl Installer {
    /// The unit that `info` describes; `None` if it names no platform URL.
    pub fn from_info(info: InstallerInfo) -> (r: Option<Installer>)
        ensures
            r.deep_view() == match info.deep_view().url {
                Some(url) => Some(unit_of(info.deep_view(), url)),
                None => None,
            },
    {
        match info.url {
            Some(url) => Some(
                Installer {
                    url,
                    installer_token: info.installer_token,
                    app_name: info.app_name,
                    app_version: info.app_version,
                    app_file_name: info.app_file_name,
                    app_run_port: info.app_run_port,
                    jdk_name: info.jdk_name,
                    jdk_version: info.jdk_version,
                    jdk_file_name: info.jdk_file_name,
                },
            ),
            None => None,
        }
    }
}

fn find_port(units: &Vec<Installer>, port: u32) -> (i: usize)
    ensures
        i == port_index(units.deep_view(), port),
        i <= units.len(),
        i < units.len() ==> units@[i as int].app_run_port == port,
        forall|j: int| 0 <= j < i ==> units@[j].app_run_port != port,
{
    let ghost all = units.deep_view();
    let mut i: usize = 0;
    assert(all.skip(0) == all);
    while i < units.len() && units[i].app_run_port != port
        invariant
            i <= units.len(),
            all == units.deep_view(),
            port_index(all, port) == i + port_index(all.skip(i as int), port),
            forall|j: int| 0 <= j < i ==> units@[j].app_run_port != port,
        decreases units.len() - i,
    {
        assert(all.skip(i as int).drop_first() == all.skip(i + 1));
        i += 1;
    }
    i
}

fn find_token(units: &Vec<Installer>, token: &str) -> (i: usize)
    ensures
        i == token_index(units.deep_view(), token@),
        i <= units.len(),
{
    let ghost all = units.deep_view();
    let mut i: usize = 0;
    assert(all.skip(0) == all);
    while i < units.len() && !str_eq(units[i].installer_token.as_str(), token)
        invariant
            i <= units.len(),
            all == units.deep_view(),
            token_index(all, token@) == i + token_index(all.skip(i as int), token@),
        decreases units.len() - i,
    {
        assert(all.skip(i as int).drop_first() == all.skip(i + 1));
        i += 1;
    }
    i
}

fn ports_differ(units: &Vec<Installer>) -> (r: bool)
    ensures
        r == unique_ports(units.deep_view()),
{
    let ghost all = units.deep_view();
    let mut j: usize = 0;
    while j < units.len()
        invariant
            j <= units.len(),
            all == units.deep_view(),
            forall|a: int, b: int| 0 <= a < b < j ==> all[a].app_run_port != all[b].app_run_port,
        decreases units.len() - j,
    {
        let i = find_port(units, units[j].app_run_port);
        if i < j {
            assert(all[i as int].app_run_port == all[j as int].app_run_port);
            return false;
        }
        j += 1;
    }
    true
}

impl InstallerConfig {
    /// The units in the store, in order.
    pub closed spec fn units(&self) -> Seq<Installer> {
        self.data.installers@
    }

    /// The store's invariant: no two of its units share a port.
    pub open spec fn wf(&self) -> bool {
        unique_ports(self.deep_view().data.installers)
    }

    /// An empty store for the host known as `server_token`, kept in
    /// `file_name`.
    pub fn create_default_config(file_name: &str, server_token: String) -> (r: Self)
        ensures
            r.deep_view().file_name == file_name@,
            r.deep_view().data.server_token == server_token@,
            r.deep_view().data.installers.len() == 0,
            r.wf(),
    {
        let data = InstallerData { server_token, installers: Vec::new() };
        InstallerConfig { file_name: file_name.to_owned(), data }
    }

    /// An empty store for the host known as `server_token`, kept in the
    /// agent's usual file.
    pub fn new(server_token: String) -> (r: Self)
        ensures
            r.deep_view().file_name == INSTALLER_CONFIG_FILE_NAME@,
            r.deep_view().data.server_token == server_token@,
            r.deep_view().data.installers.len() == 0,
            r.wf(),
    {
        Self::create_default_config(INSTALLER_CONFIG_FILE_NAME, server_token)
    }

    /// What the store holds.
    pub fn get_data(&self) -> (r: &InstallerData)
        ensures
            r.deep_view() == self.deep_view().data,
            r.installers@ == self.units(),
    {
        &self.data
    }

    /// The file the store is kept in.
    pub fn file_name(&self) -> (r: &str)
        ensures
            r@ == self.deep_view().file_name,
    {
        self.file_name.as_str()
    }

    /// The unit registered on `app_run_port`, if there is one.
    pub fn get_by_port(&self, app_run_port: u32) -> (r: Option<&Installer>)
        ensures
            r.deep_view() == unit_on(self.deep_view().data.installers, app_run_port),
            r is Some <==> has_port(self.deep_view().data.installers, app_run_port),
            r matches Some(unit) ==> unit.app_run_port == app_run_port,
    {
        let i = find_port(&self.data.installers, app_run_port);
        if i < self.data.installers.len() {
            assert(self.data.installers.deep_view()[i as int].app_run_port == app_run_port);
            Some(&self.data.installers[i])
        } else {
            let ghost units = self.data.installers.deep_view();
            assert forall|j: int| 0 <= j < units.len() implies units[j].app_run_port
                != app_run_port by {}
            None
        }
    }

    /// The store kept in `file_name` with the content `data`; `None` if two
    /// of its units share a port.
    pub fn from(file_name: &str, data: InstallerData) -> (r: Option<Self>)
        ensures
            unique_ports(data.deep_view().installers) <==> r is Some,
            r matches Some(c) ==> c.wf() && c.deep_view().file_name == file_name@
                && c.deep_view().data == data.deep_view(),
    {
        if ports_differ(&data.installers) {
            Some(InstallerConfig { file_name: file_name.to_owned(), data })
        } else {
            None
        }
    }

    /// Registers the unit that `installer_info` describes.
    ///
    /// The store is left as it was if the description names no platform URL
    /// or its port already has a unit.
    pub fn add(&mut self, installer_info: InstallerInfo) -> (r: Result<(), ConfigError>)
        requires
            old(self).wf(),
        ensures
            final(self).wf(),
            final(self).deep_view().file_name == old(self).deep_view().file_name,
            final(self).deep_view().data.server_token == old(self).deep_view().data.server_token,
            match add_outcome(old(self).deep_view().data.installers, installer_info.deep_view()) {
                Ok(units) => r is Ok && final(self).deep_view().data.installers == units,
                Err(e) => r == Err::<(), ConfigError>(e) && final(self).deep_view().data.installers
                    == old(self).deep_view().data.installers,
            },
    {
        let ghost before = self.data.installers.deep_view();
        let port = installer_info.app_run_port;
        let i = find_port(&self.data.installers, port);
        match Installer::from_info(installer_info) {
            None => Err(ConfigError::MissingUrl),
            Some(unit) => {
                if i < self.data.installers.len() {
                    assert(before[i as int].app_run_port == port);
                    Err(ConfigError::PortTaken)
                } else {
                    assert(!has_port(before, port)) by {
                        assert forall|j: int| 0 <= j < before.len() implies before[j].app_run_port
                            != port by {}
                    }
                    self.data.installers.push(unit);
                    assert(self.data.installers.deep_view() == before.push(unit.deep_view()));
                    Ok(())
                }
            },
        }
    }

    /// Refreshes the unit on `app_run_port` from `installer_info`: every
    /// field but the port. Returns whether the store changed.
    ///
    /// Without a unit on that port nothing happens. With one, a description
    /// that names no platform URL is refused and the store is left as it was.
    pub fn update(&mut self, app_run_port: u32, installer_info: InstallerInfo) -> (r: Result<
        bool,
        ConfigError,
    >)
        requires
            old(self).wf(),
        ensures
            final(self).wf(),
            final(self).deep_view().file_name == old(self).deep_view().file_name,
            final(self).deep_view().data.server_token == old(self).deep_view().data.server_token,
            match update_outcome(
                old(self).deep_view().data.installers,
                app_run_port,
                installer_info.deep_view(),
            ) {
                Ok(units) => r == Ok::<bool, ConfigError>(
                    has_port(old(self).deep_view().data.installers, app_run_port),
                ) && final(self).deep_view().data.installers == units,
                Err(e) => r == Err::<bool, ConfigError>(e)
                    && final(self).deep_view().data.installers
                    == old(self).deep_view().data.installers,
            },
    {
        let ghost before = self.data.installers.deep_view();
        let i = find_port(&self.data.installers, app_run_port);
        if i >= self.data.installers.len() {
            assert(!has_port(before, app_run_port)) by {
                assert forall|j: int| 0 <= j < before.len() implies before[j].app_run_port
                    != app_run_port by {}
            }
            return Ok(false);
        }
        assert(before[i as int].app_run_port == app_run_port);
        match Installer::from_info(installer_info) {
            None => Err(ConfigError::MissingUrl),
            Some(unit) => {
                let mut unit = unit;
                unit.app_run_port = app_run_port;
                self.data.installers.set(i, unit);
                let ghost after = self.data.installers.deep_view();
                assert(after == before.update(i as int, unit.deep_view()));
                assert forall|a: int, b: int| 0 <= a < b < after.len() implies after[a].app_run_port
                    != after[b].app_run_port by {
                    assert(after[a].app_run_port == before[a].app_run_port);
                    assert(after[b].app_run_port == before[b].app_run_port);
                }
                Ok(true)
            },
        }
    }

    /// Removes the first unit that carries `installer_token`, if there is
    /// one.
    pub fn remove_by_installer_token(&mut self, installer_token: &str)
        requires
            old(self).wf(),
        ensures
            final(self).wf(),
            final(self).deep_view().file_name == old(self).deep_view().file_name,
            final(self).deep_view().data.server_token == old(self).deep_view().data.server_token,
            final(self).deep_view().data.installers == without_token(
                old(self).deep_view().data.installers,
                installer_token@,
            ),
    {
        let ghost before = self.data.installers.deep_view();
        let i = find_token(&self.data.installers, installer_token);
        if i < self.data.installers.len() {
            self.data.installers.remove(i);
            let ghost after = self.data.installers.deep_view();
            assert(after == before.remove(i as int));
            assert forall|a: int, b: int| 0 <= a < b < after.len() implies after[a].app_run_port
                != after[b].app_run_port by {
                let a0 = if a < i { a } else { a + 1 };
                let b0 = if b < i { b } else { b + 1 };
                assert(after[a] == before[a0]);
                assert(after[b] == before[b0]);
            }
        }
    }

    /// Removes the unit on `app_run_port`, if there is one.
    pub fn remove_by_port(&mut self, app_run_port: u32)
        requires
            old(self).wf(),
        ensures
            final(self).wf(),
            final(self).deep_view().file_name == old(self).deep_view().file_name,
            final(self).deep_view().data.server_token == old(self).deep_view().data.server_token,
            final(self).deep_view().data.installers == without_port(
                old(self).deep_view().data.installers,
                app_run_port,
            ),
            !has_port(final(self).deep_view().data.installers, app_run_port),
    {
        let ghost before = self.data.installers.deep_view();
        let i = find_port(&self.data.installers, app_run_port);
        if i < self.data.installers.len() {
            self.data.installers.remove(i);
            let ghost after = self.data.installers.deep_view();
            assert(after == before.remove(i as int));
            assert forall|a: int| 0 <= a < after.len() implies #[trigger] after[a].app_run_port
                != app_run_port by {
                let a0 = if a < i { a } else { a + 1 };
                assert(after[a] == before[a0]);
                assert(before[i as int].app_run_port == app_run_port);
            }
            assert forall|a: int, b: int| 0 <= a < b < after.len() implies after[a].app_run_port
                != after[b].app_run_port by {
                let a0 = if a < i { a } else { a + 1 };
                let b0 = if b < i { b } else { b + 1 };
                assert(after[a] == before[a0]);
                assert(after[b] == before[b0]);
            }
        } else {
            assert forall|a: int| 0 <= a < before.len() implies #[trigger] before[a].app_run_port
                != app_run_port by {}
        }
    }

    /// Asks `f` about each unit in turn and removes those for which it
    /// answers `true`; the others stay, in their order.
    pub fn remove_all<F: Fn(&Installer) -> bool>(&mut self, f: F)
        requires
            old(self).wf(),
            forall|j: int|
                0 <= j < old(self).units().len() ==> call_requires(
                    f,
                    (&#[trigger] old(self).units()[j],),
                ),
        ensures
            final(self).wf(),
            final(self).deep_view().file_name == old(self).deep_view().file_name,
            final(self).deep_view().data.server_token == old(self).deep_view().data.server_token,
            exists|removed: Seq<bool>| #[trigger]
                decided(f, old(self).units(), removed) && final(self).units() == kept(
                    old(self).units(),
                    removed,
                ) && final(self).deep_view().data.installers == kept(
                    old(self).deep_view().data.installers,
                    removed,
                ),
    {
        let ghost orig = self.data.installers@;
        let ghost origv = self.data.installers.deep_view();
        let ghost mut removed: Seq<bool> = Seq::empty();
        let ghost mut j: int = 0;
        let mut i: usize = 0;
        assert(orig.take(0) == Seq::<Installer>::empty());
        assert(origv.take(0) == Seq::<InstallerModel>::empty());
        assert(orig.skip(0) == orig);
        assert forall|t: int| 0 <= t < orig.len() implies call_requires(
            f,
            (&#[trigger] orig[t],),
        ) by {
            assert(orig[t] == old(self).units()[t]);
        }
        while i < self.data.installers.len()
            invariant
                self.file_name == old(self).file_name,
                self.data.server_token == old(self).data.server_token,
                orig == old(self).data.installers@,
                origv == old(self).data.installers.deep_view(),
                origv.len() == orig.len(),
                forall|t: int| 0 <= t < orig.len() ==> origv[t] == #[trigger] orig[t].deep_view(),
                forall|t: int| 0 <= t < orig.len() ==> call_requires(f, (&#[trigger] orig[t],)),
                0 <= i <= j <= orig.len(),
                self.data.installers.len() - i == orig.len() - j,
                removed.len() == j,
                forall|t: int| 0 <= t < j ==> call_ensures(f, (&orig[t],), #[trigger] removed[t]),
                self.data.installers@ == kept(orig.take(j), removed) + orig.skip(j),
                self.data.installers.deep_view() == kept(origv.take(j), removed) + origv.skip(j),
                i == kept(orig.take(j), removed).len(),
                i == kept(origv.take(j), removed).len(),
                unique_ports(self.data.installers.deep_view()),
            decreases self.data.installers.len() - i,
        {
            let ghost cur = self.data.installers@;
            let ghost curv = self.data.installers.deep_view();
            assert(cur[i as int] == orig.skip(j)[0]);
            let gone = f(&self.data.installers[i]);
            proof {
                assert(orig.take(j + 1).drop_last() == orig.take(j));
                assert(origv.take(j + 1).drop_last() == origv.take(j));
                assert(removed.push(gone).drop_last() == removed);
            }
            if gone {
                self.data.installers.remove(i);
                proof {
                    let after = self.data.installers@;
                    let afterv = self.data.installers.deep_view();
                    assert(after == cur.remove(i as int));
                    assert(afterv == curv.remove(i as int));
                    assert(after == kept(orig.take(j), removed) + orig.skip(j + 1));
                    assert(afterv == kept(origv.take(j), removed) + origv.skip(j + 1));
                    assert forall|a: int, b: int|
                        0 <= a < b < afterv.len() implies afterv[a].app_run_port
                        != afterv[b].app_run_port by {
                        let a0 = if a < i { a } else { a + 1 };
                        let b0 = if b < i { b } else { b + 1 };
                        assert(afterv[a] == curv[a0]);
                        assert(afterv[b] == curv[b0]);
                    }
                }
            } else {
                proof {
                    assert(cur == kept(orig.take(j), removed).push(orig[j]) + orig.skip(j + 1));
                    assert(curv[i as int] == origv[j]);
                    assert(curv == kept(origv.take(j), removed).push(origv[j]) + origv.skip(j + 1));
                }
                i += 1;
            }
            proof {
                removed = removed.push(gone);
                j = j + 1;
            }
        }
        proof {
            assert(orig.take(j) == orig);
            assert(origv.take(j) == origv);
            assert(orig.skip(j) == Seq::<Installer>::empty());
            assert(origv.skip(j) == Seq::<InstallerModel>::empty());
            assert(self.data.installers@ == kept(orig, removed));
            assert(self.data.installers.deep_view() == kept(origv, removed));
            assert(decided(f, old(self).units(), removed));
            assert(self.units() == kept(old(self).units(), removed));
            assert(self.deep_view().data.installers == kept(
                old(self).deep_view().data.installers,
                removed,
            ));
        }
    }
}

/// `port_index` is the least index of a unit on the port, or the number
/// of units.
pub proof fn lemma_port_index(units: Seq<InstallerModel>, port: u32)
    ensures
        0 <= port_index(units, port) <= units.len(),
        port_index(units, port) < units.len() ==> units[port_index(units, port)].app_run_port
            == port,
        forall|j: int|
            0 <= j < port_index(units, port) ==> (#[trigger] units[j]).app_run_port != port,
        has_port(units, port) <==> port_index(units, port) < units.len(),
    decreases units.len(),
{
    if units.len() > 0 && units[0].app_run_port != port {
        let rest = units.drop_first();
        lemma_port_index(rest, port);
        assert forall|j: int| 0 <= j < port_index(units, port) implies
            (#[trigger] units[j]).app_run_port != port by {
            if j > 0 {
                assert(units[j] == rest[j - 1]);
            }
        }
        if has_port(units, port) {
            let j = choose|j: int| 0 <= j < units.len() && #[trigger] units[j].app_run_port == port;
            assert(rest[j - 1].app_run_port == port);
        }
        if has_port(rest, port) {
            let j = choose|j: int| 0 <= j < rest.len() && #[trigger] rest[j].app_run_port == port;
            assert(units[j + 1].app_run_port == port);
        }
    } else if units.len() > 0 {
        assert(units[0].app_run_port == port);
    }
}

/// Where no two units share a port, the unit on a port is the only one
/// there.
pub proof fn lemma_unit_on(units: Seq<InstallerModel>, i: int)
    requires
        unique_ports(units),
        0 <= i < units.len(),
    ensures
        unit_on(units, units[i].app_run_port) == Some(units[i]),
{
    lemma_port_index(units, units[i].app_run_port);
    let k = port_index(units, units[i].app_run_port);
    if k < i {
        assert(units[k].app_run_port != units[i].app_run_port);
    }
}

/// A registered unit is found on its port, and every other port shows
/// what it showed before.
pub proof fn lemma_add_then_get(units: Seq<InstallerModel>, info: InstallerInfoModel, port: u32)
    requires
        unique_ports(units),
        add_outcome(units, info) is Ok,
    ensures
        unique_ports(add_outcome(units, info)->Ok_0),
        unit_on(add_outcome(units, info)->Ok_0, info.app_run_port) == Some(
            unit_of(info, info.url->0),
        ),
        port != info.app_run_port ==> unit_on(add_outcome(units, info)->Ok_0, port) == unit_on(
            units,
            port,
        ),
{
    let after = add_outcome(units, info)->Ok_0;
    let added = unit_of(info, info.url->0);
    assert(after.last() == added);
    assert forall|a: int, b: int| 0 <= a < b < after.len() implies after[a].app_run_port
        != after[b].app_run_port by {
        if b == units.len() {
            assert(after[a] == units[a]);
        }
    }
    lemma_unit_on(after, units.len() as int);
    lemma_port_index(units, port);
    lemma_port_index(after, port);
    if port != info.app_run_port {
        let k = port_index(units, port);
        let k1 = port_index(after, port);
        if k < units.len() {
            assert(after[k] == units[k]);
            if k1 < k {
                assert(after[k1] == units[k1]);
            }
        } else if k1 < units.len() {
            assert(after[k1] == units[k1]);
        }
    }
}

/// Removal by port takes the unit on that port and leaves every other
/// port as it was.
pub proof fn lemma_remove_by_port_exact(units: Seq<InstallerModel>, removed: u32, port: u32)
    requires
        unique_ports(units),
    ensures
        unique_ports(without_port(units, removed)),
        unit_on(without_port(units, removed), removed) is None,
        port != removed ==> unit_on(without_port(units, removed), port) == unit_on(units, port),
{
    lemma_port_index(units, removed);
    let i = port_index(units, removed);
    let after = without_port(units, removed);
    assert forall|a: int, b: int| 0 <= a < b < after.len() implies after[a].app_run_port
        != after[b].app_run_port by {
        let a0 = if i < units.len() && a >= i { a + 1 } else { a };
        let b0 = if i < units.len() && b >= i { b + 1 } else { b };
        assert(after[a] == units[a0]);
        assert(after[b] == units[b0]);
    }
    lemma_port_index(after, removed);
    let r = port_index(after, removed);
    if r < after.len() {
        let r0 = if i < units.len() && r >= i { r + 1 } else { r };
        assert(after[r] == units[r0]);
        if i < units.len() {
            assert(units[i].app_run_port == units[r0].app_run_port);
        }
    }
    if port != removed {
        lemma_port_index(units, port);
        lemma_port_index(after, port);
        let k = port_index(units, port);
        let k1 = port_index(after, port);
        if k < units.len() {
            let kk = if i < units.len() && k > i { k - 1 } else { k };
            assert(after[kk] == units[k]);
            lemma_unit_on(after, kk);
        } else if k1 < after.len() {
            let k0 = if i < units.len() && k1 >= i { k1 + 1 } else { k1 };
            assert(after[k1] == units[k0]);
        }
    }
}

} // verus!
