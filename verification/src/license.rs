use vstd::prelude::*;

use crate::attr::{lookup, lemma_mv_key_index, AttrMap, AttrModel, AttrValue, MapModel};
use crate::error::HttpError;

verus! {

/// A machine on which a plugin is activated.
#[derive(Debug)]
pub struct Machine {
    pub id: String,
    pub computer_name: String,
    pub os: String,
}

/// A machine as its id, computer name and operating system.
pub type MachineModel = (Seq<char>, Seq<char>, Seq<char>);

impl Machine {
    pub open spec fn model(self) -> MachineModel {
        (self.id@, self.computer_name@, self.os@)
    }

    pub fn new(new_id: &str, c_name: &str, new_os: &str) -> (r: Self)
        ensures
            r.model() == (new_id@, c_name@, new_os@),
    {
        Machine { id: new_id.to_owned(), computer_name: c_name.to_owned(), os: new_os.to_owned() }
    }
}

/// A plugin of a license, with the machines it is activated on.
#[derive(Debug)]
pub struct Plugin {
    pub id: String,
    pub machines: Vec<Machine>,
    pub max_machines: String,
    pub license_type: String,
}

/// A plugin as its id, machines, machine limit and license type.
pub struct PluginModel {
    pub id: Seq<char>,
    pub machines: Seq<MachineModel>,
    pub max_machines: Seq<char>,
    pub license_type: Seq<char>,
}

pub open spec fn machine_models(v: Seq<Machine>) -> Seq<MachineModel> {
    Seq::new(v.len(), |i: int| v[i].model())
}

pub open spec fn plugin_models(v: Seq<Plugin>) -> Seq<PluginModel> {
    Seq::new(v.len(), |i: int| v[i].model())
}

impl Plugin {
    pub open spec fn model(self) -> PluginModel {
        PluginModel {
            id: self.id@,
            machines: machine_models(self.machines@),
            max_machines: self.max_machines@,
            license_type: self.license_type@,
        }
    }

    pub fn new(new_id: &str, machine_limit: &str, l_type: &str) -> (r: Self)
        ensures
            r.model() == (PluginModel {
                id: new_id@,
                machines: Seq::empty(),
                max_machines: machine_limit@,
                license_type: l_type@,
            }),
    {
        let r = Plugin {
            id: new_id.to_owned(),
            machines: Vec::new(),
            max_machines: machine_limit.to_owned(),
            license_type: l_type.to_owned(),
        };
        assert(machine_models(r.machines@) =~= Seq::empty());
        r
    }

    pub fn add_machine(&mut self, machine: Machine)
        ensures
            final(self).id == old(self).id,
            final(self).max_machines == old(self).max_machines,
            final(self).license_type == old(self).license_type,
            final(self).machines@ == old(self).machines@.push(machine),
    {
        self.machines.push(machine);
    }

    /// Adds a machine for each entry of `map` (machine id to a map with its
    /// computer name and operating system), in order; stops at the first entry
    /// that lacks one of them.
    pub fn add_machines(&mut self, map: AttrMap) -> (r: Result<(), String>)
        requires
            !(scan_machines(map.mv()) is Panics),
        ensures
            final(self).id == old(self).id,
            final(self).max_machines == old(self).max_machines,
            final(self).license_type == old(self).license_type,
            match scan_machines(map.mv()) {
                MachinesScan::Added(ms) => r is Ok && machine_models(final(self).machines@) == machine_models(
                    old(self).machines@,
                ) + ms,
                MachinesScan::Failed(ms, msg) => r matches Err(e) && e@ == msg && machine_models(
                    final(self).machines@,
                ) == machine_models(old(self).machines@) + ms,
                MachinesScan::Panics => false,
            },
    {
        let mut i: usize = 0;
        while i < map.entries.len()
            invariant
                i <= map.entries@.len(),
                !(scan_machines(map.mv()) is Panics),
                self.id == old(self).id,
                self.max_machines == old(self).max_machines,
                self.license_type == old(self).license_type,
                scan_machines(map.mv().take(i as int)) matches MachinesScan::Added(ms) && machine_models(
                    self.machines@,
                ) == machine_models(old(self).machines@) + ms,
            decreases map.entries.len() - i,
        {
            let ghost e = map.mv();
            proof {
                lemma_scan_machines_prefix(e, i + 1);
                assert(e.take(i + 1).drop_last() =~= e.take(i as int));
                assert(e.take(i + 1).last() == e[i as int]);
            }
            let ghost prev = scan_machines(e.take(i as int))->Added_0;
            match machine_entry(&map.entries[i].0, &map.entries[i].1) {
                Ok(m) => {
                    let ghost before = self.machines@;
                    self.add_machine(m);
                    proof {
                        assert(machine_models(before.push(m)) =~= machine_models(before).push(m.model()));
                        assert(machine_models(self.machines@) =~= machine_models(old(self).machines@)
                            + prev.push(m.model()));
                    }
                },
                Err(msg) => {
                    proof {
                        lemma_scan_machines_failed(e, i as int);
                    }
                    return Err(msg);
                },
            }
            i = i + 1;
        }
        proof {
            assert(map.mv().take(map.entries@.len() as int) =~= map.mv());
        }
        Ok(())
    }
}

/// The machine of one entry of a machines map.
fn machine_entry(id: &String, value: &AttrValue) -> (r: Result<Machine, String>)
    requires
        !(machine_step(id@, value.dv()) is Panics),
    ensures
        match machine_step(id@, value.dv()) {
            MachineStep::Machine(m) => r matches Ok(x) && x.model() == m,
            MachineStep::Error(msg) => r matches Err(e) && e@ == msg,
            MachineStep::Panics => false,
        },
{
    proof {
        value.lemma_dv();
    }
    let node = value.m.as_ref().unwrap();
    proof {
        lemma_mv_key_index(*node, "computer_name"@);
        lemma_mv_key_index(*node, "os"@);
    }
    let computer_name = match node.get("computer_name") {
        Some(v) => {
            proof {
                v.lemma_dv();
            }
            v.s.as_ref().unwrap()
        },
        None => {
            return Err(String::from_str("Error GL45e"));
        },
    };
    let os = match node.get("os") {
        Some(v) => {
            proof {
                v.lemma_dv();
            }
            v.s.as_ref().unwrap()
        },
        None => {
            return Err(String::from_str("Error GL51g"));
        },
    };
    Ok(Machine::new(id.as_str(), computer_name.as_str(), os.as_str()))
}

/// What becomes of one entry of a machines map.
pub enum MachineStep {
    Machine(MachineModel),
    Error(Seq<char>),
    Panics,
}

/// The machine that entry `(id, v)` describes, the error for it, or a panic
/// when a value does not hold the expected kind of attribute.
pub open spec fn machine_step(id: Seq<char>, v: AttrModel) -> MachineStep {
    match v.m {
        None => MachineStep::Panics,
        Some(node) => match lookup(node, "computer_name"@) {
            None => MachineStep::Error("Error GL45e"@),
            Some(cn) => match cn.s {
                None => MachineStep::Panics,
                Some(cname) => match lookup(node, "os"@) {
                    None => MachineStep::Error("Error GL51g"@),
                    Some(o) => match o.s {
                        None => MachineStep::Panics,
                        Some(os) => MachineStep::Machine((id, cname, os)),
                    },
                },
            },
        },
    }
}

/// The outcome of adding the machines of a map: all of them, those before the
/// first failing entry with its error, or a panic.
pub enum MachinesScan {
    Added(Seq<MachineModel>),
    Failed(Seq<MachineModel>, Seq<char>),
    Panics,
}

pub open spec fn scan_machines(e: MapModel) -> MachinesScan
    decreases e.len(),
{
    if e.len() == 0 {
        MachinesScan::Added(Seq::empty())
    } else {
        match scan_machines(e.drop_last()) {
            MachinesScan::Added(ms) => match machine_step(e.last().0, e.last().1) {
                MachineStep::Machine(m) => MachinesScan::Added(ms.push(m)),
                MachineStep::Error(msg) => MachinesScan::Failed(ms, msg),
                MachineStep::Panics => MachinesScan::Panics,
            },
            other => other,
        }
    }
}

/// A scan that does not stop before an entry reaches it.
proof fn lemma_scan_machines_prefix(e: MapModel, i: int)
    requires
        0 <= i <= e.len(),
    ensures
        scan_machines(e.take(i)) !is Added ==> scan_machines(e) == scan_machines(e.take(i)),
    decreases e.len() - i,
{
    if scan_machines(e.take(i)) is Added {
    } else if i < e.len() {
        assert(e.take(i + 1).drop_last() =~= e.take(i));
        lemma_scan_machines_prefix(e, i + 1);
    } else {
        assert(e.take(i) =~= e);
    }
}

proof fn lemma_scan_machines_failed(e: MapModel, i: int)
    requires
        0 <= i < e.len(),
        scan_machines(e.take(i)) is Added,
        machine_step(e[i].0, e[i].1) is Error,
    ensures
        scan_machines(e) == MachinesScan::Failed(scan_machines(e.take(i))->Added_0, machine_step(e[i].0, e[i].1)->Error_0),
{
    assert(e.take(i + 1).drop_last() =~= e.take(i));
    lemma_scan_machines_prefix(e, i + 1);
}

/// A license: its code and its plugins.
#[derive(Debug)]
pub struct License {
    pub code: String,
    pub plugins: Vec<Plugin>,
}

impl License {
    pub fn new(new_code: &str) -> (r: Self)
        ensures
            r.code@ == new_code@,
            r.plugins@.len() == 0,
    {
        License { code: new_code.to_owned(), plugins: Vec::new() }
    }

    pub fn add_plugin(&mut self, plugin: Plugin)
        ensures
            final(self).code == old(self).code,
            final(self).plugins@ == old(self).plugins@.push(plugin),
    {
        self.plugins.push(plugin);
    }

    /// The license with code `new_code` and a plugin for each entry of
    /// `user_licenses_map` (plugin id to its license entry), in order.
    pub fn init_license(new_code: &str, user_licenses_map: AttrMap) -> (r: Result<License, HttpError>)
        requires
            !(scan_plugins(user_licenses_map.mv()) is Panics),
        ensures
            match scan_plugins(user_licenses_map.mv()) {
                PluginsScan::Added(ps) => r matches Ok(l) && l.code@ == new_code@ && plugin_models(l.plugins@)
                    == ps,
                PluginsScan::Failed(err) => r matches Err(e) && e.is(err.0, err.1),
                PluginsScan::Panics => false,
            },
    {
        let mut new_license = License::new(new_code);
        let ghost e = user_licenses_map.mv();
        let mut i: usize = 0;
        while i < user_licenses_map.entries.len()
            invariant
                i <= user_licenses_map.entries@.len(),
                e == user_licenses_map.mv(),
                !(scan_plugins(e) is Panics),
                new_license.code@ == new_code@,
                scan_plugins(e.take(i as int)) matches PluginsScan::Added(ps) && plugin_models(
                    new_license.plugins@,
                ) == ps,
            decreases user_licenses_map.entries.len() - i,
        {
            proof {
                lemma_scan_plugins_prefix(e, i + 1);
                assert(e.take(i + 1).drop_last() =~= e.take(i as int));
                assert(e.take(i + 1).last() == e[i as int]);
            }
            let ghost prev = scan_plugins(e.take(i as int))->Added_0;
            match plugin_entry(&user_licenses_map.entries[i].0, &user_licenses_map.entries[i].1) {
                Ok(plugin) => {
                    new_license.add_plugin(plugin);
                    proof {
                        assert(plugin_models(new_license.plugins@) =~= prev.push(plugin.model()));
                    }
                },
                Err(err) => {
                    proof {
                        lemma_scan_plugins_failed(e, i as int);
                    }
                    return Err(err);
                },
            }
            i = i + 1;
        }
        proof {
            assert(e.take(user_licenses_map.entries@.len() as int) =~= e);
        }
        Ok(new_license)
    }
}

/// The plugin of one entry of a user's licenses map.
fn plugin_entry(plugin_id: &String, value: &AttrValue) -> (r: Result<Plugin, HttpError>)
    requires
        !(plugin_step(plugin_id@, value.dv()) is Panics),
    ensures
        match plugin_step(plugin_id@, value.dv()) {
            PluginStep::Plugin(p) => r matches Ok(x) && x.model() == p,
            PluginStep::Error(err) => r matches Err(e) && e.is(err.0, err.1),
            PluginStep::Panics => false,
        },
{
    proof {
        value.lemma_dv();
    }
    let node = value.m.as_ref().unwrap();
    proof {
        lemma_mv_key_index(*node, "maxMachines"@);
        lemma_mv_key_index(*node, "license_type"@);
        lemma_mv_key_index(*node, "machines"@);
    }
    let max_machines = match node.get("maxMachines") {
        Some(v) => {
            proof {
                v.lemma_dv();
            }
            v.n.as_ref().unwrap()
        },
        None => {
            return Err(HttpError::new(500, "Error GLU056"));
        },
    };
    let license_type = match node.get("license_type") {
        Some(v) => {
            proof {
                v.lemma_dv();
            }
            v.s.as_ref().unwrap()
        },
        None => {
            return Err(HttpError::new(500, "Error GLU062"));
        },
    };
    let mut plugin = Plugin::new(plugin_id.as_str(), max_machines.as_str(), license_type.as_str());
    let machine_map = match node.get("machines") {
        Some(v) => {
            proof {
                v.lemma_dv();
            }
            v.m.as_ref().unwrap().deep_clone()
        },
        None => {
            return Err(HttpError::new(500, "Error GLU070"));
        },
    };
    match plugin.add_machines(machine_map) {
        Err(msg) => Err(HttpError::with_message(500, msg)),
        Ok(_) => {
            proof {
                assert(machine_models(plugin.machines@) =~= machine_models(Seq::<Machine>::empty()) + scan_machines(machine_map.mv())->Added_0);
            }
            Ok(plugin)
        },
    }
}

/// What becomes of one entry of a user's licenses map.
pub enum PluginStep {
    Plugin(PluginModel),
    Error((u16, Seq<char>)),
    Panics,
}

/// The plugin that entry `(id, v)` describes, the error for it, or a panic
/// when a value does not hold the expected kind of attribute.
pub open spec fn plugin_step(id: Seq<char>, v: AttrModel) -> PluginStep {
    match v.m {
        None => PluginStep::Panics,
        Some(node) => match lookup(node, "maxMachines"@) {
            None => PluginStep::Error((500u16, "Error GLU056"@)),
            Some(mm) => match mm.n {
                None => PluginStep::Panics,
                Some(max_machines) => match lookup(node, "license_type"@) {
                    None => PluginStep::Error((500u16, "Error GLU062"@)),
                    Some(lt) => match lt.s {
                        None => PluginStep::Panics,
                        Some(license_type) => match lookup(node, "machines"@) {
                            None => PluginStep::Error((500u16, "Error GLU070"@)),
                            Some(ms) => match ms.m {
                                None => PluginStep::Panics,
                                Some(machines) => match scan_machines(machines) {
                                    MachinesScan::Added(added) => PluginStep::Plugin(
                                        PluginModel { id, machines: added, max_machines, license_type },
                                    ),
                                    MachinesScan::Failed(_, msg) => PluginStep::Error((500u16, msg)),
                                    MachinesScan::Panics => PluginStep::Panics,
                                },
                            },
                        },
                    },
                },
            },
        },
    }
}

/// The outcome of reading the plugins of a user's licenses map.
pub enum PluginsScan {
    Added(Seq<PluginModel>),
    Failed((u16, Seq<char>)),
    Panics,
}

pub open spec fn scan_plugins(e: MapModel) -> PluginsScan
    decreases e.len(),
{
    if e.len() == 0 {
        PluginsScan::Added(Seq::empty())
    } else {
        match scan_plugins(e.drop_last()) {
            PluginsScan::Added(ps) => match plugin_step(e.last().0, e.last().1) {
                PluginStep::Plugin(p) => PluginsScan::Added(ps.push(p)),
                PluginStep::Error(err) => PluginsScan::Failed(err),
                PluginStep::Panics => PluginsScan::Panics,
            },
            other => other,
        }
    }
}

proof fn lemma_scan_plugins_prefix(e: MapModel, i: int)
    requires
        0 <= i <= e.len(),
    ensures
        scan_plugins(e.take(i)) !is Added ==> scan_plugins(e) == scan_plugins(e.take(i)),
    decreases e.len() - i,
{
    if scan_plugins(e.take(i)) is Added {
    } else if i < e.len() {
        assert(e.take(i + 1).drop_last() =~= e.take(i));
        lemma_scan_plugins_prefix(e, i + 1);
    } else {
        assert(e.take(i) =~= e);
    }
}

proof fn lemma_scan_plugins_failed(e: MapModel, i: int)
    requires
        0 <= i < e.len(),
        scan_plugins(e.take(i)) is Added,
        plugin_step(e[i].0, e[i].1) is Error,
    ensures
        scan_plugins(e) == PluginsScan::Failed(plugin_step(e[i].0, e[i].1)->Error_0),
{
    assert(e.take(i + 1).drop_last() =~= e.take(i));
    lemma_scan_plugins_prefix(e, i + 1);
}

// ---------------------------------------------------------------------
// Whether reading a license runs to the end

/// The kind of outcome of reading entries: read, stopped by an error, or a
/// panic.
enum ReadKind {
    Read,
    Stops,
    Panics,
}

/// Whether the attribute under `key`, where there is one, is a string.
fn string_field_ok(node: &AttrMap, key: &str) -> (r: Option<bool>)
    ensures
        match lookup(node.mv(), key@) {
            None => r is None,
            Some(v) => r == Some(v.s is Some),
        },
{
    proof {
        lemma_mv_key_index(*node, key@);
    }
    match node.get(key) {
        None => None,
        Some(v) => {
            proof {
                v.lemma_dv();
            }
            Some(v.s.is_some())
        },
    }
}

/// Whether the attribute under `key`, where there is one, is a number.
fn number_field_ok(node: &AttrMap, key: &str) -> (r: Option<bool>)
    ensures
        match lookup(node.mv(), key@) {
            None => r is None,
            Some(v) => r == Some(v.n is Some),
        },
{
    proof {
        lemma_mv_key_index(*node, key@);
    }
    match node.get(key) {
        None => None,
        Some(v) => {
            proof {
                v.lemma_dv();
            }
            Some(v.n.is_some())
        },
    }
}

fn machine_kind(id: &String, value: &AttrValue) -> (r: ReadKind)
    ensures
        r is Read <==> machine_step(id@, value.dv()) is Machine,
        r is Stops <==> machine_step(id@, value.dv()) is Error,
        r is Panics <==> machine_step(id@, value.dv()) is Panics,
{
    proof {
        value.lemma_dv();
    }
    let node = match &value.m {
        None => {
            return ReadKind::Panics;
        },
        Some(n) => n,
    };
    match string_field_ok(node, "computer_name") {
        None => {
            return ReadKind::Stops;
        },
        Some(false) => {
            return ReadKind::Panics;
        },
        Some(true) => {},
    }
    match string_field_ok(node, "os") {
        None => ReadKind::Stops,
        Some(false) => ReadKind::Panics,
        Some(true) => ReadKind::Read,
    }
}

fn machines_kind(map: &AttrMap) -> (r: ReadKind)
    ensures
        r is Read <==> scan_machines(map.mv()) is Added,
        r is Stops <==> scan_machines(map.mv()) is Failed,
        r is Panics <==> scan_machines(map.mv()) is Panics,
{
    let ghost e = map.mv();
    let mut i: usize = 0;
    while i < map.entries.len()
        invariant
            i <= map.entries@.len(),
            e == map.mv(),
            scan_machines(e.take(i as int)) is Added,
        decreases map.entries.len() - i,
    {
        proof {
            lemma_scan_machines_prefix(e, i + 1);
            assert(e.take(i + 1).drop_last() =~= e.take(i as int));
            assert(e.take(i + 1).last() == e[i as int]);
        }
        match machine_kind(&map.entries[i].0, &map.entries[i].1) {
            ReadKind::Read => {},
            ReadKind::Stops => {
                return ReadKind::Stops;
            },
            ReadKind::Panics => {
                return ReadKind::Panics;
            },
        }
        i = i + 1;
    }
    assert(e.take(map.entries@.len() as int) =~= e);
    ReadKind::Read
}

fn plugin_kind(id: &String, value: &AttrValue) -> (r: ReadKind)
    ensures
        r is Read <==> plugin_step(id@, value.dv()) is Plugin,
        r is Stops <==> plugin_step(id@, value.dv()) is Error,
        r is Panics <==> plugin_step(id@, value.dv()) is Panics,
{
    proof {
        value.lemma_dv();
    }
    let node = match &value.m {
        None => {
            return ReadKind::Panics;
        },
        Some(n) => n,
    };
    match number_field_ok(node, "maxMachines") {
        None => {
            return ReadKind::Stops;
        },
        Some(false) => {
            return ReadKind::Panics;
        },
        Some(true) => {},
    }
    match string_field_ok(node, "license_type") {
        None => {
            return ReadKind::Stops;
        },
        Some(false) => {
            return ReadKind::Panics;
        },
        Some(true) => {},
    }
    proof {
        lemma_mv_key_index(*node, "machines"@);
    }
    match node.get("machines") {
        None => ReadKind::Stops,
        Some(v) => {
            proof {
                v.lemma_dv();
            }
            match &v.m {
                None => ReadKind::Panics,
                Some(m) => machines_kind(m),
            }
        },
    }
}

impl License {
    /// Whether `init_license` runs to the end on a user's licenses map: it
    /// would not where a value does not hold the expected kind of attribute.
    pub fn can_init(user_licenses_map: &AttrMap) -> (r: bool)
        ensures
            r == !(scan_plugins(user_licenses_map.mv()) is Panics),
    {
        let ghost e = user_licenses_map.mv();
        let mut i: usize = 0;
        while i < user_licenses_map.entries.len()
            invariant
                i <= user_licenses_map.entries@.len(),
                e == user_licenses_map.mv(),
                scan_plugins(e.take(i as int)) is Added,
            decreases user_licenses_map.entries.len() - i,
        {
            proof {
                lemma_scan_plugins_prefix(e, i + 1);
                assert(e.take(i + 1).drop_last() =~= e.take(i as int));
                assert(e.take(i + 1).last() == e[i as int]);
            }
            match plugin_kind(&user_licenses_map.entries[i].0, &user_licenses_map.entries[i].1) {
                ReadKind::Read => {},
                ReadKind::Stops => {
                    return true;
                },
                ReadKind::Panics => {
                    return false;
                },
            }
            i = i + 1;
        }
        assert(e.take(user_licenses_map.entries@.len() as int) =~= e);
        true
    }
}

} // verus!
